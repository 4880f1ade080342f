//! The messages of a round in the form in which they are sent.
use vstd::prelude::*;

use crate::json::{json_array, views, Json, JsonView, ObjectBuilder};
use crate::session::context;
use crate::session::context::{
    calls_view, CallOut, ContextInput, MessageBuilder, OutMessage, OutView,
};
use crate::text::opt_text;

verus! {

/// A message of a role with a text.
pub open spec fn plain_message(role: Seq<char>, content: Seq<char>) -> JsonView {
    JsonView::Object(seq![("role"@, JsonView::Text(role)), ("content"@, JsonView::Text(content))])
}

/// The mark behind which a provider may cache.
pub open spec fn cache_mark() -> JsonView {
    JsonView::Object(seq![("type"@, JsonView::Text("ephemeral"@))])
}

/// A text that is worth caching.
pub open spec fn cached_part(content: Seq<char>) -> JsonView {
    JsonView::Object(
        seq![
            ("type"@, JsonView::Text("text"@)),
            ("text"@, JsonView::Text(content)),
            ("cache_control"@, cache_mark()),
        ],
    )
}

/// A system message that is worth caching.
pub open spec fn cached_message(content: Seq<char>) -> JsonView {
    JsonView::Object(
        seq![
            ("role"@, JsonView::Text("system"@)),
            ("content"@, JsonView::Array(seq![cached_part(content)])),
        ],
    )
}

/// The function that a tool call names.
pub open spec fn function_json(name: Seq<char>, arguments: Seq<char>) -> JsonView {
    JsonView::Object(
        seq![("name"@, JsonView::Text(name)), ("arguments"@, JsonView::Text(arguments))],
    )
}

/// A tool call.
pub open spec fn call_json(c: (Seq<char>, Seq<char>, Seq<char>)) -> JsonView {
    JsonView::Object(
        seq![
            ("id"@, JsonView::Text(c.0)),
            ("type"@, JsonView::Text("function"@)),
            ("function"@, function_json(c.1, c.2)),
        ],
    )
}

/// The fields of an answer. Providers look for the reasoning under one of two
/// names, so it stands under both.
pub open spec fn assistant_fields(
    content: Seq<char>,
    calls: Seq<(Seq<char>, Seq<char>, Seq<char>)>,
    reasoning: Option<Seq<char>>,
) -> Seq<(Seq<char>, JsonView)> {
    let base = seq![
        ("role"@, JsonView::Text("assistant"@)),
        ("content"@, JsonView::Text(content)),
    ];
    let called = if calls.len() == 0 {
        base
    } else {
        base.push(
            (
                "tool_calls"@,
                JsonView::Array(
                    calls.map_values(|c: (Seq<char>, Seq<char>, Seq<char>)| call_json(c)),
                ),
            ),
        )
    };
    match reasoning {
        Some(r) => called.push(("reasoning_content"@, JsonView::Text(r))).push(
            ("reasoning"@, JsonView::Text(r)),
        ),
        None => called,
    }
}

/// A message as it is sent.
pub open spec fn wire_of(m: OutView) -> JsonView {
    match m {
        OutView::System { content, cached } => if cached {
            cached_message(content)
        } else {
            plain_message("system"@, content)
        },
        OutView::User { content } => plain_message("user"@, content),
        OutView::Assistant { content, calls, reasoning } => JsonView::Object(
            assistant_fields(content, calls, reasoning),
        ),
        OutView::Tool { call_id, content } => JsonView::Object(
            seq![
                ("role"@, JsonView::Text("tool"@)),
                ("tool_call_id"@, JsonView::Text(call_id)),
                ("content"@, JsonView::Text(content)),
            ],
        ),
    }
}

fn plain(role: &str, content: &str) -> (r: Json)
    ensures
        r@ == plain_message(role@, content@),
{
    let b: ObjectBuilder = ObjectBuilder::new().with_text("role", role).with_text(
        "content",
        content,
    );
    assert(b.entries() =~= plain_message(role@, content@)->Object_0);
    b.build()
}

fn cached(content: &str) -> (r: Json)
    ensures
        r@ == cached_message(content@),
{
    let mark: ObjectBuilder = ObjectBuilder::new().with_text("type", "ephemeral");
    assert(mark.entries() =~= cache_mark()->Object_0);
    let part: ObjectBuilder = ObjectBuilder::new().with_text("type", "text").with_text(
        "text",
        content,
    ).with("cache_control", mark.build());
    assert(part.entries() =~= cached_part(content@)->Object_0);
    let mut parts: Vec<Json> = Vec::new();
    parts.push(part.build());
    assert(views(parts@) =~= seq![cached_part(content@)]);
    let b: ObjectBuilder = ObjectBuilder::new().with_text("role", "system").with(
        "content",
        json_array(parts),
    );
    assert(b.entries() =~= cached_message(content@)->Object_0);
    b.build()
}

fn one_call(c: &CallOut) -> (r: Json)
    ensures
        r@ == call_json((c.id@, c.name@, c.arguments@)),
{
    let f: ObjectBuilder = ObjectBuilder::new().with_text("name", c.name.as_str()).with_text(
        "arguments",
        c.arguments.as_str(),
    );
    assert(f.entries() =~= function_json(c.name@, c.arguments@)->Object_0);
    let b: ObjectBuilder = ObjectBuilder::new().with_text("id", c.id.as_str()).with_text(
        "type",
        "function",
    ).with("function", f.build());
    assert(b.entries() =~= call_json((c.id@, c.name@, c.arguments@))->Object_0);
    b.build()
}

fn all_calls(calls: &Vec<CallOut>) -> (r: Vec<Json>)
    ensures
        views(r@) == calls_view(calls@).map_values(
            |c: (Seq<char>, Seq<char>, Seq<char>)| call_json(c),
        ),
{
    let ghost all = calls_view(calls@).map_values(
        |c: (Seq<char>, Seq<char>, Seq<char>)| call_json(c),
    );
    let mut out: Vec<Json> = Vec::new();
    let mut i: usize = 0;
    while i < calls.len()
        invariant
            i <= calls@.len(),
            all == calls_view(calls@).map_values(
                |c: (Seq<char>, Seq<char>, Seq<char>)| call_json(c),
            ),
            views(out@) == all.take(i as int),
        decreases calls@.len() - i,
    {
        let ghost had = views(out@);
        out.push(one_call(&calls[i]));
        assert(views(out@) =~= had.push(all[i as int]));
        i = i + 1;
        assert(views(out@) =~= all.take(i as int));
    }
    assert(all.take(all.len() as int) =~= all);
    out
}

/// A message as it is sent.
pub fn message_json(m: &OutMessage) -> (r: Json)
    ensures
        r@ == wire_of(m@),
{
    match m {
        OutMessage::System { content, cached: hint } => if *hint {
            cached(content.as_str())
        } else {
            plain("system", content.as_str())
        },
        OutMessage::User { content } => plain("user", content.as_str()),
        OutMessage::Assistant { content, calls, reasoning } => {
            let base: ObjectBuilder = ObjectBuilder::new().with_text("role", "assistant").with_text(
                "content",
                content.as_str(),
            );
            assert(calls_view(calls@).len() == calls@.len());
            let called: ObjectBuilder = if calls.len() == 0 {
                base
            } else {
                base.with("tool_calls", json_array(all_calls(calls)))
            };
            let full: ObjectBuilder = match reasoning {
                Some(t) => called.with_text("reasoning_content", t.as_str()).with_text(
                    "reasoning",
                    t.as_str(),
                ),
                None => called,
            };
            assert(full.entries() =~= assistant_fields(
                content@,
                calls_view(calls@),
                opt_text(*reasoning),
            ));
            full.build()
        },
        OutMessage::Tool { call_id, content } => {
            let b: ObjectBuilder = ObjectBuilder::new().with_text("role", "tool").with_text(
                "tool_call_id",
                call_id.as_str(),
            ).with_text("content", content.as_str());
            assert(b.entries() =~= wire_of(m@)->Object_0);
            b.build()
        },
    }
}

/// The messages of a round as they are sent.
pub fn build_messages(builder: &MessageBuilder, input: &ContextInput) -> (r: Vec<Json>)
    ensures
        views(r@) == builder.messages(*input).map_values(|m: OutView| wire_of(m)),
{
    let messages: Vec<OutMessage> = builder.build(input);
    let ghost all = builder.messages(*input).map_values(|m: OutView| wire_of(m));
    let mut out: Vec<Json> = Vec::new();
    let mut i: usize = 0;
    assert(context::views(messages@).len() == messages@.len());
    while i < messages.len()
        invariant
            i <= messages@.len(),
            context::views(messages@) == builder.messages(*input),
            all == builder.messages(*input).map_values(|m: OutView| wire_of(m)),
            all.len() == messages@.len(),
            views(out@) == all.take(i as int),
        decreases messages@.len() - i,
    {
        let ghost had = views(out@);
        assert(context::views(messages@)[i as int] == messages@[i as int]@);
        let j: Json = message_json(&messages[i]);
        out.push(j);
        assert(views(out@) =~= had.push(all[i as int]));
        i = i + 1;
        assert(views(out@) =~= all.take(i as int));
    }
    assert(all.take(all.len() as int) =~= all);
    out
}

/// What a system message is sent as: its role and its text, or, where the text
/// is worth caching, its role and one part with the text and the mark behind
/// which a provider may cache.
pub proof fn law_system_messages_on_the_wire(m: &OutMessage, r: Json)
    requires
        call_ensures(message_json, (m,), r),
    ensures
        m@ matches OutView::System { content, cached: false } ==> r@ == JsonView::Object(
            seq![
                ("role"@, JsonView::Text("system"@)),
                ("content"@, JsonView::Text(content)),
            ],
        ),
        m@ matches OutView::System { content, cached: true } ==> r@ == JsonView::Object(
            seq![
                ("role"@, JsonView::Text("system"@)),
                (
                    "content"@,
                    JsonView::Array(
                        seq![
                            JsonView::Object(
                                seq![
                                    ("type"@, JsonView::Text("text"@)),
                                    ("text"@, JsonView::Text(content)),
                                    (
                                        "cache_control"@,
                                        JsonView::Object(
                                            seq![("type"@, JsonView::Text("ephemeral"@))],
                                        ),
                                    ),
                                ],
                            ),
                        ],
                    ),
                ),
            ],
        ),
{
}

/// What the other messages are sent as: a user's by role and text; a result by
/// role, the call it answers and text; an assistant's by role and text, with its
/// calls where it made some and its reasoning under both names where there is
/// any.
pub proof fn law_messages_on_the_wire(m: &OutMessage, r: Json, i: int)
    requires
        call_ensures(message_json, (m,), r),
    ensures
        m@ matches OutView::User { content } ==> r@ == JsonView::Object(
            seq![("role"@, JsonView::Text("user"@)), ("content"@, JsonView::Text(content))],
        ),
        m@ matches OutView::Tool { call_id, content } ==> r@ == JsonView::Object(
            seq![
                ("role"@, JsonView::Text("tool"@)),
                ("tool_call_id"@, JsonView::Text(call_id)),
                ("content"@, JsonView::Text(content)),
            ],
        ),
        m@ matches OutView::Assistant { content, calls, reasoning } ==> {
            let f = r@->Object_0;
            let n = if calls.len() == 0 {
                2int
            } else {
                3int
            };
            &&& r@ is Object
            &&& f.len() == n + if reasoning is Some {
                2int
            } else {
                0int
            }
            &&& f[0] == ("role"@, JsonView::Text("assistant"@))
            &&& f[1] == ("content"@, JsonView::Text(content))
            &&& reasoning matches Some(t) ==> f[n] == ("reasoning_content"@, JsonView::Text(t))
                && f[n + 1] == ("reasoning"@, JsonView::Text(t))
            &&& calls.len() > 0 ==> f[2].0 == "tool_calls"@ && f[2].1 is Array
                && f[2].1->Array_0.len() == calls.len()
            &&& 0 <= i < calls.len() ==> f[2].1->Array_0[i] == JsonView::Object(
                seq![
                    ("id"@, JsonView::Text(calls[i].0)),
                    ("type"@, JsonView::Text("function"@)),
                    (
                        "function"@,
                        JsonView::Object(
                            seq![
                                ("name"@, JsonView::Text(calls[i].1)),
                                ("arguments"@, JsonView::Text(calls[i].2)),
                            ],
                        ),
                    ),
                ],
            )
        },
{
}

/// All messages are sent, in their order.
pub proof fn law_all_messages_are_sent(
    b: &MessageBuilder,
    input: &ContextInput,
    r: Vec<Json>,
    built: Vec<OutMessage>,
    i: int,
    one: Json,
)
    requires
        call_ensures(build_messages, (b, input), r),
        call_ensures(MessageBuilder::build, (b, input), built),
        0 <= i < built@.len(),
        call_ensures(message_json, (&built@[i],), one),
    ensures
        r@.len() == built@.len(),
        r@[i]@ == one@,
{
    let v = views(r@);
    assert(v.len() == r@.len());
    assert(v[i] == r@[i]@);
}

} // verus!
