//! Messages of a conversation.
use vstd::prelude::*;

use crate::text::{lemma_filter_last, str_eq};

verus! {

broadcast use vstd::seq_lib::group_seq_properties;

/// Who a message is from.
#[derive(Debug, Clone, Copy, PartialEq, Eq, Structural)]
pub enum Role {
    User,
    Assistant,
    /// The message by which an agent invokes a sub-agent; the model sees it as
    /// a user message, the user does not see it.
    Agent,
}

impl Role {
    pub open spec fn name(self) -> Seq<char> {
        match self {
            Role::User => "user"@,
            Role::Assistant => "assistant"@,
            Role::Agent => "agent"@,
        }
    }

    pub fn as_str(&self) -> (r: &'static str)
        ensures
            r@ == self.name(),
    {
        match self {
            Role::User => "user",
            Role::Assistant => "assistant",
            Role::Agent => "agent",
        }
    }

    /// The role of that name; for any other text the error that names it.
    pub fn from_str(s: &str) -> (r: Result<Role, String>)
        ensures
            match r {
                Ok(role) => role.name() == s@,
                Err(e) => s@ != "user"@ && s@ != "assistant"@ && s@ != "agent"@ && e@
                    == "Unknown role: "@ + s@,
            },
    {
        if str_eq(s, "user") {
            Ok(Role::User)
        } else if str_eq(s, "assistant") {
            Ok(Role::Assistant)
        } else if str_eq(s, "agent") {
            Ok(Role::Agent)
        } else {
            let mut e: String = "Unknown role: ".to_owned();
            e.append(s);
            Err(e)
        }
    }
}

/// Two roles with the same name are the same role, so reading a role's name
/// gives the role back.
pub proof fn law_role_names_differ(a: Role, b: Role)
    ensures
        a.name() == b.name() ==> a == b,
{
    reveal_strlit("user");
    reveal_strlit("assistant");
    reveal_strlit("agent");
    assert("user"@.len() == 4 && "assistant"@.len() == 9 && "agent"@.len() == 5);
}

/// A file attached to a message.
#[derive(Debug, Clone)]
pub struct Attachment {
    /// The path relative to the project root.
    pub path: String,
    pub name: String,
    pub mimetype: Option<String>,
    pub filesize: Option<u64>,
}

/// Structured data stored with a message.
#[derive(Debug, Clone)]
pub struct MessageMetadata {
    pub attachments: Vec<Attachment>,
}

impl MessageMetadata {
    pub fn is_empty(&self) -> (r: bool)
        ensures
            r == (self.attachments@.len() == 0),
    {
        self.attachments.len() == 0
    }
}

/// One message of a conversation.
#[derive(Debug, Clone)]
pub struct ChatMessage {
    pub id: i64,
    pub role: Role,
    pub content: String,
    pub status: String,
    pub input_tokens: Option<i64>,
    pub output_tokens: Option<i64>,
    /// True for messages that no user typed, such as notifications.
    pub is_synthetic: bool,
    /// The chain of thought of a reasoning model.
    pub reasoning_content: Option<String>,
    pub metadata: Option<MessageMetadata>,
    pub created_at: Option<String>,
}

/// The metadata to store with a message: empty metadata is stored as none.
pub fn stored_metadata(metadata: Option<&MessageMetadata>) -> (r: Option<&MessageMetadata>)
    ensures
        match metadata {
            Some(m) => r == if m.attachments@.len() == 0 {
                None
            } else {
                Some(m)
            },
            None => r is None,
        },
{
    match metadata {
        Some(m) => if m.is_empty() {
            None
        } else {
            Some(m)
        },
        None => None,
    }
}

/// A rough token count for a conversation of that many characters: a quarter
/// of them, in the width of a token count.
pub fn estimate_tokens(total_chars: i64) -> (r: u32)
    ensures
        total_chars < 0 ==> r == 0,
        total_chars >= 0 ==> r == (total_chars / 4) % 0x1_0000_0000,
{
    if total_chars < 0 {
        0
    } else {
        ((total_chars / 4) % 0x1_0000_0000) as u32
    }
}

/// A row of the history, with its metadata where that could be read.
#[derive(Debug)]
pub struct MessageRow {
    pub id: i64,
    pub role: String,
    pub content: String,
    pub status: String,
    pub input_tokens: Option<i64>,
    pub output_tokens: Option<i64>,
    pub is_synthetic: bool,
    pub reasoning_content: Option<String>,
    pub metadata: Option<MessageMetadata>,
    pub created_at: Option<String>,
}

/// A message from its row; an error where the row's role is unknown.
pub fn row_to_message(r: MessageRow) -> (m: Result<ChatMessage, String>)
    ensures
        match m {
            Ok(m) => {
                &&& m.role.name() == r.role@
                &&& m == (ChatMessage {
                    id: r.id,
                    role: m.role,
                    content: r.content,
                    status: r.status,
                    input_tokens: r.input_tokens,
                    output_tokens: r.output_tokens,
                    is_synthetic: r.is_synthetic,
                    reasoning_content: r.reasoning_content,
                    metadata: r.metadata,
                    created_at: r.created_at,
                })
            },
            Err(e) => {
                &&& r.role@ != "user"@ && r.role@ != "assistant"@ && r.role@ != "agent"@
                &&& e@ == "Unknown role: "@ + r.role@
            },
        },
{
    match Role::from_str(r.role.as_str()) {
        Ok(role) => Ok(
            ChatMessage {
                id: r.id,
                role,
                content: r.content,
                status: r.status,
                input_tokens: r.input_tokens,
                output_tokens: r.output_tokens,
                is_synthetic: r.is_synthetic,
                reasoning_content: r.reasoning_content,
                metadata: r.metadata,
                created_at: r.created_at,
            },
        ),
        Err(e) => Err(e),
    }
}

/// Which messages the model sees: those that did not fail, behind a boundary
/// where there is one.
pub open spec fn is_ok_after(after_id: Option<i64>) -> spec_fn(ChatMessage) -> bool {
    |m: ChatMessage|
        m.status@ == "ok"@ && match after_id {
            Some(id) => m.id > id,
            None => true,
        }
}

fn keep_ok(all: Vec<ChatMessage>, after_id: Option<i64>) -> (r: Vec<ChatMessage>)
    ensures
        r@ == all@.filter(is_ok_after(after_id)),
{
    let ghost messages = all@;
    let ghost pred = is_ok_after(after_id);
    let mut rest: Vec<ChatMessage> = all;
    let mut out: Vec<ChatMessage> = Vec::new();
    let ghost mut n: int = 0;
    assert(messages.skip(0) =~= messages);
    assert(out@ =~= messages.take(0).filter(pred)) by {
        reveal(Seq::filter);
    }
    while rest.len() > 0
        invariant
            0 <= n <= messages.len(),
            rest@ == messages.skip(n),
            pred == is_ok_after(after_id),
            out@ == messages.take(n).filter(pred),
        decreases rest@.len(),
    {
        let m: ChatMessage = rest.remove(0);
        proof {
            assert(m == messages[n]);
            assert(messages.skip(n).remove(0) =~= messages.skip(n + 1));
            assert(messages.take(n + 1).drop_last() =~= messages.take(n));
            lemma_filter_last(messages.take(n + 1), pred);
            n = n + 1;
        }
        let behind: bool = match after_id {
            Some(id) => m.id > id,
            None => true,
        };
        if behind && str_eq(m.status.as_str(), "ok") {
            out.push(m);
        }
    }
    assert(messages.take(n) =~= messages);
    out
}

/// The messages of a frame that the model sees, of all of its messages.
pub fn for_stack(all: Vec<ChatMessage>) -> (r: Vec<ChatMessage>)
    ensures
        r@ == all@.filter(is_ok_after(None)),
{
    keep_ok(all, None)
}

/// The messages of a frame that the model sees behind those that were
/// summarised.
pub fn for_stack_since(all: Vec<ChatMessage>, after_id: i64) -> (r: Vec<ChatMessage>)
    ensures
        r@ == all@.filter(is_ok_after(Some(after_id))),
{
    keep_ok(all, Some(after_id))
}

/// The last message of a frame that the model sees.
pub fn last_message_for_stack(all: Vec<ChatMessage>) -> (r: Option<ChatMessage>)
    ensures
        ({
            let seen = all@.filter(is_ok_after(None));
            if seen.len() == 0 {
                r is None
            } else {
                r == Some(seen.last())
            }
        }),
{
    let mut seen: Vec<ChatMessage> = keep_ok(all, None);
    seen.pop()
}

/// What is seen behind a boundary and what is seen up to it are, together,
/// what is seen, in order of time.
pub proof fn law_boundary_splits_the_history(all: Seq<ChatMessage>, k: int, after_id: i64)
    requires
        0 <= k <= all.len(),
        forall|i: int| 0 <= i < k ==> (#[trigger] all[i]).id <= after_id,
        forall|i: int| k <= i < all.len() ==> (#[trigger] all[i]).id > after_id,
    ensures
        all.filter(is_ok_after(Some(after_id))) == all.skip(k).filter(is_ok_after(None)),
        all.filter(is_ok_after(None)) == all.take(k).filter(is_ok_after(None)) + all.filter(
            is_ok_after(Some(after_id)),
        ),
    decreases all.len(),
{
    reveal(Seq::filter);
    let bounded = is_ok_after(Some(after_id));
    let free = is_ok_after(None);
    if all.len() == 0 {
        assert(all.skip(k) =~= all);
        assert(all.take(k) =~= all);
    } else if k < all.len() {
        let init = all.drop_last();
        assert forall|i: int| 0 <= i < k implies (#[trigger] init[i]).id <= after_id by {
            assert(all[i].id <= after_id);
        }
        assert forall|i: int| k <= i < init.len() implies (#[trigger] init[i]).id > after_id by {
            assert(all[i].id > after_id);
        }
        law_boundary_splits_the_history(init, k, after_id);
        assert(all.skip(k).drop_last() =~= init.skip(k));
        assert(all.take(k) =~= init.take(k));
        assert(all[all.len() - 1].id > after_id);
        assert(bounded(all.last()) == free(all.last()));
        assert(all.filter(free) =~= all.take(k).filter(free) + all.filter(bounded));
    } else {
        lemma_none_behind(all, after_id);
        assert(all.skip(k) =~= Seq::<ChatMessage>::empty());
        assert(all.skip(k).filter(free) =~= Seq::<ChatMessage>::empty());
        assert(all.take(k) =~= all);
        assert(all.filter(free) + Seq::<ChatMessage>::empty() =~= all.filter(free));
    }
}

proof fn lemma_none_behind(all: Seq<ChatMessage>, after_id: i64)
    requires
        forall|i: int| 0 <= i < all.len() ==> (#[trigger] all[i]).id <= after_id,
    ensures
        all.filter(is_ok_after(Some(after_id))) == Seq::<ChatMessage>::empty(),
    decreases all.len(),
{
    reveal(Seq::filter);
    if all.len() > 0 {
        assert(all[all.len() - 1].id <= after_id);
        lemma_none_behind(all.drop_last(), after_id);
    } else {
        assert(all.filter(is_ok_after(Some(after_id))) =~= Seq::<ChatMessage>::empty());
    }
}

/// The roles by their names, in both directions; no other name is a role.
pub proof fn law_role_names(role: Role, name: &'static str, s: &str, r: Result<Role, String>)
    requires
        call_ensures(Role::as_str, (&role,), name),
        call_ensures(Role::from_str, (s,), r),
    ensures
        name@ == match role {
            Role::User => "user"@,
            Role::Assistant => "assistant"@,
            Role::Agent => "agent"@,
        },
        r is Ok <==> s@ == "user"@ || s@ == "assistant"@ || s@ == "agent"@,
        r matches Ok(q) ==> match q {
            Role::User => s@ == "user"@,
            Role::Assistant => s@ == "assistant"@,
            Role::Agent => s@ == "agent"@,
        },
        r matches Err(e) ==> e@ == "Unknown role: "@ + s@,
{
}

/// Which messages of a conversation count: those that went well, and where a
/// boundary is given only those behind it, in their order.
pub proof fn law_messages_that_count(
    all: Vec<ChatMessage>,
    more: Vec<ChatMessage>,
    m: ChatMessage,
    after_id: i64,
    r: Vec<ChatMessage>,
    s: Vec<ChatMessage>,
    since: Vec<ChatMessage>,
    more_since: Vec<ChatMessage>,
    last: Option<ChatMessage>,
)
    requires
        call_ensures(for_stack, (all,), r),
        call_ensures(for_stack, (more,), s),
        call_ensures(for_stack_since, (all, after_id), since),
        call_ensures(for_stack_since, (more, after_id), more_since),
        call_ensures(last_message_for_stack, (more,), last),
        more@ == all@.push(m),
    ensures
        all@.len() == 0 ==> r@.len() == 0 && since@.len() == 0,
        s@ == if m.status@ == "ok"@ {
            r@.push(m)
        } else {
            r@
        },
        more_since@ == if m.status@ == "ok"@ && m.id > after_id {
            since@.push(m)
        } else {
            since@
        },
        m.status@ == "ok"@ ==> last == Some(m),
        s@.len() == 0 <==> last is None,
        s@.len() > 0 ==> last == Some(s@.last()),
{
    assert(more@.drop_last() =~= all@);
    lemma_filter_last(more@, is_ok_after(None));
    lemma_filter_last(more@, is_ok_after(Some(after_id)));
    if all@.len() == 0 {
        reveal(Seq::filter);
    }
}

/// A text is estimated at a token for every four characters.
pub proof fn law_estimated_tokens(chars: i64, r: u32)
    requires
        call_ensures(estimate_tokens, (chars,), r),
        chars < 0x4_0000_0000,
    ensures
        chars < 0 ==> r == 0,
        chars >= 0 ==> r * 4 <= chars && chars < r * 4 + 4,
{
}

/// What a stored message is read as: its role by name, and all else as stored.
pub proof fn law_stored_messages(row: MessageRow, m: Result<ChatMessage, String>, name: &str, role: Result<Role, String>)
    requires
        call_ensures(row_to_message, (row,), m),
        call_ensures(Role::from_str, (name,), role),
        name@ == row.role@,
    ensures
        m is Ok <==> role is Ok,
        m matches Err(e) ==> e@ == role->Err_0@,
        m matches Ok(c) ==> c.role == role->Ok_0 && c.id == row.id && c.content@ == row.content@
            && c.status@ == row.status@ && c.input_tokens == row.input_tokens && c.output_tokens
            == row.output_tokens && c.is_synthetic == row.is_synthetic && c.reasoning_content
            == row.reasoning_content && c.metadata == row.metadata && c.created_at
            == row.created_at,
{
    if m is Ok && role is Ok {
        law_role_names_differ(m->Ok_0.role, role->Ok_0);
    }
}

/// Only metadata with attachments is stored.
pub proof fn law_stored_metadata(m: Option<&MessageMetadata>, r: Option<&MessageMetadata>, meta: &MessageMetadata, empty: bool)
    requires
        call_ensures(stored_metadata, (m,), r),
        call_ensures(MessageMetadata::is_empty, (meta,), empty),
    ensures
        r is Some <==> m is Some && m->Some_0.attachments@.len() > 0,
        r is Some ==> r == m,
        empty <==> meta.attachments@.len() == 0,
{
}

} // verus!
