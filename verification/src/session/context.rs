//! The messages sent to the model in one round.
//!
//! Their order serves prefix caching: what never changes comes first, then
//! the scratchpad, the summary of what was compacted, the conversation, and
//! last what changes with every turn.
use vstd::prelude::*;

use crate::db::chat_history::Role;
use crate::numerals::{decimal, i64_text};
use crate::session::summary::{arguments_of, summarize_tool_result, summary_of};
use crate::text::{opt_text, replaced, str_eq};

verus! {

/// A tool call as stored.
#[derive(Debug)]
pub struct ToolRow {
    pub id: i64,
    pub name: String,
    pub arguments: Option<String>,
    pub status: String,
    pub result: Option<String>,
}

/// A message of the conversation as stored, with its tool calls.
#[derive(Debug)]
pub struct HistoryEntry {
    pub role: Role,
    pub content: String,
    /// The block that describes the attachments, where there are any.
    pub attachments: Option<String>,
    pub reasoning: Option<String>,
    pub calls: Vec<ToolRow>,
}

/// A tool call as the model sees it.
#[derive(Debug)]
pub struct CallOut {
    pub id: String,
    pub name: String,
    pub arguments: String,
}

/// A message as the model sees it.
#[derive(Debug)]
pub enum OutMessage {
    /// `cached` marks the end of the prefix that is worth caching.
    System { content: String, cached: bool },
    User { content: String },
    Assistant { content: String, calls: Vec<CallOut>, reasoning: Option<String> },
    Tool { call_id: String, content: String },
}

/// What a message holds.
pub enum OutView {
    System { content: Seq<char>, cached: bool },
    User { content: Seq<char> },
    Assistant {
        content: Seq<char>,
        calls: Seq<(Seq<char>, Seq<char>, Seq<char>)>,
        reasoning: Option<Seq<char>>,
    },
    Tool { call_id: Seq<char>, content: Seq<char> },
}

pub open spec fn calls_view(calls: Seq<CallOut>) -> Seq<(Seq<char>, Seq<char>, Seq<char>)> {
    calls.map_values(|c: CallOut| (c.id@, c.name@, c.arguments@))
}

impl View for OutMessage {
    type V = OutView;

    open spec fn view(&self) -> OutView {
        match self {
            OutMessage::System { content, cached } => OutView::System {
                content: content@,
                cached: *cached,
            },
            OutMessage::User { content } => OutView::User { content: content@ },
            OutMessage::Assistant { content, calls, reasoning } => OutView::Assistant {
                content: content@,
                calls: calls_view(calls@),
                reasoning: opt_text(*reasoning),
            },
            OutMessage::Tool { call_id, content } => OutView::Tool {
                call_id: call_id@,
                content: content@,
            },
        }
    }
}

pub open spec fn views(v: Seq<OutMessage>) -> Seq<OutView> {
    v.map_values(|m: OutMessage| m@)
}

/// The name under which the model knows a tool call.
pub open spec fn call_name(id: i64) -> Seq<char> {
    "tc_"@ + decimal(id as int)
}

/// What a stored tool call returned, as the model is told.
pub open spec fn result_of(row: ToolRow) -> Seq<char> {
    let given = opt_text(row.result);
    if row.status@ == "done"@ {
        match given {
            Some(t) => t,
            None => Seq::empty(),
        }
    } else if row.status@ == "failed"@ {
        "Error: "@ + match given {
            Some(t) => t,
            None => "unknown error"@,
        }
    } else if row.status@ == "rejected"@ {
        match given {
            Some(t) => t,
            None => "User rejected this tool call."@,
        }
    } else if row.status@ == "cancelled"@ {
        match given {
            Some(t) => t,
            None => "Tool call was cancelled by the user."@,
        }
    } else {
        "Error: tool call was interrupted (connection lost before user approval). Please retry the operation."@
    }
}

/// Whether a result is replaced by its summary: where it belongs to an
/// earlier turn and has more characters than the limit.
pub open spec fn is_hidden(row: ToolRow, previous_turn: bool, limit: Option<usize>) -> bool {
    previous_turn && match limit {
        Some(n) => result_of(row).len() > n,
        None => false,
    }
}

/// What the model sees of a stored tool call's result.
pub open spec fn shown_result(row: ToolRow, previous_turn: bool, limit: Option<usize>) -> Seq<char> {
    if is_hidden(row, previous_turn, limit) {
        summary_of(
            row.name@,
            arguments_of(opt_text(row.arguments)),
            result_of(row),
            crate::json::parsed_json(result_of(row)),
        )
    } else {
        result_of(row)
    }
}

/// The text of a user message, with the block on its attachments behind it.
pub open spec fn user_text(e: HistoryEntry) -> Seq<char> {
    match e.attachments {
        Some(block) => e.content@ + block@,
        None => e.content@,
    }
}

/// The tool calls of a stored message as the model sees them.
pub open spec fn calls_of(rows: Seq<ToolRow>) -> Seq<(Seq<char>, Seq<char>, Seq<char>)> {
    rows.map_values(
        |r: ToolRow|
            (
                call_name(r.id),
                r.name@,
                match r.arguments {
                    Some(a) => a@,
                    None => "{}"@,
                },
            ),
    )
}

/// The results of a stored message's tool calls.
pub open spec fn results_of(rows: Seq<ToolRow>, previous_turn: bool, limit: Option<usize>) -> Seq<OutView> {
    rows.map_values(
        |r: ToolRow|
            OutView::Tool {
                call_id: call_name(r.id),
                content: shown_result(r, previous_turn, limit),
            },
    )
}

/// The messages with one entry of the conversation added. A user message that
/// follows another is joined to it, so that the model sees one user turn.
pub open spec fn with_entry(
    out: Seq<OutView>,
    e: HistoryEntry,
    previous_turn: bool,
    limit: Option<usize>,
) -> Seq<OutView> {
    if e.role == Role::Assistant {
        out.push(
            OutView::Assistant {
                content: e.content@,
                calls: calls_of(e.calls@),
                reasoning: opt_text(e.reasoning),
            },
        ) + results_of(e.calls@, previous_turn, limit)
    } else if out.len() > 0 && out.last() is User {
        out.drop_last().push(
            OutView::User { content: out.last()->User_content + "\n\n"@ + user_text(e) },
        )
    } else {
        out.push(OutView::User { content: user_text(e) })
    }
}

/// The messages with the first `n` entries of the conversation added.
/// `boundary` is where the current turn begins.
pub open spec fn with_entries(
    out: Seq<OutView>,
    entries: Seq<HistoryEntry>,
    n: int,
    boundary: Option<int>,
    limit: Option<usize>,
) -> Seq<OutView>
    decreases n,
{
    if n <= 0 {
        out
    } else {
        with_entry(
            with_entries(out, entries, n - 1, boundary, limit),
            entries[n - 1],
            is_before(boundary, n - 1),
            limit,
        )
    }
}

/// Whether an entry stands before the current turn.
pub open spec fn is_before(boundary: Option<int>, i: int) -> bool {
    match boundary {
        Some(b) => i < b,
        None => false,
    }
}

/// Whether a message is from a user or a calling agent.
pub open spec fn asks(e: HistoryEntry) -> bool {
    e.role == Role::User || e.role == Role::Agent
}

/// The position of the last message from a user or a calling agent: there the
/// current turn begins.
pub open spec fn turn_boundary(entries: Seq<HistoryEntry>) -> Option<int>
    decreases entries.len(),
{
    if entries.len() == 0 {
        None
    } else if asks(entries.last()) {
        Some(entries.len() - 1)
    } else {
        turn_boundary(entries.drop_last())
    }
}

/// How many messages are left out at the start of a conversation that is not
/// compacted: all beyond the limit, and one more where an answer would come
/// first.
pub open spec fn trimmed_count(entries: Seq<HistoryEntry>, compacted: bool, max: usize) -> int {
    if !compacted && entries.len() > max {
        let cut = entries.len() - max;
        if cut < entries.len() && entries[cut].role == Role::Assistant {
            cut + 1
        } else {
            cut
        }
    } else {
        0
    }
}

/// The part of the conversation that is sent.
pub open spec fn kept(entries: Seq<HistoryEntry>, compacted: bool, max: usize) -> Seq<HistoryEntry> {
    entries.skip(trimmed_count(entries, compacted, max))
}

/// The notes of the scratchpad, one line each.
pub open spec fn note_lines(notes: Seq<(String, String)>) -> Seq<char>
    decreases notes.len(),
{
    if notes.len() == 0 {
        Seq::empty()
    } else {
        note_lines(notes.drop_last()) + ("  <note key=\""@ + notes.last().0@ + "\">"@
            + notes.last().1@ + "</note>\n"@)
    }
}

/// The scratchpad as the model sees it.
pub open spec fn scratchpad_text(notes: Seq<(String, String)>) -> Seq<char> {
    "<scratchpad>\n  <!-- Temporary notes shared by all agents in this session. Not persisted across sessions. -->\n"@
        + note_lines(notes) + "</scratchpad>"@
}

/// The summary of what was compacted, as the model sees it.
pub open spec fn summary_text(prefix: Seq<char>, content: Seq<char>) -> Seq<char> {
    prefix + "\n\n"@ + content
        + "\n\n[End of context summary — the following messages are the most recent exchanges in full.]"@
}

/// The dynamic tail: the caller's context and the line on date and place.
pub open spec fn tail_text(context: Option<Seq<char>>, datetime: Option<Seq<char>>) -> Option<Seq<char>> {
    match (context, datetime) {
        (Some(c), Some(d)) => Some(c + "\n\n---\n"@ + d),
        (Some(c), None) => Some(c),
        (None, Some(d)) => Some(d),
        (None, None) => None,
    }
}

/// One system message, where there is something to say.
pub open spec fn system_if(content: Option<Seq<char>>) -> Seq<OutView> {
    match content {
        Some(c) => seq![OutView::System { content: c, cached: false }],
        None => Seq::empty(),
    }
}

/// What goes into the messages of a round.
pub struct ContextInput {
    /// The system prompt with everything static in it.
    pub static_content: String,
    /// Whether the model takes hints on what to cache.
    pub cache_hints: bool,
    pub scratchpad: Vec<(String, String)>,
    /// The words that introduce a summary.
    pub summary_prefix: String,
    /// The summary of what was compacted.
    pub summary: Option<String>,
    /// The conversation, from behind what the summary covers.
    pub history: Vec<HistoryEntry>,
    pub extra_system_dynamic: Option<String>,
    pub datetime_line: Option<String>,
    pub tail_reminder: Option<String>,
}

/// Builds the messages of a round.
pub struct MessageBuilder {
    pub max_history_messages: usize,
    /// The number of characters beyond which results of earlier turns are
    /// replaced by a summary.
    pub max_tool_result_chars: Option<usize>,
    /// Whether old messages are compacted; where they are not, they are left
    /// out beyond the limit.
    pub compacted: bool,
}

/// What comes before the conversation.
pub open spec fn opening(input: ContextInput) -> Seq<OutView> {
    seq![OutView::System { content: input.static_content@, cached: input.cache_hints }] + system_if(
        if input.scratchpad@.len() > 0 {
            Some(scratchpad_text(input.scratchpad@))
        } else {
            None
        },
    ) + system_if(
        match input.summary {
            Some(s) => Some(summary_text(input.summary_prefix@, s@)),
            None => None,
        },
    )
}

/// What comes behind the conversation.
pub open spec fn closing(input: ContextInput) -> Seq<OutView> {
    system_if(
        tail_text(opt_text(input.extra_system_dynamic), opt_text(input.datetime_line)),
    ) + system_if(opt_text(input.tail_reminder))
}

impl MessageBuilder {
    /// The conversation as it is sent.
    pub open spec fn conversation(&self, input: ContextInput) -> Seq<HistoryEntry> {
        kept(input.history@, self.compacted, self.max_history_messages)
    }

    /// The messages of a round.
    pub open spec fn messages(&self, input: ContextInput) -> Seq<OutView> {
        let entries = self.conversation(input);
        with_entries(
            opening(input),
            entries,
            entries.len() as int,
            turn_boundary(entries),
            self.max_tool_result_chars,
        ) + closing(input)
    }

    /// Builds the messages of a round.
    pub fn build(&self, input: &ContextInput) -> (r: Vec<OutMessage>)
        ensures
            views(r@) == self.messages(*input),
    {
        let mut out: Vec<OutMessage> = open_messages(input);
        let from: usize = self.first_kept(&input.history);
        let ghost entries = self.conversation(*input);
        let total: usize = input.history.len();
        let n: usize = total - from;
        let boundary: Option<usize> = find_boundary(&input.history, from);
        let ghost bound = turn_boundary(entries);
        let limit: Option<usize> = self.max_tool_result_chars;
        let mut i: usize = 0;
        while i < n
            invariant
                total == input.history@.len(),
                from + n == total,
                n == entries.len(),
                i <= n,
                entries == input.history@.skip(from as int),
                entries == self.conversation(*input),
                bound == turn_boundary(entries),
                limit == self.max_tool_result_chars,
                match boundary {
                    Some(b) => bound == Some(b as int),
                    None => bound is None,
                },
                views(out@) == with_entries(opening(*input), entries, i as int, bound, limit),
            decreases n - i,
        {
            let previous: bool = match boundary {
                Some(b) => i < b,
                None => false,
            };
            assert(entries[i as int] == input.history@[from + i]);
            add_entry(&mut out, &input.history[from + i], previous, limit);
            assert(with_entries(opening(*input), entries, i + 1, bound, limit) == with_entry(
                with_entries(opening(*input), entries, i as int, bound, limit),
                entries[i as int],
                is_before(bound, i as int),
                limit,
            ));
            i = i + 1;
        }
        close_messages(&mut out, input);
        out
    }

    fn first_kept(&self, history: &Vec<HistoryEntry>) -> (r: usize)
        ensures
            r == trimmed_count(history@, self.compacted, self.max_history_messages),
            r <= history@.len(),
    {
        let n: usize = history.len();
        if !self.compacted && n > self.max_history_messages {
            let cut: usize = n - self.max_history_messages;
            if cut < n && history[cut].role == Role::Assistant {
                cut + 1
            } else {
                cut
            }
        } else {
            0
        }
    }
}

/// Where the current turn begins, counted from `from` on.
fn find_boundary(history: &Vec<HistoryEntry>, from: usize) -> (r: Option<usize>)
    requires
        from <= history@.len(),
    ensures
        match r {
            Some(b) => turn_boundary(history@.skip(from as int)) == Some(b as int),
            None => turn_boundary(history@.skip(from as int)) is None,
        },
{
    let ghost entries = history@.skip(from as int);
    let total: usize = history.len();
    let mut i: usize = total - from;
    assert(entries.take(i as int) =~= entries);
    while i > 0
        invariant
            total == history@.len(),
            from + i <= total,
            entries == history@.skip(from as int),
            turn_boundary(entries) == turn_boundary(entries.take(i as int)),
        decreases i,
    {
        i = i - 1;
        assert(entries.take(i + 1).drop_last() =~= entries.take(i as int));
        assert(entries[i as int] == history@[from + i]);
        let role: Role = history[from + i].role;
        if role == Role::User || role == Role::Agent {
            return Some(i);
        }
    }
    None
}

fn push_system(out: &mut Vec<OutMessage>, content: Option<String>)
    ensures
        views(final(out)@) == views(old(out)@) + system_if(opt_text(content)),
{
    let ghost had = views(out@);
    match content {
        Some(c) => {
            out.push(OutMessage::System { content: c, cached: false });
            assert(views(out@) =~= had + system_if(Some(c@)));
        },
        None => {
            assert(views(out@) =~= had + system_if(None));
        },
    }
}

/// The scratchpad as the model sees it.
pub fn render_scratchpad(notes: &Vec<(String, String)>) -> (r: String)
    ensures
        r@ == scratchpad_text(notes@),
{
    let mut lines: String = String::new();
    let mut i: usize = 0;
    assert(lines@ =~= note_lines(notes@.take(0)));
    while i < notes.len()
        invariant
            i <= notes@.len(),
            lines@ == note_lines(notes@.take(i as int)),
        decreases notes@.len() - i,
    {
        assert(notes@.take(i + 1).drop_last() =~= notes@.take(i as int));
        let mut line: String = "  <note key=\"".to_owned();
        line.append(notes[i].0.as_str());
        line.append("\">");
        line.append(notes[i].1.as_str());
        line.append("</note>\n");
        lines.append(line.as_str());
        i = i + 1;
    }
    assert(notes@.take(notes@.len() as int) =~= notes@);
    let mut out: String =
        "<scratchpad>\n  <!-- Temporary notes shared by all agents in this session. Not persisted across sessions. -->\n".to_owned();
    out.append(lines.as_str());
    out.append("</scratchpad>");
    out
}

fn open_messages(input: &ContextInput) -> (r: Vec<OutMessage>)
    ensures
        views(r@) == opening(*input),
{
    let mut out: Vec<OutMessage> = Vec::new();
    out.push(
        OutMessage::System { content: input.static_content.clone(), cached: input.cache_hints },
    );
    assert(views(out@) =~= seq![
        OutView::System { content: input.static_content@, cached: input.cache_hints },
    ]);
    let scratch: Option<String> = if input.scratchpad.len() > 0 {
        Some(render_scratchpad(&input.scratchpad))
    } else {
        None
    };
    push_system(&mut out, scratch);
    let summary: Option<String> = match &input.summary {
        Some(s) => {
            let mut t: String = input.summary_prefix.clone();
            t.append("\n\n");
            t.append(s.as_str());
            t.append(
                "\n\n[End of context summary — the following messages are the most recent exchanges in full.]",
            );
            Some(t)
        },
        None => None,
    };
    push_system(&mut out, summary);
    out
}

/// The caller's context and the line on date and place as one text.
pub fn dynamic_tail(context: &Option<String>, datetime: &Option<String>) -> (r: Option<String>)
    ensures
        opt_text(r) == tail_text(opt_text(*context), opt_text(*datetime)),
{
    match (context, datetime) {
        (Some(c), Some(d)) => {
            let mut t: String = c.clone();
            t.append("\n\n---\n");
            t.append(d.as_str());
            Some(t)
        },
        (Some(c), None) => Some(c.clone()),
        (None, Some(d)) => Some(d.clone()),
        (None, None) => None,
    }
}

fn close_messages(out: &mut Vec<OutMessage>, input: &ContextInput)
    ensures
        views(final(out)@) == views(old(out)@) + closing(*input),
{
    let ghost had = views(out@);
    push_system(out, dynamic_tail(&input.extra_system_dynamic, &input.datetime_line));
    let reminder: Option<String> = match &input.tail_reminder {
        Some(t) => Some(t.clone()),
        None => None,
    };
    push_system(out, reminder);
    assert(views(out@) =~= had + closing(*input));
}

/// What a stored tool call returned.
fn stored_result(row: &ToolRow) -> (r: String)
    ensures
        r@ == result_of(*row),
{
    if str_eq(row.status.as_str(), "done") {
        match &row.result {
            Some(t) => t.clone(),
            None => String::new(),
        }
    } else if str_eq(row.status.as_str(), "failed") {
        let mut out: String = "Error: ".to_owned();
        match &row.result {
            Some(t) => {
                out.append(t.as_str());
            },
            None => {
                out.append("unknown error");
            },
        }
        out
    } else if str_eq(row.status.as_str(), "rejected") {
        match &row.result {
            Some(t) => t.clone(),
            None => "User rejected this tool call.".to_owned(),
        }
    } else if str_eq(row.status.as_str(), "cancelled") {
        match &row.result {
            Some(t) => t.clone(),
            None => "Tool call was cancelled by the user.".to_owned(),
        }
    } else {
        "Error: tool call was interrupted (connection lost before user approval). Please retry the operation.".to_owned()
    }
}

/// The result as it is, or its summary where it belongs to an earlier turn
/// and is longer than the limit.
pub fn maybe_hide_tool_result(row: &ToolRow, previous_turn: bool, limit: Option<usize>) -> (r: String)
    ensures
        r@ == shown_result(*row, previous_turn, limit),
        is_hidden(*row, previous_turn, limit) ==> forall|i: int|
            0 <= i < r@.len() ==> r@[i] != '\n',
{
    let result: String = stored_result(row);
    if !previous_turn {
        return result;
    }
    match limit {
        None => result,
        Some(n) => if result.as_str().unicode_len() <= n {
            result
        } else {
            match &row.arguments {
                Some(a) => summarize_tool_result(row.name.as_str(), Some(a.as_str()), result.as_str()),
                None => summarize_tool_result(row.name.as_str(), None, result.as_str()),
            }
        },
    }
}

fn call_id_text(id: i64) -> (r: String)
    ensures
        r@ == call_name(id),
{
    let mut out: String = "tc_".to_owned();
    let n: String = i64_text(id);
    out.append(n.as_str());
    out
}

fn call_list(rows: &Vec<ToolRow>) -> (r: Vec<CallOut>)
    ensures
        calls_view(r@) == calls_of(rows@),
{
    let mut out: Vec<CallOut> = Vec::new();
    let mut i: usize = 0;
    assert(calls_view(out@) =~= calls_of(rows@.take(0)));
    while i < rows.len()
        invariant
            i <= rows@.len(),
            calls_view(out@) == calls_of(rows@.take(i as int)),
        decreases rows@.len() - i,
    {
        let ghost had = calls_view(out@);
        let arguments: String = match &rows[i].arguments {
            Some(a) => a.clone(),
            None => "{}".to_owned(),
        };
        out.push(
            CallOut { id: call_id_text(rows[i].id), name: rows[i].name.clone(), arguments },
        );
        assert(calls_view(out@) =~= had.push(calls_of(rows@)[i as int]));
        i = i + 1;
        assert(calls_view(out@) =~= calls_of(rows@.take(i as int)));
    }
    assert(rows@.take(rows@.len() as int) =~= rows@);
    out
}

/// Adds one entry of the conversation.
fn add_entry(out: &mut Vec<OutMessage>, e: &HistoryEntry, previous_turn: bool, limit: Option<usize>)
    ensures
        views(final(out)@) == with_entry(views(old(out)@), *e, previous_turn, limit),
{
    let ghost had = views(out@);
    if e.role == Role::Assistant {
        let reasoning: Option<String> = match &e.reasoning {
            Some(t) => Some(t.clone()),
            None => None,
        };
        out.push(
            OutMessage::Assistant {
                content: e.content.clone(),
                calls: call_list(&e.calls),
                reasoning,
            },
        );
        let ghost answer = OutView::Assistant {
            content: e.content@,
            calls: calls_of(e.calls@),
            reasoning: opt_text(e.reasoning),
        };
        assert(views(out@) =~= had.push(answer));
        let ghost results = results_of(e.calls@, previous_turn, limit);
        let mut i: usize = 0;
        assert(views(out@) =~= had.push(answer) + results.take(0));
        while i < e.calls.len()
            invariant
                i <= e.calls@.len(),
                e.role == Role::Assistant,
                results == results_of(e.calls@, previous_turn, limit),
                views(out@) == had.push(answer) + results.take(i as int),
            decreases e.calls@.len() - i,
        {
            let content: String = maybe_hide_tool_result(&e.calls[i], previous_turn, limit);
            let ghost before = views(out@);
            out.push(OutMessage::Tool { call_id: call_id_text(e.calls[i].id), content });
            assert(views(out@) =~= before.push(results[i as int]));
            i = i + 1;
            assert(views(out@) =~= had.push(answer) + results.take(i as int));
        }
        assert(results.take(e.calls@.len() as int) =~= results);
        return;
    }
    let mut text: String = e.content.clone();
    match &e.attachments {
        Some(block) => {
            text.append(block.as_str());
        },
        None => {},
    }
    match out.pop() {
        None => {
            assert(had =~= Seq::<OutView>::empty());
            out.push(OutMessage::User { content: text });
            assert(views(out@) =~= had.push(OutView::User { content: text@ }));
        },
        Some(last) => {
            assert(views(out@) =~= had.drop_last());
            assert(had.last() == last@);
            match last {
                OutMessage::User { content } => {
                    let mut joined: String = content;
                    joined.append("\n\n");
                    joined.append(text.as_str());
                    out.push(OutMessage::User { content: joined });
                    assert(views(out@) =~= had.drop_last().push(
                        OutView::User { content: joined@ },
                    ));
                },
                other => {
                    out.push(other);
                    assert(views(out@) =~= had);
                    out.push(OutMessage::User { content: text });
                    assert(views(out@) =~= had.push(OutView::User { content: text@ }));
                },
            }
        },
    }
}

/// Whether no two user messages stand next to each other.
pub open spec fn users_apart(out: Seq<OutView>) -> bool {
    forall|i: int| 0 <= i && i + 1 < out.len() ==> !(out[i] is User && #[trigger] out[i + 1] is User)
}

proof fn lemma_entry_keeps_users_apart(
    out: Seq<OutView>,
    e: HistoryEntry,
    previous_turn: bool,
    limit: Option<usize>,
)
    requires
        users_apart(out),
    ensures
        users_apart(with_entry(out, e, previous_turn, limit)),
{
    let after = with_entry(out, e, previous_turn, limit);
    if e.role == Role::Assistant {
        let results = results_of(e.calls@, previous_turn, limit);
        assert forall|i: int| 0 <= i && i + 1 < after.len() implies !(after[i] is User
            && #[trigger] after[i + 1] is User) by {
            if i + 1 < out.len() {
                assert(after[i] == out[i] && after[i + 1] == out[i + 1]);
            } else if i + 1 > out.len() {
                assert(after[i + 1] == results[i + 1 - (out.len() + 1)]);
            }
        }
    } else if out.len() > 0 && out.last() is User {
        assert forall|i: int| 0 <= i && i + 1 < after.len() implies !(after[i] is User
            && #[trigger] after[i + 1] is User) by {
            assert(!(out[i] is User && out[i + 1] is User));
        }
    } else {
        assert forall|i: int| 0 <= i && i + 1 < after.len() implies !(after[i] is User
            && #[trigger] after[i + 1] is User) by {
            if i + 1 < out.len() {
                assert(after[i] == out[i] && after[i + 1] == out[i + 1]);
            }
        }
    }
}

proof fn lemma_entries_keep_users_apart(
    out: Seq<OutView>,
    entries: Seq<HistoryEntry>,
    n: int,
    boundary: Option<int>,
    limit: Option<usize>,
)
    requires
        users_apart(out),
    ensures
        users_apart(with_entries(out, entries, n, boundary, limit)),
    decreases n,
{
    if n > 0 {
        lemma_entries_keep_users_apart(out, entries, n - 1, boundary, limit);
        lemma_entry_keeps_users_apart(
            with_entries(out, entries, n - 1, boundary, limit),
            entries[n - 1],
            is_before(boundary, n - 1),
            limit,
        );
    }
}

/// The model always sees clean user turns: whatever was stored, no two user
/// messages follow each other.
pub proof fn law_user_turns_are_merged(b: MessageBuilder, input: ContextInput)
    ensures
        users_apart(b.messages(input)),
{
    let entries = b.conversation(input);
    let middle = with_entries(
        opening(input),
        entries,
        entries.len() as int,
        turn_boundary(entries),
        b.max_tool_result_chars,
    );
    assert(users_apart(opening(input)));
    lemma_entries_keep_users_apart(
        opening(input),
        entries,
        entries.len() as int,
        turn_boundary(entries),
        b.max_tool_result_chars,
    );
    let end = closing(input);
    let all = middle + end;
    assert forall|i: int| 0 <= i && i + 1 < all.len() implies !(all[i] is User
        && #[trigger] all[i + 1] is User) by {
        if i + 1 < middle.len() {
            assert(all[i] == middle[i] && all[i + 1] == middle[i + 1]);
        } else {
            assert(all[i + 1] == end[i + 1 - middle.len()]);
        }
    }
}

proof fn lemma_entry_keeps_prefix(
    out: Seq<OutView>,
    e: HistoryEntry,
    previous_turn: bool,
    limit: Option<usize>,
    n: int,
)
    requires
        0 <= n <= out.len(),
        forall|i: int| n - 1 <= i < n ==> !(#[trigger] out[i] is User),
    ensures
        with_entry(out, e, previous_turn, limit).len() >= n,
        with_entry(out, e, previous_turn, limit).take(n) == out.take(n),
{
    let after = with_entry(out, e, previous_turn, limit);
    if n == out.len() && n > 0 {
        assert(!(out[n - 1] is User));
    }
    assert(after.take(n) =~= out.take(n));
}

proof fn lemma_entries_keep_prefix(
    out: Seq<OutView>,
    entries: Seq<HistoryEntry>,
    n: int,
    boundary: Option<int>,
    limit: Option<usize>,
)
    requires
        out.len() > 0,
        !(out.last() is User),
    ensures
        with_entries(out, entries, n, boundary, limit).len() >= out.len(),
        with_entries(out, entries, n, boundary, limit).take(out.len() as int) == out,
    decreases n,
{
    if n > 0 {
        let before = with_entries(out, entries, n - 1, boundary, limit);
        lemma_entries_keep_prefix(out, entries, n - 1, boundary, limit);
        assert(before[out.len() - 1] == before.take(out.len() as int)[out.len() - 1]);
        lemma_entry_keeps_prefix(
            before,
            entries[n - 1],
            is_before(boundary, n - 1),
            limit,
            out.len() as int,
        );
    } else {
        assert(out.take(out.len() as int) =~= out);
    }
}

/// The static prompt, the scratchpad and the summary always come first, in
/// this order, whatever the conversation is: what a provider caches of them
/// stays valid from turn to turn.
pub proof fn law_static_prefix_first(b: MessageBuilder, input: ContextInput)
    ensures
        b.messages(input).len() >= opening(input).len(),
        b.messages(input).take(opening(input).len() as int) == opening(input),
        b.messages(input)[0] == (OutView::System {
            content: input.static_content@,
            cached: input.cache_hints,
        }),
{
    let entries = b.conversation(input);
    let start = opening(input);
    lemma_entries_keep_prefix(
        start,
        entries,
        entries.len() as int,
        turn_boundary(entries),
        b.max_tool_result_chars,
    );
    let all = b.messages(input);
    assert(all.take(start.len() as int) =~= start) by {
        let middle = with_entries(
            start,
            entries,
            entries.len() as int,
            turn_boundary(entries),
            b.max_tool_result_chars,
        );
        assert forall|i: int| 0 <= i < start.len() implies all[i] == start[i] by {
            assert(middle.take(start.len() as int)[i] == middle[i]);
        }
    }
    assert(all[0] == all.take(start.len() as int)[0]);
}

/// Results of the current turn are shown in full.
pub proof fn law_current_turn_is_shown_in_full(row: ToolRow, limit: Option<usize>)
    ensures
        shown_result(row, false, limit) == result_of(row),
{
}

/// Only the first `n` entries matter to the messages of the first `n` entries.
proof fn lemma_entries_before(
    out: Seq<OutView>,
    a: Seq<HistoryEntry>,
    b: Seq<HistoryEntry>,
    n: int,
    boundary: Option<int>,
    limit: Option<usize>,
)
    requires
        n <= a.len(),
        n <= b.len(),
        forall|i: int| 0 <= i < n ==> #[trigger] a[i] == b[i],
    ensures
        with_entries(out, a, n, boundary, limit) == with_entries(out, b, n, boundary, limit),
    decreases n,
{
    if n > 0 {
        lemma_entries_before(out, a, b, n - 1, boundary, limit);
    }
}

/// Without a limit on results it does not matter where the current turn
/// begins.
proof fn lemma_entries_unlimited(
    out: Seq<OutView>,
    entries: Seq<HistoryEntry>,
    n: int,
    a: Option<int>,
    b: Option<int>,
)
    ensures
        with_entries(out, entries, n, a, None) == with_entries(out, entries, n, b, None),
    decreases n,
{
    if n > 0 {
        lemma_entries_unlimited(out, entries, n - 1, a, b);
        let e = entries[n - 1];
        assert(results_of(e.calls@, is_before(a, n - 1), None) =~= results_of(
            e.calls@,
            is_before(b, n - 1),
            None,
        ));
    }
}

/// Of a long conversation that is not compacted exactly the last messages are
/// sent: as many as the limit allows, or one less where an answer would come
/// first. The messages are those of a conversation that holds nothing else.
pub proof fn law_the_last_messages_are_kept(
    b: &MessageBuilder,
    input: &ContextInput,
    recent: &ContextInput,
    r: Vec<OutMessage>,
    s: Vec<OutMessage>,
    kept: int,
)
    requires
        call_ensures(MessageBuilder::build, (b, input), r),
        call_ensures(MessageBuilder::build, (b, recent), s),
        !b.compacted,
        input.history@.len() > b.max_history_messages,
        kept == if b.max_history_messages > 0 && input.history@[input.history@.len()
            - b.max_history_messages].role == Role::Assistant {
            b.max_history_messages - 1
        } else {
            b.max_history_messages as int
        },
        *recent == (ContextInput { history: recent.history, ..*input }),
        recent.history@ == input.history@.skip(input.history@.len() - kept),
    ensures
        views(r@) == views(s@),
        b.conversation(*input) == input.history@.skip(input.history@.len() - kept),
        b.conversation(*input).len() == kept,
{
    assert(recent.history@.skip(0) =~= recent.history@);
    assert(opening(*recent) == opening(*input));
}

/// Nothing is left out of a conversation within the limit, nor of one that is
/// compacted.
pub proof fn law_short_conversations_are_kept(b: &MessageBuilder, input: &ContextInput)
    requires
        b.compacted || input.history@.len() <= b.max_history_messages,
    ensures
        b.conversation(*input) == input.history@,
{
    assert(input.history@.skip(0) =~= input.history@);
}

/// Without a conversation the messages are the static prompt, the scratchpad
/// where it holds notes, the summary where there is one, the dynamic tail and
/// the reminder, each a system message of its own.
pub proof fn law_messages_without_a_conversation(
    b: &MessageBuilder,
    input: &ContextInput,
    r: Vec<OutMessage>,
    notes: String,
    tail: Option<String>,
)
    requires
        call_ensures(MessageBuilder::build, (b, input), r),
        call_ensures(render_scratchpad, (&input.scratchpad,), notes),
        call_ensures(dynamic_tail, (&input.extra_system_dynamic, &input.datetime_line), tail),
        input.history@.len() == 0,
    ensures
        views(r@) == seq![
            OutView::System { content: input.static_content@, cached: input.cache_hints },
        ] + (if input.scratchpad@.len() > 0 {
            seq![OutView::System { content: notes@, cached: false }]
        } else {
            Seq::empty()
        }) + (match input.summary {
            Some(t) => seq![
                OutView::System {
                    content: input.summary_prefix@ + "\n\n"@ + t@
                        + "\n\n[End of context summary — the following messages are the most recent exchanges in full.]"@,
                    cached: false,
                },
            ],
            None => Seq::empty(),
        }) + (match tail {
            Some(t) => seq![OutView::System { content: t@, cached: false }],
            None => Seq::empty(),
        }) + (match input.tail_reminder {
            Some(t) => seq![OutView::System { content: t@, cached: false }],
            None => Seq::empty(),
        }),
{
    let entries = b.conversation(*input);
    assert(entries.len() == 0) by {
        assert(input.history@.skip(0) =~= input.history@);
        assert(input.history@.skip(input.history@.len() as int).len() == 0);
    }
}

/// What is said behind the conversation is added to the messages without it,
/// and changes none of them.
pub proof fn law_the_tail_comes_last(
    b: &MessageBuilder,
    input: &ContextInput,
    bare: &ContextInput,
    r: Vec<OutMessage>,
    s: Vec<OutMessage>,
    tail: Option<String>,
)
    requires
        call_ensures(MessageBuilder::build, (b, input), r),
        call_ensures(MessageBuilder::build, (b, bare), s),
        call_ensures(dynamic_tail, (&input.extra_system_dynamic, &input.datetime_line), tail),
        *bare == (ContextInput {
            extra_system_dynamic: None,
            datetime_line: None,
            tail_reminder: None,
            ..*input
        }),
    ensures
        views(r@) == views(s@) + (match tail {
            Some(t) => seq![OutView::System { content: t@, cached: false }],
            None => Seq::empty(),
        }) + (match input.tail_reminder {
            Some(t) => seq![OutView::System { content: t@, cached: false }],
            None => Seq::empty(),
        }),
{
    assert(opening(*bare) == opening(*input));
    assert(closing(*bare) =~= Seq::<OutView>::empty());
    let entries = b.conversation(*input);
    let middle = with_entries(
        opening(*input),
        entries,
        entries.len() as int,
        turn_boundary(entries),
        b.max_tool_result_chars,
    );
    assert(views(s@) =~= middle);
    assert(views(r@) =~= middle + closing(*input));
}

/// The dynamic tail is the caller's context, then the line on date and place,
/// with a rule between where there are both.
pub proof fn law_dynamic_tail(context: &Option<String>, datetime: &Option<String>, r: Option<String>)
    requires
        call_ensures(dynamic_tail, (context, datetime), r),
    ensures
        r is None <==> context is None && datetime is None,
        context is Some && datetime is None ==> r->Some_0@ == context->Some_0@,
        context is None && datetime is Some ==> r->Some_0@ == datetime->Some_0@,
        context is Some && datetime is Some ==> r->Some_0@ == context->Some_0@ + "\n\n---\n"@
            + datetime->Some_0@,
{
}

/// Each note of the scratchpad is a line of its own behind those before it.
pub proof fn law_scratchpad_holds_each_note(
    notes: &Vec<(String, String)>,
    more: &Vec<(String, String)>,
    r: String,
    s: String,
)
    requires
        call_ensures(render_scratchpad, (notes,), r),
        call_ensures(render_scratchpad, (more,), s),
        more@.len() == notes@.len() + 1,
        more@.drop_last() == notes@,
    ensures
        notes@.len() == 0 ==> r@
            == "<scratchpad>\n  <!-- Temporary notes shared by all agents in this session. Not persisted across sessions. -->\n</scratchpad>"@,
        exists|lead: Seq<char>|
            r@ == #[trigger] (lead + "</scratchpad>"@) && s@ == lead + "  <note key=\""@
                + more@.last().0@ + "\">"@ + more@.last().1@ + "</note>\n"@ + "</scratchpad>"@,
{
    reveal_strlit("<scratchpad>\n  <!-- Temporary notes shared by all agents in this session. Not persisted across sessions. -->\n");
    reveal_strlit("</scratchpad>");
    reveal_strlit("<scratchpad>\n  <!-- Temporary notes shared by all agents in this session. Not persisted across sessions. -->\n</scratchpad>");
    let lead =
        "<scratchpad>\n  <!-- Temporary notes shared by all agents in this session. Not persisted across sessions. -->\n"@
        + note_lines(notes@);
    assert(r@ == lead + "</scratchpad>"@);
    assert(s@ =~= lead + "  <note key=\""@ + more@.last().0@ + "\">"@ + more@.last().1@
        + "</note>\n"@ + "</scratchpad>"@);
    if notes@.len() == 0 {
        assert(r@
            =~= "<scratchpad>\n  <!-- Temporary notes shared by all agents in this session. Not persisted across sessions. -->\n</scratchpad>"@);
    }
}

/// An answer is sent behind what was sent before it: the text, its calls under
/// their ids, and then the result of each call in full, since it belongs to
/// the current turn.
pub proof fn law_an_answer_is_added(
    b: &MessageBuilder,
    input: &ContextInput,
    more: &ContextInput,
    r: Vec<OutMessage>,
    s: Vec<OutMessage>,
    e: HistoryEntry,
)
    requires
        call_ensures(MessageBuilder::build, (b, input), r),
        call_ensures(MessageBuilder::build, (b, more), s),
        *more == (ContextInput { history: more.history, ..*input }),
        more.history@ == input.history@.push(e),
        b.compacted || more.history@.len() <= b.max_history_messages,
        e.role == Role::Assistant,
        input.extra_system_dynamic is None,
        input.datetime_line is None,
        input.tail_reminder is None,
    ensures
        views(s@).len() == views(r@).len() + 1 + e.calls@.len(),
        views(s@).take(views(r@).len() as int) == views(r@),
        views(s@)[views(r@).len() as int] matches OutView::Assistant { content, calls, reasoning }
            && content == e.content@ && reasoning == opt_text(e.reasoning) && calls.len()
            == e.calls@.len() && forall|i: int|
            0 <= i < calls.len() ==> #[trigger] calls[i] == (
                "tc_"@ + decimal(e.calls@[i].id as int),
                e.calls@[i].name@,
                match e.calls@[i].arguments {
                    Some(a) => a@,
                    None => "{}"@,
                },
            ),
        forall|i: int|
            0 <= i < e.calls@.len() ==> #[trigger] views(s@)[views(r@).len() + 1 + i] == (
            OutView::Tool {
                call_id: "tc_"@ + decimal(e.calls@[i].id as int),
                content: result_of(e.calls@[i]),
            }),
{
    let entries = input.history@;
    let all = more.history@;
    assert(input.history@.skip(0) =~= entries);
    assert(more.history@.skip(0) =~= all);
    let n = entries.len() as int;
    let bound = turn_boundary(entries);
    let limit = b.max_tool_result_chars;
    assert(all.drop_last() =~= entries);
    assert(turn_boundary(all) == bound);
    assert(opening(*more) == opening(*input));
    lemma_entries_before(opening(*input), all, entries, n, bound, limit);
    lemma_boundary_is_inside(entries);
    let before = with_entries(opening(*input), entries, n, bound, limit);
    let after = with_entries(opening(*input), all, n + 1, bound, limit);
    assert(after == with_entry(before, e, is_before(bound, n), limit));
    assert(closing(*input) =~= Seq::<OutView>::empty());
    assert(closing(*more) =~= Seq::<OutView>::empty());
    assert(views(r@) =~= before);
    assert(views(s@) =~= after);
    assert(views(s@).take(before.len() as int) =~= before);
}

proof fn lemma_boundary_is_inside(entries: Seq<HistoryEntry>)
    ensures
        turn_boundary(entries) matches Some(i) ==> 0 <= i < entries.len() && entries[i].role
            != Role::Assistant && forall|j: int|
            i < j < entries.len() ==> (#[trigger] entries[j]).role == Role::Assistant,
        turn_boundary(entries) is None ==> forall|j: int|
            0 <= j < entries.len() ==> (#[trigger] entries[j]).role == Role::Assistant,
    decreases entries.len(),
{
    if entries.len() > 0 && !asks(entries.last()) {
        lemma_boundary_is_inside(entries.drop_last());
        assert forall|j: int| 0 <= j < entries.len() - 1 implies entries[j]
            == entries.drop_last()[j] by {}
    }
}

/// A message of a user, or of the agent that called this one, is sent behind
/// what was sent before it, with the block on its attachments; where the last
/// message was a user's too, the two become one.
pub proof fn law_a_question_is_added(
    b: &MessageBuilder,
    input: &ContextInput,
    more: &ContextInput,
    r: Vec<OutMessage>,
    s: Vec<OutMessage>,
    e: HistoryEntry,
    text: Seq<char>,
)
    requires
        call_ensures(MessageBuilder::build, (b, input), r),
        call_ensures(MessageBuilder::build, (b, more), s),
        *more == (ContextInput { history: more.history, ..*input }),
        more.history@ == input.history@.push(e),
        b.compacted || more.history@.len() <= b.max_history_messages,
        b.max_tool_result_chars is None,
        e.role == Role::User || e.role == Role::Agent,
        text == match e.attachments {
            Some(block) => e.content@ + block@,
            None => e.content@,
        },
        input.extra_system_dynamic is None,
        input.datetime_line is None,
        input.tail_reminder is None,
    ensures
        views(r@).len() > 0,
        match views(r@).last() {
            OutView::User { content } => views(s@) == views(r@).drop_last().push(
                OutView::User { content: content + "\n\n"@ + text },
            ),
            _ => views(s@) == views(r@).push(OutView::User { content: text }),
        },
{
    let entries = input.history@;
    let all = more.history@;
    assert(input.history@.skip(0) =~= entries);
    assert(more.history@.skip(0) =~= all);
    let n = entries.len() as int;
    assert(opening(*more) == opening(*input));
    lemma_entries_before(opening(*input), all, entries, n, turn_boundary(all), None);
    lemma_entries_unlimited(
        opening(*input),
        entries,
        n,
        turn_boundary(all),
        turn_boundary(entries),
    );
    lemma_entries_keep_prefix(opening(*input), entries, n, turn_boundary(entries), None);
    let before = with_entries(opening(*input), entries, n, turn_boundary(entries), None);
    let after = with_entries(opening(*input), all, n + 1, turn_boundary(all), None);
    assert(after == with_entry(before, e, is_before(turn_boundary(all), n), None));
    assert(closing(*input) =~= Seq::<OutView>::empty());
    assert(closing(*more) =~= Seq::<OutView>::empty());
    assert(views(r@) =~= before);
    assert(views(s@) =~= after);
}

/// Whether two lists of messages differ at most in what tool calls returned,
/// and there only where the one holds more than `n` characters and a user
/// spoke since; what stands in its place has one line.
pub open spec fn differ_in_old_results(full: Seq<OutView>, cut: Seq<OutView>, n: nat) -> bool {
    &&& cut.len() == full.len()
    &&& forall|i: int|
        0 <= i < full.len() ==> match #[trigger] full[i] {
            OutView::Tool { call_id, content } => {
                let is_old = exists|j: int| i < j < full.len() && #[trigger] full[j] is User;
                if is_old && content.len() > n {
                    cut[i] matches OutView::Tool { call_id: c, content: t } && c == call_id
                        && forall|k: int| 0 <= k < t.len() ==> #[trigger] t[k] != '\n'
                } else {
                    cut[i] == full[i]
                }
            },
            m => cut[i] == m,
        }
}

/// Whether one message stands for another whose result is too long.
spec fn is_cut_form(full: OutView, cut: OutView, n: nat) -> bool {
    match full {
        OutView::Tool { call_id, content } => if content.len() > n {
            cut matches OutView::Tool { call_id: c, content: t } && c == call_id && forall|k: int|
                0 <= k < t.len() ==> #[trigger] t[k] != '\n'
        } else {
            cut == full
        },
        m => cut == m,
    }
}

proof fn lemma_old_results_are_cut(
    out: Seq<OutView>,
    entries: Seq<HistoryEntry>,
    n: int,
    boundary: int,
    limit: usize,
)
    requires
        0 <= n <= boundary,
        forall|i: int| 0 <= i < out.len() ==> !(#[trigger] out[i] is Tool),
    ensures
        with_entries(out, entries, n, Some(boundary), Some(limit)).len() == with_entries(
            out,
            entries,
            n,
            Some(boundary),
            None,
        ).len(),
        forall|i: int|
            0 <= i < with_entries(out, entries, n, Some(boundary), None).len() ==> is_cut_form(
                #[trigger] with_entries(out, entries, n, Some(boundary), None)[i],
                with_entries(out, entries, n, Some(boundary), Some(limit))[i],
                limit as nat,
            ),
    decreases n,
{
    if n > 0 {
        lemma_old_results_are_cut(out, entries, n - 1, boundary, limit);
        let full = with_entries(out, entries, n - 1, Some(boundary), None);
        let cut = with_entries(out, entries, n - 1, Some(boundary), Some(limit));
        let e = entries[n - 1];
        let more = with_entry(full, e, true, None);
        let less = with_entry(cut, e, true, Some(limit));
        if full.len() > 0 {
            assert(is_cut_form(full[full.len() - 1], cut[full.len() - 1], limit as nat));
        }
        assert forall|i: int| 0 <= i < more.len() implies is_cut_form(
            #[trigger] more[i],
            less[i],
            limit as nat,
        ) by {
            if i < full.len() {
                assert(is_cut_form(full[i], cut[i], limit as nat));
            }
            if e.role == Role::Assistant && i > full.len() {
                let row = e.calls@[i - full.len() - 1];
                assert(more[i] == results_of(e.calls@, true, None)[i - full.len() - 1]);
                assert(less[i] == results_of(e.calls@, true, Some(limit))[i - full.len() - 1]);
            }
        }
    }
}

proof fn lemma_new_results_are_shown(
    out: Seq<OutView>,
    entries: Seq<HistoryEntry>,
    n: int,
    boundary: int,
    limit: usize,
) -> (u: int)
    requires
        0 <= boundary < n <= entries.len(),
        forall|i: int| 0 <= i < out.len() ==> !(#[trigger] out[i] is Tool),
        entries[boundary].role != Role::Assistant,
        forall|j: int| boundary < j < n ==> (#[trigger] entries[j]).role == Role::Assistant,
    ensures
        ({
            let full = with_entries(out, entries, n, Some(boundary), None);
            let cut = with_entries(out, entries, n, Some(boundary), Some(limit));
            &&& cut.len() == full.len()
            &&& 0 <= u < full.len()
            &&& full[u] is User
            &&& forall|i: int|
                0 <= i < full.len() ==> if i <= u {
                    is_cut_form(#[trigger] full[i], cut[i], limit as nat)
                } else {
                    cut[i] == full[i] && !(full[i] is User)
                }
        }),
    decreases n,
{
    let full = with_entries(out, entries, n - 1, Some(boundary), None);
    let cut = with_entries(out, entries, n - 1, Some(boundary), Some(limit));
    let e = entries[n - 1];
    let more = with_entries(out, entries, n, Some(boundary), None);
    let less = with_entries(out, entries, n, Some(boundary), Some(limit));
    if n - 1 == boundary {
        lemma_old_results_are_cut(out, entries, n - 1, boundary, limit);
        if full.len() > 0 {
            assert(is_cut_form(full[full.len() - 1], cut[full.len() - 1], limit as nat));
        }
        assert forall|i: int| 0 <= i < more.len() implies is_cut_form(
            #[trigger] more[i],
            less[i],
            limit as nat,
        ) by {
            if i < full.len() {
                assert(is_cut_form(full[i], cut[i], limit as nat));
            }
        }
        more.len() - 1
    } else {
        let u = lemma_new_results_are_shown(out, entries, n - 1, boundary, limit);
        assert(results_of(e.calls@, false, None) =~= results_of(e.calls@, false, Some(limit)));
        assert forall|i: int| 0 <= i < more.len() implies if i <= u {
            is_cut_form(#[trigger] more[i], less[i], limit as nat)
        } else {
            less[i] == more[i] && !(more[i] is User)
        } by {
            if i < full.len() {
                assert(more[i] == full[i] && less[i] == cut[i]);
                if i <= u {
                    assert(is_cut_form(full[i], cut[i], limit as nat));
                } else {
                    assert(cut[i] == full[i]);
                }
            }
        }
        u
    }
}

proof fn lemma_answers_alone(
    out: Seq<OutView>,
    entries: Seq<HistoryEntry>,
    n: int,
    limit: usize,
)
    requires
        0 <= n <= entries.len(),
        forall|i: int| 0 <= i < out.len() ==> !(#[trigger] out[i] is User),
        forall|j: int| 0 <= j < n ==> (#[trigger] entries[j]).role == Role::Assistant,
    ensures
        with_entries(out, entries, n, None, Some(limit)) == with_entries(out, entries, n, None, None),
        forall|i: int|
            0 <= i < with_entries(out, entries, n, None, None).len() ==> !(
            #[trigger] with_entries(out, entries, n, None, None)[i] is User),
    decreases n,
{
    if n > 0 {
        lemma_answers_alone(out, entries, n - 1, limit);
        let e = entries[n - 1];
        assert(results_of(e.calls@, false, None) =~= results_of(e.calls@, false, Some(limit)));
        let before = with_entries(out, entries, n - 1, None, None);
        let after = with_entries(out, entries, n, None, None);
        assert forall|i: int| 0 <= i < after.len() implies !(#[trigger] after[i] is User) by {
            if i < before.len() {
                assert(after[i] == before[i]);
            }
        }
    }
}

/// A limit on results changes nothing but the results of earlier turns that
/// are longer than it: each of those is told in one line under the id of its
/// call.
pub proof fn law_only_old_long_results_are_cut(
    b: &MessageBuilder,
    unlimited: &MessageBuilder,
    input: &ContextInput,
    r: Vec<OutMessage>,
    s: Vec<OutMessage>,
    limit: usize,
)
    requires
        call_ensures(MessageBuilder::build, (unlimited, input), r),
        call_ensures(MessageBuilder::build, (b, input), s),
        b.max_tool_result_chars == Some(limit),
        *unlimited == (MessageBuilder { max_tool_result_chars: None, ..*b }),
    ensures
        differ_in_old_results(views(r@), views(s@), limit as nat),
{
    let entries = b.conversation(*input);
    let bound = turn_boundary(entries);
    let n = entries.len() as int;
    let start = opening(*input);
    let end = closing(*input);
    let full = with_entries(start, entries, n, bound, None);
    let cut = with_entries(start, entries, n, bound, Some(limit));
    assert(views(r@) =~= full + end);
    assert(views(s@) =~= cut + end);
    lemma_boundary_is_inside(entries);
    assert(forall|i: int| 0 <= i < start.len() ==> !(#[trigger] start[i] is Tool)
        && !(start[i] is User));
    assert(forall|i: int| 0 <= i < end.len() ==> !(#[trigger] end[i] is Tool)
        && !(end[i] is User));
    match bound {
        None => {
            lemma_answers_alone(start, entries, n, limit);
            assert forall|j: int| 0 <= j < views(r@).len() implies !(#[trigger] views(r@)[j] is User) by {
                if j < full.len() {
                    assert(views(r@)[j] == full[j]);
                } else {
                    assert(views(r@)[j] == end[j - full.len()]);
                }
            }
        },
        Some(at) => {
            let u = lemma_new_results_are_shown(start, entries, n, at, limit);
            assert forall|i: int| 0 <= i < views(r@).len() implies match #[trigger] views(r@)[i] {
                OutView::Tool { call_id, content } => {
                    let is_old = exists|j: int|
                        i < j < views(r@).len() && #[trigger] views(r@)[j] is User;
                    if is_old && content.len() > limit as nat {
                        views(s@)[i] matches OutView::Tool { call_id: c, content: t } && c
                            == call_id && forall|k: int|
                            0 <= k < t.len() ==> #[trigger] t[k] != '\n'
                    } else {
                        views(s@)[i] == views(r@)[i]
                    }
                },
                m => views(s@)[i] == m,
            } by {
                if i < full.len() {
                    assert(views(r@)[i] == full[i]);
                    assert(views(s@)[i] == cut[i]);
                    if i < u {
                        assert(views(r@)[u] is User);
                        assert(is_cut_form(full[i], cut[i], limit as nat));
                    } else if i == u {
                        assert(is_cut_form(full[i], cut[i], limit as nat));
                    } else {
                        assert(cut[i] == full[i]);
                        assert forall|j: int| i < j < views(r@).len() implies !(
                        #[trigger] views(r@)[j] is User) by {
                            if j < full.len() {
                                assert(views(r@)[j] == full[j]);
                            } else {
                                assert(views(r@)[j] == end[j - full.len()]);
                            }
                        }
                    }
                } else {
                    assert(views(r@)[i] == end[i - full.len()]);
                }
            }
        },
    }
}

/// What a tool call of the current turn returned is told as it is stored: a
/// failure as an error, and a call without an outcome as interrupted.
pub proof fn law_results_are_told(row: &ToolRow, limit: Option<usize>, r: String)
    requires
        call_ensures(maybe_hide_tool_result, (row, false, limit), r),
    ensures
        r@ == result_of(*row),
        row.status@ == "done"@ ==> r@ == match row.result {
            Some(t) => t@,
            None => Seq::empty(),
        },
        row.status@ == "failed"@ ==> r@ == "Error: "@ + match row.result {
            Some(t) => t@,
            None => "unknown error"@,
        },
        row.status@ == "rejected"@ || row.status@ == "cancelled"@ ==> match row.result {
            Some(t) => r@ == t@,
            None => r@ == if row.status@ == "rejected"@ {
                "User rejected this tool call."@
            } else {
                "Tool call was cancelled by the user."@
            },
        },
        row.status@ != "done"@ && row.status@ != "failed"@ && row.status@ != "rejected"@
            && row.status@ != "cancelled"@ ==> r@
            == "Error: tool call was interrupted (connection lost before user approval). Please retry the operation."@,
{
    reveal_strlit("done");
    reveal_strlit("failed");
    reveal_strlit("rejected");
    reveal_strlit("cancelled");
    assert("done"@.len() == 4 && "failed"@.len() == 6 && "rejected"@.len() == 8
        && "cancelled"@.len() == 9);
}

/// A result of an earlier turn that is longer than the limit is replaced by
/// its summary; any other is told in full.
pub proof fn law_long_old_results_are_summarised(
    row: &ToolRow,
    limit: Option<usize>,
    full: String,
    r: String,
    summary: String,
    name: &str,
    arguments: Option<&str>,
    text: &str,
)
    requires
        call_ensures(maybe_hide_tool_result, (row, false, limit), full),
        call_ensures(maybe_hide_tool_result, (row, true, limit), r),
        call_ensures(summarize_tool_result, (name, arguments, text), summary),
        name@ == row.name@,
        text@ == full@,
        row.arguments is Some == arguments is Some,
        row.arguments matches Some(a) ==> arguments->Some_0@ == a@,
    ensures
        r@ == match limit {
            Some(n) if full@.len() > n => summary@,
            _ => full@,
        },
{
}

} // verus!
