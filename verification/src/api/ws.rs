//! The chat over a web socket: what a client's message asks for, and which
//! events go to the client.
use vstd::prelude::*;

use crate::chat_hub::inbox::SendMessageOptions;
use crate::db::chat_history::{Attachment, MessageMetadata};
use crate::events::{GlobalEvent, ServerEvent};
use crate::json::{parse_json, parsed_json, Json, JsonView};
use crate::numerals::{decimal, decimal_nat, i64_text, pad_left, padded, usize_text};
use crate::text::{
    has_prefix, opt_text, or_text, split_words, str_eq, strip_prefix, text_or, texts, trim, trimmed, words,
};

verus! {

/// How the model is told to format its answers.
pub const WEB_FORMAT_CONTEXT: &'static str = "You are responding in a web chat interface. Use standard Markdown formatting for all responses.\n\nIMAGES: If image generation is active, you can display images to the user using standard Markdown image syntax with the URL. Always set a max-width style to avoid the image taking up the full screen width, e.g. <img src=\"URL\" style=\"max-width:480px\">. The URL returned by image_generate already points to the correct endpoint — use it as-is. Do NOT append \".png\" or any extension to the URL.\n\nFILES: To let the user look at a file directly, call show_file_to_user(path). Supported: Markdown, source code, images (PNG/JPG/GIF/WebP/SVG), PDF, and LaTeX (.tex — auto-compiled to PDF server-side). HTML opens in a new browser tab. Prefer this over pasting long file contents into chat.";

/// The commands that a client may send.
pub const HELP_TEXT: &'static str = "**Available commands**\n\n**/clear** — start a new conversation\n**/new** — alias for /clear\n**/models** — list available LLM models, ordered by priority\n**/model <N|name|auto>** — select the model for this chat\n**/context** — show last turn's token usage\n**/cost** — show total spend for this session (USD)\n**/compact** — force context compaction\n**/resetmcp** — remove all activated MCP tools from the session\n**/sethome** — set web as the destination for agent notifications\n**/help** — this message";

/// The parameters of a connection.
#[derive(Debug)]
pub struct WsParams {
    pub source: Option<String>,
}

/// The source of a connection: the web where it names none.
pub fn handler(params: WsParams) -> (r: String)
    ensures
        r@ == or_text(opt_text(params.source), "web"@),
{
    text_or(params.source, "web")
}

/// What a control message asks for.
#[derive(Debug)]
pub enum Control {
    Resume,
    Cancel,
    Approve(i64),
    /// Approves, and then for that many seconds; without end where there is no
    /// number.
    ApproveWithBypass(i64, Option<u64>),
    Reject(i64, String),
    Answer(i64, String),
    /// Pushes data of a stream, live or not; of no stream where the message
    /// names none.
    Data(Option<String>, bool),
    /// Selects a model; none leaves the choice to the manager.
    Select(Option<String>),
}

/// What a `Control` holds.
pub enum ControlView {
    Resume,
    Cancel,
    Approve(int),
    ApproveWithBypass(int, Option<int>),
    Reject(int, Seq<char>),
    Answer(int, Seq<char>),
    Data(Option<Seq<char>>, bool),
    Select(Option<Seq<char>>),
}

impl View for Control {
    type V = ControlView;

    open spec fn view(&self) -> ControlView {
        match *self {
            Control::Resume => ControlView::Resume,
            Control::Cancel => ControlView::Cancel,
            Control::Approve(id) => ControlView::Approve(id as int),
            Control::ApproveWithBypass(id, Some(n)) => ControlView::ApproveWithBypass(
                id as int,
                Some(n as int),
            ),
            Control::ApproveWithBypass(id, None) => ControlView::ApproveWithBypass(id as int, None),
            Control::Reject(id, note) => ControlView::Reject(id as int, note@),
            Control::Answer(id, answer) => ControlView::Answer(id as int, answer@),
            Control::Data(stream, live) => ControlView::Data(opt_text(stream), live),
            Control::Select(client) => ControlView::Select(opt_text(client)),
        }
    }
}

/// The type that a message names.
pub open spec fn message_type(parsed: Option<JsonView>) -> Option<Seq<char>> {
    match parsed {
        Some(j) => j.field("type"@).as_text(),
        None => None,
    }
}

/// Whether a message cancels the turn.
pub fn is_cancel_msg(text: &str) -> (r: bool)
    ensures
        r == (message_type(parsed_json(text@)) == Some("cancel"@)),
{
    match parse_json(text) {
        Some(v) => match v.text_field("type") {
            Some(t) => str_eq(t.as_str(), "cancel"),
            None => false,
        },
        None => false,
    }
}

/// Whether a message resumes the turn.
pub fn is_resume_msg(text: &str) -> (r: bool)
    ensures
        r == (message_type(parsed_json(text@)) == Some("resume"@)),
{
    match parse_json(text) {
        Some(v) => match v.text_field("type") {
            Some(t) => str_eq(t.as_str(), "resume"),
            None => false,
        },
        None => false,
    }
}

/// The decision on a pending approval that a message carries. A bypass of no
/// seconds has no end.
pub open spec fn approval_of(j: JsonView) -> Option<ControlView> {
    match (j.field("request_id"@).as_i64(), j.field("type"@).as_text()) {
        (Some(id), Some(kind)) => if kind == "approve_write"@ || kind == "approve_tool"@ {
            match j.field("bypass_secs"@).as_u64() {
                Some(n) => Some(
                    ControlView::ApproveWithBypass(
                        id,
                        if n == 0 {
                            None
                        } else {
                            Some(n)
                        },
                    ),
                ),
                None => Some(ControlView::Approve(id)),
            }
        } else if kind == "reject_write"@ || kind == "reject_tool"@ {
            Some(ControlView::Reject(id, or_text(j.field("note"@).as_text(), ""@)))
        } else {
            None
        },
        _ => None,
    }
}

/// The decision on a pending approval that a message carries.
pub fn handle_approval_msg(v: &Json) -> (r: Option<Control>)
    ensures
        match r {
            Some(c) => approval_of(v@) == Some(c@),
            None => approval_of(v@) is None,
        },
{
    let id: i64 = match v.i64_field("request_id") {
        Some(n) => n,
        None => {
            return None;
        },
    };
    let kind: String = match v.text_field("type") {
        Some(t) => t,
        None => {
            return None;
        },
    };
    let k: &str = kind.as_str();
    if str_eq(k, "approve_write") || str_eq(k, "approve_tool") {
        match v.u64_field("bypass_secs") {
            Some(n) => if n == 0 {
                Some(Control::ApproveWithBypass(id, None))
            } else {
                Some(Control::ApproveWithBypass(id, Some(n)))
            },
            None => Some(Control::Approve(id)),
        }
    } else if str_eq(k, "reject_write") || str_eq(k, "reject_tool") {
        Some(Control::Reject(id, text_or(v.text_field("note"), "")))
    } else {
        None
    }
}

/// The answer to a question that a message carries.
pub open spec fn answer_of(j: JsonView) -> Option<ControlView> {
    match j.field("request_id"@).as_i64() {
        Some(id) => if j.field("type"@).as_text() == Some("answer_question"@) {
            Some(ControlView::Answer(id, or_text(j.field("answer"@).as_text(), ""@)))
        } else {
            None
        },
        None => None,
    }
}

fn has_type(v: &Json, kind: &str) -> (r: bool)
    ensures
        r == (v@.field("type"@).as_text() == Some(kind@)),
{
    match v.text_field("type") {
        Some(t) => str_eq(t.as_str(), kind),
        None => false,
    }
}

/// The answer to a question that a message carries.
pub fn handle_question_answer_msg(v: &Json) -> (r: Option<Control>)
    ensures
        match r {
            Some(c) => answer_of(v@) == Some(c@),
            None => answer_of(v@) is None,
        },
{
    if !has_type(v, "answer_question") {
        return None;
    }
    match v.i64_field("request_id") {
        Some(id) => Some(Control::Answer(id, text_or(v.text_field("answer"), ""))),
        None => None,
    }
}

/// The data that a message pushes.
pub open spec fn data_of(j: JsonView) -> Option<ControlView> {
    if j.field("type"@).as_text() == Some("data"@) {
        Some(
            ControlView::Data(
                j.field("stream"@).as_text(),
                match j.field("payload"@).field("is_live"@).as_bool() {
                    Some(b) => b,
                    None => true,
                },
            ),
        )
    } else {
        None
    }
}

/// The data that a message pushes.
pub fn handle_data_msg(v: &Json) -> (r: Option<Control>)
    ensures
        match r {
            Some(c) => data_of(v@) == Some(c@),
            None => data_of(v@) is None,
        },
{
    if !has_type(v, "data") {
        return None;
    }
    let live: bool = match v.get("payload") {
        Some(p) => match p.bool_field("is_live") {
            Some(b) => b,
            None => true,
        },
        None => true,
    };
    Some(Control::Data(v.text_field("stream"), live))
}

/// The model that a message selects.
pub open spec fn selection_of(j: JsonView) -> Option<ControlView> {
    match j.field("client"@).as_text() {
        Some(client) => if j.field("type"@).as_text() == Some("select_client"@) {
            Some(
                ControlView::Select(
                    if client == "auto"@ {
                        None
                    } else {
                        Some(client)
                    },
                ),
            )
        } else {
            None
        },
        None => None,
    }
}

/// The model that a message selects.
pub fn handle_select_client_msg(v: &Json) -> (r: Option<Control>)
    ensures
        match r {
            Some(c) => selection_of(v@) == Some(c@),
            None => selection_of(v@) is None,
        },
{
    if !has_type(v, "select_client") {
        return None;
    }
    match v.text_field("client") {
        Some(client) => if str_eq(client.as_str(), "auto") {
            Some(Control::Select(None))
        } else {
            Some(Control::Select(Some(client)))
        },
        None => None,
    }
}

/// What a message asks for, where it is a control message.
pub open spec fn control_of(parsed: Option<JsonView>) -> Option<ControlView> {
    match parsed {
        None => None,
        Some(j) => if message_type(parsed) == Some("resume"@) {
            Some(ControlView::Resume)
        } else if message_type(parsed) == Some("cancel"@) {
            Some(ControlView::Cancel)
        } else if approval_of(j) is Some {
            approval_of(j)
        } else if answer_of(j) is Some {
            answer_of(j)
        } else if data_of(j) is Some {
            data_of(j)
        } else {
            selection_of(j)
        },
    }
}

/// What a message asks for, where it is a control message.
pub fn control(text: &str) -> (r: Option<Control>)
    ensures
        match r {
            Some(c) => control_of(parsed_json(text@)) == Some(c@),
            None => control_of(parsed_json(text@)) is None,
        },
{
    let parsed: Option<Json> = parse_json(text);
    control_in(&parsed)
}

/// What a parsed message asks for, where it is a control message.
pub fn control_in(parsed: &Option<Json>) -> (r: Option<Control>)
    ensures
        ({
            let view = match *parsed {
                Some(j) => Some(j@),
                None => None,
            };
            match r {
                Some(c) => control_of(view) == Some(c@),
                None => control_of(view) is None,
            }
        }),
{
    match parsed {
        None => None,
        Some(v) => if has_type(v, "resume") {
            Some(Control::Resume)
        } else if has_type(v, "cancel") {
            Some(Control::Cancel)
        } else {
            match handle_approval_msg(v) {
                Some(c) => Some(c),
                None => match handle_question_answer_msg(v) {
                    Some(c) => Some(c),
                    None => match handle_data_msg(v) {
                        Some(c) => Some(c),
                        None => handle_select_client_msg(v),
                    },
                },
            }
        },
    }
}

/// What the text of a chat message asks for.
#[derive(Debug)]
pub enum Command {
    /// Start a new conversation.
    Clear,
    SetHome,
    Help,
    Context,
    Cost,
    Compact,
    ResetMcp,
    Models,
    Model(String),
    /// A command that is not known, by its first word.
    Unknown(String),
    /// A message for the model.
    Chat,
}

/// What a `Command` holds.
pub enum CommandView {
    Clear,
    SetHome,
    Help,
    Context,
    Cost,
    Compact,
    ResetMcp,
    Models,
    Model(Seq<char>),
    Unknown(Seq<char>),
    Chat,
}

impl View for Command {
    type V = CommandView;

    open spec fn view(&self) -> CommandView {
        match *self {
            Command::Clear => CommandView::Clear,
            Command::SetHome => CommandView::SetHome,
            Command::Help => CommandView::Help,
            Command::Context => CommandView::Context,
            Command::Cost => CommandView::Cost,
            Command::Compact => CommandView::Compact,
            Command::ResetMcp => CommandView::ResetMcp,
            Command::Models => CommandView::Models,
            Command::Model(a) => CommandView::Model(a@),
            Command::Unknown(w) => CommandView::Unknown(w@),
            Command::Chat => CommandView::Chat,
        }
    }
}

/// The first word of a text, or the text.
pub open spec fn first_word(s: Seq<char>) -> Seq<char> {
    if words(s).len() > 0 {
        words(s)[0]
    } else {
        s
    }
}

/// What the text of a chat message asks for.
pub open spec fn command_of(content: Seq<char>) -> CommandView {
    let cmd = trimmed(content);
    if cmd == "/clear"@ || cmd == "/new"@ {
        CommandView::Clear
    } else if cmd == "/sethome"@ {
        CommandView::SetHome
    } else if cmd == "/help"@ {
        CommandView::Help
    } else if cmd == "/context"@ {
        CommandView::Context
    } else if cmd == "/cost"@ {
        CommandView::Cost
    } else if cmd == "/compact"@ {
        CommandView::Compact
    } else if cmd == "/resetmcp"@ {
        CommandView::ResetMcp
    } else if cmd == "/models"@ {
        CommandView::Models
    } else if has_prefix(cmd, "/model"@) {
        CommandView::Model(trimmed(cmd.skip("/model"@.len() as int)))
    } else if cmd.len() > 0 && cmd[0] == '/' {
        CommandView::Unknown(first_word(cmd))
    } else {
        CommandView::Chat
    }
}

/// What the text of a chat message asks for.
pub fn command(content: &str) -> (r: Command)
    ensures
        r@ == command_of(content@),
{
    let trimmed_text: String = trim(content);
    let cmd: &str = trimmed_text.as_str();
    if str_eq(cmd, "/clear") || str_eq(cmd, "/new") {
        return Command::Clear;
    }
    if str_eq(cmd, "/sethome") {
        return Command::SetHome;
    }
    if str_eq(cmd, "/help") {
        return Command::Help;
    }
    if str_eq(cmd, "/context") {
        return Command::Context;
    }
    if str_eq(cmd, "/cost") {
        return Command::Cost;
    }
    if str_eq(cmd, "/compact") {
        return Command::Compact;
    }
    if str_eq(cmd, "/resetmcp") {
        return Command::ResetMcp;
    }
    if str_eq(cmd, "/models") {
        return Command::Models;
    }
    match strip_prefix(cmd, "/model") {
        Some(arg) => {
            return Command::Model(trim(arg.as_str()));
        },
        None => {},
    }
    if cmd.unicode_len() > 0 && cmd.get_char(0) == '/' {
        let mut all: Vec<String> = split_words(cmd);
        assert(texts(all@).len() == all@.len());
        if all.len() > 0 {
            assert(texts(all@)[0] == all@[0]@);
            Command::Unknown(all.remove(0))
        } else {
            Command::Unknown(trimmed_text)
        }
    } else {
        Command::Chat
    }
}

/// A message that begins with a slash never reaches the model.
pub proof fn law_commands_are_not_forwarded(content: Seq<char>)
    requires
        trimmed(content).len() > 0,
        trimmed(content)[0] == '/',
    ensures
        !(command_of(content) is Chat),
{
}

/// An answer of the server itself.
pub fn done(content: String) -> (r: ServerEvent)
    ensures
        r == (ServerEvent::Done {
            message_id: 0,
            stack_id: 0,
            content,
            input_tokens: None,
            output_tokens: None,
        }),
{
    ServerEvent::Done {
        message_id: 0,
        stack_id: 0,
        content,
        input_tokens: None,
        output_tokens: None,
    }
}

/// The answer to a message that could not be read.
pub fn invalid_message(error: &str) -> (r: ServerEvent)
    ensures
        r matches ServerEvent::Error { message } && message@ == "invalid message: "@ + error@,
{
    let mut t: String = "invalid message: ".to_owned();
    t.append(error);
    ServerEvent::Error { message: t }
}

/// The answer to a change of the home source.
pub fn sethome_reply(outcome: &Result<(), String>) -> (r: String)
    ensures
        r@ == match *outcome {
            Ok(_) =>
                "🏠 Web impostato come **home**. Le notifiche degli agenti arriveranno qui."@,
            Err(e) => "⚠️ Errore: "@ + e@,
        },
{
    match outcome {
        Ok(_) =>
            "🏠 Web impostato come **home**. Le notifiche degli agenti arriveranno qui.".to_owned(),
        Err(e) => {
            let mut t: String = "⚠️ Errore: ".to_owned();
            t.append(e.as_str());
            t
        },
    }
}

/// A number of tokens as shown.
pub open spec fn token_text(n: Option<i64>) -> Seq<char> {
    match n {
        Some(n) => decimal(n as int),
        None => "?"@,
    }
}

fn show_tokens(n: Option<i64>) -> (r: String)
    ensures
        r@ == token_text(n),
{
    match n {
        Some(n) => i64_text(n),
        None => "?".to_owned(),
    }
}

/// The token usage of the last turn as shown.
pub fn context_reply(input: Option<i64>, output: Option<i64>) -> (r: String)
    ensures
        r@ == "↑"@ + token_text(input) + " tok · ↓"@ + token_text(output) + " tok"@,
{
    let i: String = show_tokens(input);
    let o: String = show_tokens(output);
    let mut t: String = "↑".to_owned();
    t.append(i.as_str());
    t.append(" tok · ↓");
    t.append(o.as_str());
    t.append(" tok");
    t
}

/// The answer to a request for a session's cost where none is known.
pub fn no_cost_reply() -> (r: String)
    ensures
        r@ == "💰 Nessun costo registrato per questa sessione."@,
{
    "💰 Nessun costo registrato per questa sessione.".to_owned()
}

/// The answer to a compaction that took place or was skipped.
pub fn compact_reply(compacted: bool) -> (r: String)
    ensures
        r@ == if compacted {
            "✅ Contesto compattato."@
        } else {
            "⏩ Compattazione saltata (nessun messaggio da riassumere o compattazione disabilitata)."@
        },
{
    if compacted {
        "✅ Contesto compattato.".to_owned()
    } else {
        "⏩ Compattazione saltata (nessun messaggio da riassumere o compattazione disabilitata).".to_owned()
    }
}

/// The answer to a removal of the activated MCP tools.
pub fn resetmcp_reply() -> (r: String)
    ensures
        r@ == "✅ MCP tools removed from the session."@,
{
    "✅ MCP tools removed from the session.".to_owned()
}

/// What came of a `/model` command.
#[derive(Debug)]
pub enum ModelCommandOutcome {
    Chosen(String),
    Cleared,
    Error(String),
}

/// The answer to a `/model` command.
pub fn model_reply(outcome: &ModelCommandOutcome) -> (r: String)
    ensures
        r@ == match *outcome {
            ModelCommandOutcome::Chosen(name) => "✅ Model set: **"@ + name@ + "**"@,
            ModelCommandOutcome::Cleared => "✅ Model reset to **auto**."@,
            ModelCommandOutcome::Error(e) => "⚠️ "@ + e@,
        },
{
    match outcome {
        ModelCommandOutcome::Chosen(name) => {
            let mut t: String = "✅ Model set: **".to_owned();
            t.append(name.as_str());
            t.append("**");
            t
        },
        ModelCommandOutcome::Cleared => "✅ Model reset to **auto**.".to_owned(),
        ModelCommandOutcome::Error(e) => {
            let mut t: String = "⚠️ ".to_owned();
            t.append(e.as_str());
            t
        },
    }
}

/// The answer to a command that is not known.
pub fn unknown_reply(word: &str) -> (r: String)
    ensures
        r@ == "Unknown command: "@ + word@ + "\n\n"@ + HELP_TEXT@,
{
    let mut t: String = "Unknown command: ".to_owned();
    t.append(word);
    t.append("\n\n");
    t.append(HELP_TEXT);
    t
}

/// A model in the list for `/models`.
#[derive(Debug)]
pub struct ModelItem {
    pub number: usize,
    pub name: String,
    pub is_current: bool,
}

/// One line of the list of models.
pub open spec fn model_line(m: ModelItem) -> Seq<char> {
    let marker = if m.is_current {
        "●"@
    } else {
        "○"@
    };
    marker + " `"@ + pad_left(decimal_nat(m.number as nat), 2) + "`  "@ + m.name@ + "\n"@
}

/// The lines of the list of models.
pub open spec fn model_lines(items: Seq<ModelItem>) -> Seq<char>
    decreases items.len(),
{
    if items.len() == 0 {
        Seq::empty()
    } else {
        model_lines(items.drop_last()) + model_line(items.last())
    }
}

/// The list of models.
pub fn format_models_md(items: &Vec<ModelItem>) -> (r: String)
    ensures
        r@ == "**Available models**\n\n"@ + model_lines(items@)
            + "\nUse `/model N`, `/model name`, or `/model auto`."@,
{
    let mut text: String = "**Available models**\n\n".to_owned();
    let ghost start = text@;
    let mut i: usize = 0;
    assert(text@ =~= start + model_lines(items@.take(0)));
    while i < items.len()
        invariant
            i <= items@.len(),
            text@ == start + model_lines(items@.take(i as int)),
        decreases items@.len() - i,
    {
        assert(items@.take(i + 1).drop_last() =~= items@.take(i as int));
        let ghost had = text@;
        let m: &ModelItem = &items[i];
        let digits: String = usize_text(m.number);
        let number: String = padded(digits.as_str(), 2);
        if m.is_current {
            text.append("●");
        } else {
            text.append("○");
        }
        text.append(" `");
        text.append(number.as_str());
        text.append("`  ");
        text.append(m.name.as_str());
        text.append("\n");
        assert(text@ =~= had + model_line(items@[i as int]));
        i = i + 1;
        assert(text@ =~= start + model_lines(items@.take(i as int)));
    }
    assert(items@.take(items@.len() as int) =~= items@);
    text.append("\nUse `/model N`, `/model name`, or `/model auto`.");
    text
}

/// How a chat message of the web is sent to the model.
pub fn message_options(attachments: Vec<Attachment>, client_name: Option<String>) -> (r:
    SendMessageOptions)
    ensures
        match r.metadata {
            Some(m) => attachments@.len() > 0 && m.attachments == attachments,
            None => attachments@.len() == 0,
        },
        r.client_name == client_name,
        opt_text(r.extra_system_context) == Some(WEB_FORMAT_CONTEXT@),
        r.extra_system_dynamic is None,
        r.tail_reminder is None,
        r.system_substitutions@.len() == 0,
        !r.is_synthetic,
        r.agent_id is None,
{
    let metadata: Option<MessageMetadata> = if attachments.len() > 0 {
        Some(MessageMetadata { attachments })
    } else {
        None
    };
    SendMessageOptions {
        client_name,
        extra_system_context: Some(WEB_FORMAT_CONTEXT.to_owned()),
        extra_system_dynamic: None,
        tail_reminder: None,
        system_substitutions: Vec::new(),
        is_synthetic: false,
        metadata,
        agent_id: None,
    }
}

/// Whether an event goes to a client: where it is of the client's source, or
/// tells of a resolved approval, which every client gets.
pub fn forwards(event: &GlobalEvent, source: &str) -> (r: bool)
    ensures
        r == (opt_text(event.source) == Some(source@) || event.event is ApprovalResolved),
{
    let own: bool = match &event.source {
        Some(s) => str_eq(s.as_str(), source),
        None => false,
    };
    let resolved: bool = match &event.event {
        ServerEvent::ApprovalResolved { .. } => true,
        _ => false,
    };
    own || resolved
}

/// What a client says to a session: to go on or to stop, by the type of the
/// message; nothing that cannot be read.
pub proof fn law_stop_and_go(text: &str, cancel: bool, resume: bool, r: Option<Control>, j: JsonView)
    requires
        call_ensures(is_cancel_msg, (text,), cancel),
        call_ensures(is_resume_msg, (text,), resume),
        call_ensures(control, (text,), r),
    ensures
        parsed_json(text@) is None ==> !cancel && !resume && r is None,
        parsed_json(text@) == Some(j) ==> (cancel <==> j.field("type"@) == JsonView::Text(
            "cancel"@,
        )),
        parsed_json(text@) == Some(j) ==> (resume <==> j.field("type"@) == JsonView::Text(
            "resume"@,
        )),
        resume ==> r is Some && r->Some_0 is Resume,
        cancel ==> r is Some && r->Some_0 is Cancel,
{
    reveal_strlit("cancel");
    reveal_strlit("resume");
    assert("cancel"@[0] == 'c' && "resume"@[0] == 'r');
    lemma_controls(r);
}

proof fn lemma_controls(r: Option<Control>)
    ensures
        r matches Some(c) ==> {
            &&& c@ is Resume <==> c is Resume
            &&& c@ is Cancel <==> c is Cancel
            &&& c@ is Approve <==> c is Approve
            &&& c@ is ApproveWithBypass <==> c is ApproveWithBypass
            &&& c@ is Reject <==> c is Reject
            &&& c@ is Answer <==> c is Answer
            &&& c@ is Data <==> c is Data
            &&& c@ is Select <==> c is Select
        },
{
}

/// An approval names its request. It is one with a bypass where it says for how
/// long, zero meaning the rest of the session; a rejection carries its note.
pub proof fn law_approvals(v: &Json, r: Option<Control>, id: Option<i64>, secs: Option<u64>, key: &str, secs_key: &str)
    requires
        call_ensures(handle_approval_msg, (v,), r),
        call_ensures(Json::i64_field, (v, key), id),
        key@ == "request_id"@,
        call_ensures(Json::u64_field, (v, secs_key), secs),
        secs_key@ == "bypass_secs"@,
    ensures
        id is None ==> r is None,
        ({
            let kind = v@.field("type"@);
            let approves = kind == JsonView::Text("approve_write"@) || kind == JsonView::Text(
                "approve_tool"@,
            );
            let rejects = kind == JsonView::Text("reject_write"@) || kind == JsonView::Text(
                "reject_tool"@,
            );
            &&& r is Some <==> id is Some && (approves || rejects)
            &&& r matches Some(Control::Approve(n)) ==> approves && Some(n) == id && secs is None
            &&& r matches Some(Control::ApproveWithBypass(n, s)) ==> approves && Some(n) == id
                && secs is Some && s == if secs == Some(0u64) {
                None
            } else {
                secs
            }
            &&& r matches Some(Control::Reject(n, note)) ==> rejects && Some(n) == id && note@
                == match v@.field("note"@) {
                JsonView::Text(t) => t,
                _ => ""@,
            }
            &&& r matches Some(c) ==> c is Approve || c is ApproveWithBypass || c is Reject
            &&& approves && id is Some ==> !(r->Some_0 is Reject)
        }),
{
    reveal_strlit("approve_write");
    reveal_strlit("approve_tool");
    reveal_strlit("reject_write");
    reveal_strlit("reject_tool");
    assert("approve_write"@[0] == 'a' && "approve_tool"@[0] == 'a' && "reject_write"@[0] == 'r'
        && "reject_tool"@[0] == 'r');
    lemma_controls(r);
}

/// The other messages of a client: answers to questions, streams of data, live
/// unless they say otherwise, and the choice of a model, where `auto` is none.
pub proof fn law_other_messages(v: &Json, a: Option<Control>, d: Option<Control>, s: Option<Control>, id: Option<i64>, key: &str)
    requires
        call_ensures(handle_question_answer_msg, (v,), a),
        call_ensures(handle_data_msg, (v,), d),
        call_ensures(handle_select_client_msg, (v,), s),
        call_ensures(Json::i64_field, (v, key), id),
        key@ == "request_id"@,
    ensures
        a is Some <==> id is Some && v@.field("type"@) == JsonView::Text("answer_question"@),
        a matches Some(c) ==> (c matches Control::Answer(n, t) && Some(n) == id && t@
            == match v@.field("answer"@) {
            JsonView::Text(x) => x,
            _ => ""@,
        }),
        d is Some <==> v@.field("type"@) == JsonView::Text("data"@),
        d matches Some(c) ==> (c matches Control::Data(stream, live) && opt_text(stream)
            == v@.field("stream"@).as_text() && (!live <==> v@.field("payload"@).field("is_live"@)
            == JsonView::Bool(false))),
        s is Some <==> v@.field("client"@) is Text && v@.field("type"@) == JsonView::Text(
            "select_client"@,
        ),
        s matches Some(c) ==> (c matches Control::Select(client) && (client is None
            <==> v@.field("client"@) == JsonView::Text("auto"@)) && (client matches Some(t)
            ==> v@.field("client"@) == JsonView::Text(t@))),
{
    lemma_controls(a);
    lemma_controls(d);
    lemma_controls(s);
}

/// The commands of a chat, by their names; the model to choose stands behind
/// its command. Anything else that begins with a slash is unknown, and all else
/// is said to the model.
pub proof fn law_commands(content: &str, r: Command, words_of: String, rest: &str, argument: String)
    requires
        call_ensures(command, (content,), r),
        call_ensures(trim, (content,), words_of),
        call_ensures(trim, (rest,), argument),
    ensures
        ({
            let cmd = words_of@;
            &&& r is Clear <==> cmd == "/clear"@ || cmd == "/new"@
            &&& r is SetHome <==> cmd == "/sethome"@
            &&& r is Help <==> cmd == "/help"@
            &&& r is Context <==> cmd == "/context"@
            &&& r is Cost <==> cmd == "/cost"@
            &&& r is Compact <==> cmd == "/compact"@
            &&& r is ResetMcp <==> cmd == "/resetmcp"@
            &&& r is Models <==> cmd == "/models"@
            &&& cmd == "/model"@ + rest@ && rest@ != "s"@ ==> (r matches Command::Model(a) && a@
                == argument@)
            &&& r is Chat <==> !(cmd.len() > 0 && cmd[0] == '/')
        }),
{
    lemma_command_names();
    lemma_commands(r);
    let cmd = trimmed(content@);
    if cmd == "/model"@ + rest@ {
        let lead = "/model"@;
        assert(cmd.take(lead.len() as int) =~= lead);
        assert(cmd.skip(lead.len() as int) =~= rest@);
        assert forall|i: int| 0 <= i < 6 implies cmd[i] == lead[i] by {}
        assert(cmd[1] == 'm');
        if cmd == "/models"@ {
            assert(rest@.len() == 1);
            assert(rest@ =~= "s"@) by {
                assert(cmd[6] == 's');
                reveal_strlit("s");
            }
        }
    }
    if has_prefix(cmd, "/model"@) {
        assert(cmd.take("/model"@.len() as int)[1] == cmd[1]);
        assert(cmd.take("/model"@.len() as int)[0] == cmd[0]);
    }
}

proof fn lemma_commands(r: Command)
    ensures
        r@ is Clear <==> r is Clear,
        r@ is SetHome <==> r is SetHome,
        r@ is Help <==> r is Help,
        r@ is Context <==> r is Context,
        r@ is Cost <==> r is Cost,
        r@ is Compact <==> r is Compact,
        r@ is ResetMcp <==> r is ResetMcp,
        r@ is Models <==> r is Models,
        r@ is Model <==> r is Model,
        r@ is Unknown <==> r is Unknown,
        r@ is Chat <==> r is Chat,
{
}

proof fn lemma_command_names()
    ensures
        "/clear"@.len() == 6 && "/clear"@[1] == 'c' && "/clear"@[2] == 'l' && "/clear"@[0] == '/',
        "/new"@.len() == 4 && "/new"@[0] == '/',
        "/sethome"@.len() == 8 && "/sethome"@[1] == 's' && "/sethome"@[0] == '/',
        "/help"@.len() == 5 && "/help"@[1] == 'h' && "/help"@[0] == '/',
        "/context"@.len() == 8 && "/context"@[1] == 'c' && "/context"@[4] == 't' && "/context"@[0] == '/',
        "/cost"@.len() == 5 && "/cost"@[1] == 'c' && "/cost"@[0] == '/',
        "/compact"@.len() == 8 && "/compact"@[1] == 'c' && "/compact"@[4] == 'p' && "/compact"@[0] == '/',
        "/resetmcp"@.len() == 9 && "/resetmcp"@[1] == 'r' && "/resetmcp"@[0] == '/',
        "/models"@.len() == 7 && "/models"@[6] == 's' && "/models"@[0] == '/',
        "/model"@.len() == 6 && "/model"@[1] == 'm' && "/model"@[0] == '/',
{
    reveal_strlit("/clear");
    reveal_strlit("/new");
    reveal_strlit("/sethome");
    reveal_strlit("/help");
    reveal_strlit("/context");
    reveal_strlit("/cost");
    reveal_strlit("/compact");
    reveal_strlit("/resetmcp");
    reveal_strlit("/models");
    reveal_strlit("/model");
}

/// What the commands are answered.
pub proof fn law_replies(
    input: Option<i64>,
    output: Option<i64>,
    tokens: String,
    compacted: bool,
    compact: String,
    outcome: &ModelCommandOutcome,
    model: String,
    home: &Result<(), String>,
    set: String,
)
    requires
        call_ensures(context_reply, (input, output), tokens),
        call_ensures(compact_reply, (compacted,), compact),
        call_ensures(model_reply, (outcome,), model),
        call_ensures(sethome_reply, (home,), set),
    ensures
        tokens@ == "↑"@ + (match input {
            Some(n) => decimal(n as int),
            None => "?"@,
        }) + " tok · ↓"@ + (match output {
            Some(n) => decimal(n as int),
            None => "?"@,
        }) + " tok"@,
        compact@ == if compacted {
            "✅ Contesto compattato."@
        } else {
            "⏩ Compattazione saltata (nessun messaggio da riassumere o compattazione disabilitata)."@
        },
        outcome matches ModelCommandOutcome::Chosen(name) ==> model@ == "✅ Model set: **"@ + name@
            + "**"@,
        outcome is Cleared ==> model@ == "✅ Model reset to **auto**."@,
        outcome matches ModelCommandOutcome::Error(e) ==> model@ == "⚠️ "@ + e@,
        home is Ok ==> set@
            == "🏠 Web impostato come **home**. Le notifiche degli agenti arriveranno qui."@,
        home matches Err(e) ==> set@ == "⚠️ Errore: "@ + e@,
{
}

/// The models are listed one to a line, each with its number and a mark on the
/// one in use.
pub proof fn law_listed_models(items: &Vec<ModelItem>, more: &Vec<ModelItem>, m: ModelItem, r: String, s: String, lines: Seq<char>, number: &str, padded: String)
    requires
        call_ensures(format_models_md, (items,), r),
        call_ensures(format_models_md, (more,), s),
        more@ == items@.push(m),
        number@ == decimal_nat(m.number as nat),
        r@ == "**Available models**\n\n"@ + lines
            + "\nUse `/model N`, `/model name`, or `/model auto`."@,
        padded@ == pad_left(number@, 2),
    ensures
        items@.len() == 0 ==> lines.len() == 0,
        s@ == "**Available models**\n\n"@ + (lines + ((if m.is_current {
            "●"@
        } else {
            "○"@
        }) + " `"@ + padded@ + "`  "@ + m.name@ + "\n"@))
            + "\nUse `/model N`, `/model name`, or `/model auto`."@,
{
    assert(more@.drop_last() =~= items@);
    let head = "**Available models**\n\n"@;
    let tail = "\nUse `/model N`, `/model name`, or `/model auto`."@;
    let own = model_lines(items@);
    assert((head + own + tail).len() == head.len() + own.len() + tail.len());
    assert((head + lines + tail).len() == head.len() + lines.len() + tail.len());
    assert forall|i: int| 0 <= i < own.len() implies own[i] == lines[i] by {
        assert((head + own + tail)[head.len() + i] == own[i]);
        assert((head + lines + tail)[head.len() + i] == lines[i]);
    }
    assert(own =~= lines);
}

/// A client hears of what happens in its own source, and of every answer to a
/// request for approval.
pub proof fn law_what_is_heard(event: &GlobalEvent, source: &str, r: bool)
    requires
        call_ensures(forwards, (event, source), r),
    ensures
        r <==> (event.source is Some && event.source->Some_0@ == source@)
            || event.event is ApprovalResolved,
{
}

/// A message goes with its attachments, the model chosen for it, and how to
/// write for the web.
pub proof fn law_messages_are_sent(attachments: Vec<Attachment>, client: Option<String>, r: SendMessageOptions)
    requires
        call_ensures(message_options, (attachments, client), r),
    ensures
        r.metadata is Some <==> attachments@.len() > 0,
        r.metadata matches Some(m) ==> m.attachments == attachments,
        r.client_name == client,
        r.extra_system_context is Some && r.extra_system_context->Some_0@ == WEB_FORMAT_CONTEXT@,
        !r.is_synthetic,
{
}

/// What a client says is tried in turn: a word on the session, an approval, an
/// answer, data, and the choice of a model.
pub proof fn law_messages_in_turn(
    j: Json,
    parsed: &Option<Json>,
    r: Option<Control>,
    p: Option<Control>,
    a: Option<Control>,
    d: Option<Control>,
    s: Option<Control>,
)
    requires
        call_ensures(control_in, (parsed,), r),
        *parsed == Some(j),
        call_ensures(handle_approval_msg, (&j,), p),
        call_ensures(handle_question_answer_msg, (&j,), a),
        call_ensures(handle_data_msg, (&j,), d),
        call_ensures(handle_select_client_msg, (&j,), s),
    ensures
        j@.field("type"@) == JsonView::Text("resume"@) ==> r is Some && r->Some_0 is Resume,
        j@.field("type"@) == JsonView::Text("cancel"@) ==> r is Some && r->Some_0 is Cancel,
        j@.field("type"@) != JsonView::Text("resume"@) && j@.field("type"@) != JsonView::Text(
            "cancel"@,
        ) ==> {
            &&& p is Some ==> r is Some && r->Some_0@ == p->Some_0@
            &&& p is None && a is Some ==> r is Some && r->Some_0@ == a->Some_0@
            &&& p is None && a is None && d is Some ==> r is Some && r->Some_0@ == d->Some_0@
            &&& p is None && a is None && d is None && s is Some ==> r is Some && r->Some_0@
                == s->Some_0@
            &&& p is None && a is None && d is None && s is None ==> r is None
        },
{
    reveal_strlit("cancel");
    reveal_strlit("resume");
    assert("cancel"@[0] == 'c' && "resume"@[0] == 'r');
    lemma_controls(r);
}

/// The smaller answers of the socket.
pub proof fn law_small_replies(
    params: WsParams,
    source: String,
    content: String,
    end: ServerEvent,
    error: &str,
    bad: ServerEvent,
    cost: String,
    mcp: String,
    word: &str,
    unknown: String,
)
    requires
        call_ensures(handler, (params,), source),
        call_ensures(done, (content,), end),
        call_ensures(invalid_message, (error,), bad),
        call_ensures(no_cost_reply, (), cost),
        call_ensures(resetmcp_reply, (), mcp),
        call_ensures(unknown_reply, (word,), unknown),
    ensures
        params.source matches Some(s) ==> source@ == s@,
        params.source is None ==> source@ == "web"@,
        end == (ServerEvent::Done {
            message_id: 0,
            stack_id: 0,
            content,
            input_tokens: None,
            output_tokens: None,
        }),
        bad matches ServerEvent::Error { message } && message@ == "invalid message: "@ + error@,
        cost@ == "💰 Nessun costo registrato per questa sessione."@,
        mcp@ == "✅ MCP tools removed from the session."@,
        unknown@ == "Unknown command: "@ + word@ + "\n\n"@ + HELP_TEXT@,
{
}

} // verus!
