//! One-line summaries that stand for long tool results of earlier turns.
use vstd::prelude::*;

use crate::bytes::{
    byte_len, byte_prefix, cut_to, is_longest_within, lemma_byte_prefix, lemma_one_longest,
    text_bytes,
};
use crate::json::{parse_json, parsed_json, text_items, texts_among, Json, JsonView};
use crate::numerals::{decimal_nat, grouped, grouped_text, usize_text};
use crate::text::{
    has_prefix, join, joined, lines_of, on_one_line, one_line, split_lines, starts_with, str_eq,
    strip_prefix, texts, trim, trimmed,
};

verus! {

broadcast use vstd::seq_lib::group_seq_properties;

/// A text argument, or a question mark where the call has none.
pub open spec fn arg_text(args: JsonView, key: Seq<char>) -> Seq<char> {
    match args.field(key).as_text() {
        Some(t) => t,
        None => "?"@,
    }
}

/// How many lines a result has; a blank one has none.
pub open spec fn line_count(result: Seq<char>) -> nat {
    if trimmed(result).len() == 0 {
        0
    } else {
        lines_of(result).len()
    }
}

/// The shell command of a call.
pub open spec fn command_of(args: JsonView) -> Seq<char> {
    match args.field("command"@).as_text() {
        Some(t) => t,
        None => Seq::empty(),
    }
}

/// A command as shown: a long one is cut, with an ellipsis.
pub open spec fn shown_command(cmd: Seq<char>) -> Seq<char> {
    if text_bytes(cmd) > 80 {
        byte_prefix(cmd, 77) + "…"@
    } else {
        cmd
    }
}

/// The exit code in the first line of a command's output.
pub open spec fn exit_code_of(result: Seq<char>) -> Seq<char> {
    let lines = lines_of(result);
    if lines.len() > 0 && has_prefix(lines[0], "exit: "@) {
        lines[0].skip("exit: "@.len() as int)
    } else {
        "?"@
    }
}

/// Whether all items of an array are texts.
pub open spec fn all_texts(items: Seq<JsonView>) -> bool {
    forall|i: int| 0 <= i < items.len() ==> (#[trigger] items[i]) is Text
}

/// How many notifications a result lists: the items of an array of texts.
pub open spec fn notification_count(notes: Option<JsonView>) -> nat {
    match notes {
        Some(JsonView::Array(items)) if all_texts(items) => items.len(),
        _ => 0,
    }
}

/// The servers named in a call, separated by commas.
pub open spec fn server_list(args: JsonView) -> Seq<char> {
    match args.field("servers"@) {
        JsonView::Array(items) => joined(texts_among(items), ", "@),
        _ => "?"@,
    }
}

/// The text of the first argument, as far as it is one.
pub open spec fn first_arg_text(args: JsonView) -> Option<Seq<char>> {
    match args {
        JsonView::Object(fields) if fields.len() > 0 => Some(
            match fields[0].1.as_text() {
                Some(t) => t,
                None => Seq::empty(),
            },
        ),
        _ => None,
    }
}

/// The first argument as shown: its name and the beginning of its text.
pub open spec fn shown_first_arg(args: JsonView) -> Seq<char> {
    match first_arg_text(args) {
        Some(t) => " "@ + args->Object_0[0].0 + "="@ + if text_bytes(t) > 40 {
            byte_prefix(t, 40)
        } else {
            t
        },
        None => Seq::empty(),
    }
}

/// The summary of a tool result, on one line whatever the call holds. `notes`
/// is the result read as JSON.
pub open spec fn summary_of(
    tool: Seq<char>,
    args: JsonView,
    result: Seq<char>,
    notes: Option<JsonView>,
) -> Seq<char> {
    one_line(worded(tool, args, result, notes))
}

/// The words of a summary, with the call's arguments as they are.
pub open spec fn worded(
    tool: Seq<char>,
    args: JsonView,
    result: Seq<char>,
    notes: Option<JsonView>,
) -> Seq<char> {
    let chars = grouped(result.len());
    if tool == "execute_cmd"@ {
        "[execute_cmd] ran `"@ + shown_command(command_of(args)) + "` → exit "@ + exit_code_of(
            result,
        ) + ", "@ + decimal_nat(line_count(result)) + " lines output"@
    } else if tool == "read_file"@ || tool == "read_file_chunk"@ {
        "["@ + tool + "] read "@ + arg_text(args, "path"@) + " ("@ + chars + " chars)"@
    } else if tool == "write_file"@ {
        "[write_file] wrote to "@ + arg_text(args, "path"@)
    } else if tool == "edit_file"@ || tool == "patch_file"@ {
        "["@ + tool + "] edited "@ + arg_text(args, "path"@)
    } else if tool == "list_dir"@ || tool == "glob"@ {
        "["@ + tool + "] "@ + match args.field("path"@).as_text() {
            Some(p) => p,
            None => arg_text(args, "pattern"@),
        } + " ("@ + chars + " chars)"@
    } else if tool == "list_items"@ {
        "[list_items] "@ + arg_text(args, "type"@) + " ("@ + chars + " chars)"@
    } else if tool == "toggle_item"@ {
        "[toggle_item] "@ + arg_text(args, "kind"@) + " '"@ + arg_text(args, "id"@) + "' → "@
            + if args.field("enabled"@).as_bool() == Some(true) {
            "enabled"@
        } else {
            "disabled"@
        }
    } else if tool == "read_notification"@ {
        "[read_notification] "@ + decimal_nat(notification_count(notes)) + " notification(s)"@
    } else if tool == "call_agent"@ {
        "[call_agent] → "@ + arg_text(args, "agent_id"@) + " ("@ + chars + " chars result)"@
    } else if tool == "show_mcp_tools"@ {
        "[show_mcp_tools] loaded: "@ + server_list(args)
    } else if has_prefix(tool, "mcp__"@) {
        "["@ + tool + "] ("@ + chars + " chars result)"@
    } else {
        "["@ + tool + "]"@ + shown_first_arg(args) + " ("@ + chars + " chars result)"@
    }
}

fn arg_or_mark(args: &Json, key: &str) -> (r: String)
    ensures
        r@ == arg_text(args@, key@),
{
    match args.text_field(key) {
        Some(t) => t,
        None => "?".to_owned(),
    }
}

fn count_lines(result: &str) -> (r: usize)
    ensures
        r == line_count(result@),
{
    let t: String = trim(result);
    if t.as_str().unicode_len() == 0 {
        0
    } else {
        let lines: Vec<String> = split_lines(result);
        assert(texts(lines@).len() == lines@.len());
        lines.len()
    }
}

fn exit_code(result: &str) -> (r: String)
    ensures
        r@ == exit_code_of(result@),
{
    let lines: Vec<String> = split_lines(result);
    assert(texts(lines@).len() == lines@.len());
    if lines.len() == 0 {
        return "?".to_owned();
    }
    assert(texts(lines@)[0] == lines@[0]@);
    match strip_prefix(lines[0].as_str(), "exit: ") {
        Some(code) => code,
        None => "?".to_owned(),
    }
}

fn count_notifications(notes: Option<&Json>) -> (r: usize)
    ensures
        r == notification_count(
            match notes {
                Some(j) => Some(j@),
                None => None,
            },
        ),
{
    match notes {
        Some(Json::Array(items)) => {
            let ghost all = notes.unwrap()@->Array_0;
            let mut i: usize = 0;
            while i < items.len()
                invariant
                    i <= items@.len(),
                    all == crate::json::json_view(Json::Array(*items))->Array_0,
                    forall|k: int| 0 <= k < i ==> (#[trigger] all[k]) is Text,
                    notes matches Some(j) && j@ == JsonView::Array(all),
                decreases items@.len() - i,
            {
                assert(all[i as int] == items@[i as int]@);
                if items[i].as_text().is_none() {
                    return 0;
                }
                i = i + 1;
            }
            items.len()
        },
        _ => 0,
    }
}

fn servers_text(args: &Json) -> (r: String)
    ensures
        r@ == server_list(args@),
{
    match args.get("servers") {
        Some(j) => match text_items(j) {
            Some(v) => join(&v, ", "),
            None => "?".to_owned(),
        },
        None => "?".to_owned(),
    }
}

/// A command as shown.
fn command_text(args: &Json) -> (r: String)
    ensures
        r@ == shown_command(command_of(args@)),
{
    let cmd: String = match args.text_field("command") {
        Some(t) => t,
        None => String::new(),
    };
    if byte_len(cmd.as_str()) > 80 {
        let mut t: String = cut_to(cmd.as_str(), 77);
        t.append("…");
        t
    } else {
        cmd
    }
}

/// The first argument as shown.
fn first_arg(args: &Json) -> (r: String)
    ensures
        r@ == shown_first_arg(args@),
{
    match args {
        Json::Object(fields) => {
            if fields.len() == 0 {
                return String::new();
            }
            assert(args@->Object_0[0] == (fields@[0].0@, fields@[0].1@));
            let text: String = match fields[0].1.as_text() {
                Some(t) => t.clone(),
                None => String::new(),
            };
            let shown: String = if byte_len(text.as_str()) > 40 {
                cut_to(text.as_str(), 40)
            } else {
                text
            };
            let mut out: String = " ".to_owned();
            out.append(fields[0].0.as_str());
            out.append("=");
            out.append(shown.as_str());
            out
        },
        _ => String::new(),
    }
}

fn joined4(a: &str, b: &str, c: &str, d: &str) -> (r: String)
    ensures
        r@ == a@ + b@ + c@ + d@,
{
    let mut out: String = a.to_owned();
    out.append(b);
    out.append(c);
    out.append(d);
    out
}

fn worded_text(tool: &str, args: &Json, result: &str, notes: Option<&Json>) -> (r: String)
    ensures
        r@ == worded(
            tool@,
            args@,
            result@,
            match notes {
                Some(j) => Some(j@),
                None => None,
            },
        ),
{
    let chars: String = grouped_text(result.unicode_len() as u64);
    if str_eq(tool, "execute_cmd") {
        let cmd: String = command_text(args);
        let code: String = exit_code(result);
        let lines: String = usize_text(count_lines(result));
        let mut out: String = joined4("[execute_cmd] ran `", cmd.as_str(), "` → exit ", code.as_str());
        out.append(", ");
        out.append(lines.as_str());
        out.append(" lines output");
        return out;
    }
    if str_eq(tool, "read_file") || str_eq(tool, "read_file_chunk") {
        let path: String = arg_or_mark(args, "path");
        let mut out: String = joined4("[", tool, "] read ", path.as_str());
        out.append(" (");
        out.append(chars.as_str());
        out.append(" chars)");
        return out;
    }
    if str_eq(tool, "write_file") {
        let path: String = arg_or_mark(args, "path");
        let mut out: String = "[write_file] wrote to ".to_owned();
        out.append(path.as_str());
        return out;
    }
    if str_eq(tool, "edit_file") || str_eq(tool, "patch_file") {
        let path: String = arg_or_mark(args, "path");
        return joined4("[", tool, "] edited ", path.as_str());
    }
    if str_eq(tool, "list_dir") || str_eq(tool, "glob") {
        let path: String = match args.text_field("path") {
            Some(p) => p,
            None => arg_or_mark(args, "pattern"),
        };
        let mut out: String = joined4("[", tool, "] ", path.as_str());
        out.append(" (");
        out.append(chars.as_str());
        out.append(" chars)");
        return out;
    }
    if str_eq(tool, "list_items") {
        let kind: String = arg_or_mark(args, "type");
        let mut out: String = joined4("[list_items] ", kind.as_str(), " (", chars.as_str());
        out.append(" chars)");
        return out;
    }
    if str_eq(tool, "toggle_item") {
        let kind: String = arg_or_mark(args, "kind");
        let id: String = arg_or_mark(args, "id");
        let enabled: bool = match args.bool_field("enabled") {
            Some(b) => b,
            None => false,
        };
        let mut out: String = joined4("[toggle_item] ", kind.as_str(), " '", id.as_str());
        out.append("' → ");
        if enabled {
            out.append("enabled");
        } else {
            out.append("disabled");
        }
        return out;
    }
    if str_eq(tool, "read_notification") {
        let count: String = usize_text(count_notifications(notes));
        let mut out: String = "[read_notification] ".to_owned();
        out.append(count.as_str());
        out.append(" notification(s)");
        return out;
    }
    if str_eq(tool, "call_agent") {
        let agent: String = arg_or_mark(args, "agent_id");
        let mut out: String = joined4("[call_agent] → ", agent.as_str(), " (", chars.as_str());
        out.append(" chars result)");
        return out;
    }
    if str_eq(tool, "show_mcp_tools") {
        let servers: String = servers_text(args);
        let mut out: String = "[show_mcp_tools] loaded: ".to_owned();
        out.append(servers.as_str());
        return out;
    }
    if starts_with(tool, "mcp__") {
        let mut out: String = joined4("[", tool, "] (", chars.as_str());
        out.append(" chars result)");
        return out;
    }
    let arg: String = first_arg(args);
    let mut out: String = joined4("[", tool, "]", arg.as_str());
    out.append(" (");
    out.append(chars.as_str());
    out.append(" chars result)");
    out
}

/// The summary of a tool result, given the call's arguments and the result
/// read as JSON.
pub fn summarize_with(tool: &str, args: &Json, result: &str, notes: Option<&Json>) -> (r: String)
    ensures
        r@ == summary_of(
            tool@,
            args@,
            result@,
            match notes {
                Some(j) => Some(j@),
                None => None,
            },
        ),
        forall|i: int| 0 <= i < r@.len() ==> r@[i] != '\n',
{
    let text: String = worded_text(tool, args, result, notes);
    on_one_line(text.as_str())
}

/// The arguments of a call as JSON; `Null` where there are none or they are
/// not JSON.
pub open spec fn arguments_of(arguments: Option<Seq<char>>) -> JsonView {
    match arguments {
        Some(a) => match parsed_json(a) {
            Some(j) => j,
            None => JsonView::Null,
        },
        None => JsonView::Null,
    }
}

/// Creates a one-line summary of a tool call's result.
pub fn summarize_tool_result(tool: &str, arguments: Option<&str>, result: &str) -> (r: String)
    ensures
        r@ == summary_of(
            tool@,
            arguments_of(
                match arguments {
                    Some(a) => Some(a@),
                    None => None,
                },
            ),
            result@,
            parsed_json(result@),
        ),
        forall|i: int| 0 <= i < r@.len() ==> r@[i] != '\n',
{
    let args: Json = match arguments {
        Some(a) => match parse_json(a) {
            Some(j) => j,
            None => Json::Null,
        },
        None => Json::Null,
    };
    if !str_eq(tool, "read_notification") {
        return summarize_with(tool, &args, result, None);
    }
    match parse_json(result) {
        Some(j) => summarize_with(tool, &args, result, Some(&j)),
        None => summarize_with(tool, &args, result, None),
    }
}

/// The one line that stands for a result, by the tool that gave it. The words
/// are put on one line; a long command is cut behind 77 bytes.
pub proof fn law_summaries(
    tool: &str,
    args: &Json,
    result: &str,
    notes: Option<&Json>,
    r: String,
    words: &str,
    line: String,
    path: Seq<char>,
    chars: Seq<char>,
)
    requires
        call_ensures(summarize_with, (tool, args, result, notes), r),
        call_ensures(on_one_line, (words,), line),
        path == match args@.field("path"@) {
            JsonView::Text(t) => t,
            _ => "?"@,
        },
        chars == grouped(result@.len()),
    ensures
        tool@ == "write_file"@ && words@ == "[write_file] wrote to "@ + path ==> r@ == line@,
        tool@ == "read_file"@ && words@ == "["@ + "read_file"@ + "] read "@ + path + " ("@ + chars
            + " chars)"@ ==> r@ == line@,
        tool@ == "read_file_chunk"@ && words@ == "["@ + "read_file_chunk"@ + "] read "@ + path + " ("@
            + chars + " chars)"@ ==> r@ == line@,
        tool@ == "edit_file"@ && words@ == "["@ + "edit_file"@ + "] edited "@ + path ==> r@ == line@,
        tool@ == "patch_file"@ && words@ == "["@ + "patch_file"@ + "] edited "@ + path ==> r@ == line@,
        (tool@ == "list_dir"@ || tool@ == "glob"@) && args@.field("path"@) is Text && words@ == "["@
            + tool@ + "] "@ + path + " ("@ + chars + " chars)"@ ==> r@ == line@,
{
    lemma_tool_names();
}

/// The names of the tools with a summary of their own are different.
proof fn lemma_tool_names()
    ensures
        "execute_cmd"@.len() == 11,
        "read_file"@.len() == 9,
        "read_file_chunk"@.len() == 15,
        "write_file"@.len() == 10 && "write_file"@[0] == 'w',
        "edit_file"@.len() == 9 && "edit_file"@[0] == 'e' && "read_file"@[0] == 'r',
        "patch_file"@.len() == 10 && "patch_file"@[0] == 'p',
        "list_dir"@.len() == 8,
        "glob"@.len() == 4,
        "list_items"@.len() == 10 && "list_items"@[0] == 'l',
        "toggle_item"@.len() == 11 && "toggle_item"@[0] == 't' && "execute_cmd"@[0] == 'e',
        "read_notification"@.len() == 17,
        "call_agent"@.len() == 10 && "call_agent"@[0] == 'c',
        "show_mcp_tools"@.len() == 14,
{
    reveal_strlit("execute_cmd");
    reveal_strlit("read_file");
    reveal_strlit("read_file_chunk");
    reveal_strlit("write_file");
    reveal_strlit("edit_file");
    reveal_strlit("patch_file");
    reveal_strlit("list_dir");
    reveal_strlit("glob");
    reveal_strlit("list_items");
    reveal_strlit("toggle_item");
    reveal_strlit("read_notification");
    reveal_strlit("call_agent");
    reveal_strlit("show_mcp_tools");
}

/// The same, of the tools on items, notifications, agents and servers.
pub proof fn law_more_summaries(
    tool: &str,
    args: &Json,
    result: &str,
    notes: Option<&Json>,
    r: String,
    words: &str,
    line: String,
    arg: spec_fn(Seq<char>) -> Seq<char>,
    chars: Seq<char>,
)
    requires
        call_ensures(summarize_with, (tool, args, result, notes), r),
        call_ensures(on_one_line, (words,), line),
        forall|key: Seq<char>| #[trigger] arg(key) == match args@.field(key) {
            JsonView::Text(t) => t,
            _ => "?"@,
        },
        chars == grouped(result@.len()),
    ensures
        (tool@ == "list_dir"@ || tool@ == "glob"@) && !(args@.field("path"@) is Text) && words@
            == "["@ + tool@ + "] "@ + arg("pattern"@) + " ("@ + chars + " chars)"@ ==> r@ == line@,
        tool@ == "list_items"@ && words@ == "[list_items] "@ + arg("type"@) + " ("@ + chars
            + " chars)"@ ==> r@ == line@,
        tool@ == "toggle_item"@ && args@.field("enabled"@) == JsonView::Bool(true) && words@
            == "[toggle_item] "@ + arg("kind"@) + " '"@ + arg("id"@) + "' → "@ + "enabled"@ ==> r@
            == line@,
        tool@ == "toggle_item"@ && args@.field("enabled"@) != JsonView::Bool(true) && words@
            == "[toggle_item] "@ + arg("kind"@) + " '"@ + arg("id"@) + "' → "@ + "disabled"@ ==> r@
            == line@,
        tool@ == "call_agent"@ && words@ == "[call_agent] → "@ + arg("agent_id"@) + " ("@ + chars
            + " chars result)"@ ==> r@ == line@,
{
    lemma_tool_names();
    assert(arg("pattern"@) == arg_text(args@, "pattern"@));
    assert(arg("type"@) == arg_text(args@, "type"@));
    assert(arg("kind"@) == arg_text(args@, "kind"@));
    assert(arg("id"@) == arg_text(args@, "id"@));
    assert(arg("agent_id"@) == arg_text(args@, "agent_id"@));
}

/// The summary of a command: what was run, how it ended, and how many lines it
/// wrote; a blank result has none. How it ended stands in the first line of the
/// result.
pub proof fn law_command_summaries(
    args: &Json,
    result: &str,
    notes: Option<&Json>,
    tool: &str,
    r: String,
    words: &str,
    line: String,
    cmd: Seq<char>,
    cut: Seq<char>,
    shown: Seq<char>,
    code: Seq<char>,
    lines: Vec<String>,
    bare: String,
)
    requires
        call_ensures(summarize_with, (tool, args, result, notes), r),
        tool@ == "execute_cmd"@,
        call_ensures(on_one_line, (words,), line),
        call_ensures(split_lines, (result,), lines),
        call_ensures(trim, (result,), bare),
        words@ == "[execute_cmd] ran `"@ + shown + "` → exit "@ + code + ", "@ + decimal_nat(
            if bare@.len() == 0 {
                0
            } else {
                lines@.len()
            },
        ) + " lines output"@,
        cmd == match args@.field("command"@) {
            JsonView::Text(t) => t,
            _ => Seq::empty(),
        },
        text_bytes(cmd) <= 80 ==> shown == cmd,
        text_bytes(cmd) > 80 ==> shown == cut + "…"@ && is_longest_within(cut, cmd, 77),
        if lines@.len() > 0 && exists|t: Seq<char>| lines@[0]@ == #[trigger] ("exit: "@ + t) {
            lines@[0]@ == "exit: "@ + code
        } else {
            code == "?"@
        },
    ensures
        r@ == line@,
{
    lemma_tool_names();
    lemma_byte_prefix(cmd, 77);
    if text_bytes(cmd) > 80 {
        lemma_one_longest(cut, byte_prefix(cmd, 77), cmd, 77);
    }
    let all = lines_of(result@);
    assert(texts(lines@).len() == lines@.len());
    if lines@.len() > 0 {
        let first = lines@[0]@;
        assert(all[0] == first);
        let lead = "exit: "@;
        if has_prefix(first, lead) {
            assert(first =~= lead + first.skip(lead.len() as int));
        }
        if exists|t: Seq<char>| first == #[trigger] (lead + t) {
            let t = choose|t: Seq<char>| first == #[trigger] (lead + t);
            assert(first.take(lead.len() as int) =~= lead);
            assert(first.skip(lead.len() as int) =~= code);
        }
    }
    assert(exit_code_of(result@) == code);
    assert(shown_command(cmd) == shown);
}

/// The summary of another tool: the servers whose tools were loaded; the length
/// of the result of a tool of a server; else the first argument, cut behind 40
/// bytes, and the length.
pub proof fn law_other_summaries(
    tool: &str,
    args: &Json,
    result: &str,
    notes: Option<&Json>,
    r: String,
    words: &str,
    line: String,
    chars: Seq<char>,
    value: Seq<char>,
    shown: Seq<char>,
)
    requires
        call_ensures(summarize_with, (tool, args, result, notes), r),
        call_ensures(on_one_line, (words,), line),
        chars == grouped(result@.len()),
    ensures
        tool@ == "show_mcp_tools"@ && !(args@.field("servers"@) is Array) && words@
            == "[show_mcp_tools] loaded: "@ + "?"@ ==> r@ == line@,
        tool@ == "read_notification"@ && (notes is None || !(notes->Some_0@ is Array)) && words@
            == "[read_notification] "@ + decimal_nat(0) + " notification(s)"@ ==> r@ == line@,
        has_prefix(tool@, "mcp__"@) && words@ == "["@ + tool@ + "] ("@ + chars + " chars result)"@
            ==> r@ == line@,
        !is_summarised(tool@) && !has_prefix(tool@, "mcp__"@) && !(args@ is Object) && words@ == "["@
            + tool@ + "]"@ + " ("@ + chars + " chars result)"@ ==> r@ == line@,
        !is_summarised(tool@) && !has_prefix(tool@, "mcp__"@) && (args@ matches JsonView::Object(
            fields,
        ) && fields.len() > 0 && fields[0].1 == JsonView::Text(value) && text_bytes(value) <= 40
            && words@ == "["@ + tool@ + "]"@ + (" "@ + fields[0].0 + "="@ + value) + " ("@ + chars
            + " chars result)"@) ==> r@ == line@,
        !is_summarised(tool@) && !has_prefix(tool@, "mcp__"@) && (args@ matches JsonView::Object(
            fields,
        ) && fields.len() > 0 && fields[0].1 == JsonView::Text(value) && is_longest_within(
            shown,
            value,
            40,
        ) && words@ == "["@ + tool@ + "]"@ + (" "@ + fields[0].0 + "="@ + shown) + " ("@ + chars
            + " chars result)"@) ==> r@ == line@,
{
    lemma_tool_names();
    reveal_strlit("mcp__");
    assert("mcp__"@[0] == 'm');
    assert("read_notification"@[0] == 'r') by {
        reveal_strlit("read_notification");
    }
    assert("show_mcp_tools"@[0] == 's') by {
        reveal_strlit("show_mcp_tools");
    }
    assert("read_file_chunk"@[0] == 'r') by {
        reveal_strlit("read_file_chunk");
    }
    assert("list_dir"@[0] == 'l') by {
        reveal_strlit("list_dir");
    }
    assert("glob"@[0] == 'g') by {
        reveal_strlit("glob");
    }
    if has_prefix(tool@, "mcp__"@) {
        assert(tool@.take("mcp__"@.len() as int)[0] == tool@[0]);
        assert(tool@[0] == 'm');
    }
    if !(args@ is Object) {
        assert("["@ + tool@ + "]"@ + Seq::<char>::empty() =~= "["@ + tool@ + "]"@);
    }
    lemma_byte_prefix(value, 40);
    if is_longest_within(shown, value, 40) {
        lemma_one_longest(shown, byte_prefix(value, 40), value, 40);
    }
}

/// The tools with a summary of their own.
pub open spec fn is_summarised(tool: Seq<char>) -> bool {
    ||| tool == "execute_cmd"@
    ||| tool == "read_file"@
    ||| tool == "read_file_chunk"@
    ||| tool == "write_file"@
    ||| tool == "edit_file"@
    ||| tool == "patch_file"@
    ||| tool == "list_dir"@
    ||| tool == "glob"@
    ||| tool == "list_items"@
    ||| tool == "toggle_item"@
    ||| tool == "read_notification"@
    ||| tool == "call_agent"@
    ||| tool == "show_mcp_tools"@
}

/// A stored result is summarised by its stored arguments; where they cannot be
/// read, as though there were none.
pub proof fn law_stored_results_are_summarised(
    tool: &str,
    arguments: Option<&str>,
    result: &str,
    r: String,
    args: &Json,
    notes: Option<&Json>,
    s: String,
)
    requires
        call_ensures(summarize_tool_result, (tool, arguments, result), r),
        call_ensures(summarize_with, (tool, args, result, notes), s),
        arguments is None ==> args@ == JsonView::Null,
        arguments matches Some(a) ==> args@ == match parsed_json(a@) {
            Some(j) => j,
            None => JsonView::Null,
        },
        match notes {
            Some(j) => parsed_json(result@) == Some(j@),
            None => parsed_json(result@) is None,
        },
    ensures
        r@ == s@,
{
}

/// The summary of notifications that were read tells how many there are; a
/// result that is no array, or holds a single item that is no text, counts none.
pub proof fn law_counted_notifications(
    tool: &str,
    args: &Json,
    result: &str,
    notes: Option<&Json>,
    r: String,
    words: &str,
    line: String,
    items: Seq<JsonView>,
    i: int,
)
    requires
        call_ensures(summarize_with, (tool, args, result, notes), r),
        call_ensures(on_one_line, (words,), line),
        tool@ == "read_notification"@,
        notes matches Some(j) && j@ == JsonView::Array(items),
    ensures
        (forall|k: int| 0 <= k < items.len() ==> (#[trigger] items[k]) is Text) && words@
            == "[read_notification] "@ + decimal_nat(items.len()) + " notification(s)"@ ==> r@
            == line@,
        0 <= i < items.len() && !(items[i] is Text) && words@ == "[read_notification] "@
            + decimal_nat(0) + " notification(s)"@ ==> r@ == line@,
{
    lemma_tool_names();
}

} // verus!
