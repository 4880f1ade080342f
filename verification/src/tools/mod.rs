//! Tool names, categories and labels.
pub mod catalog;
pub mod grep;
pub mod images;
pub mod items;
pub mod mcp_tools;
pub mod outline;
pub mod plugins;
pub mod registry;
pub mod search;
pub mod search_run;
pub mod secrets;
pub mod tasks;
pub mod walk;

use vstd::prelude::*;

use crate::text::str_eq;

verus! {

broadcast use vstd::seq_lib::group_seq_properties;

/// What kind of work a registered tool does.
#[derive(Debug, Clone, Copy, PartialEq, Eq, Structural)]
pub enum ToolCategory {
    Filesystem,
    Shell,
    Subagent,
    Introspection,
    Config,
}

/// How much of a tool call a label shows.
#[derive(Debug, Clone, Copy, PartialEq, Eq, Structural)]
pub enum ToolDescriptionLength {
    Short,
    Full,
}

pub const MAX_LABEL_SHORT: usize = 60;

pub const MAX_LABEL_FULL: usize = 120;

/// The tools that write or modify files on disk.
pub open spec fn file_write_tools() -> Seq<Seq<char>> {
    seq!["write_file"@, "edit_file"@, "insert_at_line"@, "replace_lines"@]
}

/// The tools that read file contents or directory listings from disk.
pub open spec fn file_read_tools() -> Seq<Seq<char>> {
    seq!["read_file"@, "grep_files"@, "list_files"@, "search_file"@, "get_ast_outline"@]
}

/// Returns `true` if `name` is a tool that modifies files on disk.
pub fn is_file_write_tool(name: &str) -> (r: bool)
    ensures
        r == file_write_tools().contains(name@),
{
    let ghost all = file_write_tools();
    if str_eq(name, "write_file") {
        assert(all[0] == name@);
        return true;
    }
    if str_eq(name, "edit_file") {
        assert(all[1] == name@);
        return true;
    }
    if str_eq(name, "insert_at_line") {
        assert(all[2] == name@);
        return true;
    }
    if str_eq(name, "replace_lines") {
        assert(all[3] == name@);
        return true;
    }
    false
}

/// Returns `true` if `name` is a tool that reads files or directories.
pub fn is_file_read_tool(name: &str) -> (r: bool)
    ensures
        r == file_read_tools().contains(name@),
{
    let ghost all = file_read_tools();
    if str_eq(name, "read_file") {
        assert(all[0] == name@);
        return true;
    }
    if str_eq(name, "grep_files") {
        assert(all[1] == name@);
        return true;
    }
    if str_eq(name, "list_files") {
        assert(all[2] == name@);
        return true;
    }
    if str_eq(name, "search_file") {
        assert(all[3] == name@);
        return true;
    }
    if str_eq(name, "get_ast_outline") {
        assert(all[4] == name@);
        return true;
    }
    false
}

/// No tool is both a file-write and a file-read tool.
pub proof fn law_write_and_read_tools_differ(name: Seq<char>)
    ensures
        !(file_write_tools().contains(name) && file_read_tools().contains(name)),
{
    reveal_strlit("write_file");
    reveal_strlit("edit_file");
    reveal_strlit("insert_at_line");
    reveal_strlit("replace_lines");
    reveal_strlit("read_file");
    reveal_strlit("grep_files");
    reveal_strlit("list_files");
    reveal_strlit("search_file");
    reveal_strlit("get_ast_outline");
    if file_write_tools().contains(name) && file_read_tools().contains(name) {
        let i = choose|i: int| 0 <= i < file_write_tools().len() && file_write_tools()[i] == name;
        let j = choose|j: int| 0 <= j < file_read_tools().len() && file_read_tools()[j] == name;
        assert(name[0] == file_write_tools()[i][0]);
        assert(name[0] == file_read_tools()[j][0]);
        assert(name.len() == file_write_tools()[i].len());
        assert(name.len() == file_read_tools()[j].len());
    }
}

/// The tools that write files and those that read them, by their names.
pub proof fn law_file_tools(name: &str, writes: bool, reads: bool)
    requires
        call_ensures(is_file_write_tool, (name,), writes),
        call_ensures(is_file_read_tool, (name,), reads),
    ensures
        writes <==> name@ == "write_file"@ || name@ == "edit_file"@ || name@ == "insert_at_line"@
            || name@ == "replace_lines"@,
        reads <==> name@ == "read_file"@ || name@ == "grep_files"@ || name@ == "list_files"@ || name@
            == "search_file"@ || name@ == "get_ast_outline"@,
{
    let w = file_write_tools();
    let r = file_read_tools();
    assert(w[0] == "write_file"@ && w[1] == "edit_file"@ && w[2] == "insert_at_line"@ && w[3]
        == "replace_lines"@ && w.len() == 4);
    assert(r[0] == "read_file"@ && r[1] == "grep_files"@ && r[2] == "list_files"@ && r[3]
        == "search_file"@ && r[4] == "get_ast_outline"@ && r.len() == 5);
    if w.contains(name@) {
        assert(w[w.index_of(name@)] == name@);
    }
    if r.contains(name@) {
        assert(r[r.index_of(name@)] == name@);
    }
}

} // verus!
