//! Outlines of source files: their definitions without the bodies.
pub mod languages;
pub mod lines;
pub mod rust;
pub mod syntax;

use vstd::prelude::*;
use vstd::utf8::encode_utf8;

use crate::json::Json;
use crate::patterns::{regex_accepts, regex_captures};
use crate::paths::{extension, extension_of};
use crate::text::{lines_of, or_text, str_eq, texts};
use crate::tools::outline::languages::{
    shown_of, ts_bash, ts_c, ts_cpp, ts_css, ts_elixir, ts_go, ts_html, ts_java, ts_javascript, ts_json, ts_lua, ts_python, ts_ruby,
    ts_swift, ts_typescript, ts_yaml,
};
use crate::tools::outline::lines::{
    capture_entries, heading_of, line_entries, outline_kotlin, outline_markdown, outline_sql, outline_toml, KOTLIN_PATTERN,
    SQL_PATTERN,
};
use crate::tools::outline::rust::{outline_rust, rust_outline_of};
use crate::tools::outline::syntax::{
    grammar_problem, node_entries, outline_ts, syntax_of, Grammar, LangConfig,
};
use crate::tools::{ToolCategory, MAX_LABEL_SHORT};

verus! {

/// How a file is outlined.
#[derive(Debug, Clone, Copy, PartialEq, Eq, Structural)]
pub enum OutlineKind {
    Rust,
    /// By a syntax tree.
    Tree(Grammar),
    Kotlin,
    Toml,
    Sql,
    Markdown,
}

/// How a file with that extension is outlined; `None` where it is not.
pub open spec fn kind_of(ext: Seq<char>) -> Option<OutlineKind> {
    if ext == "rs"@ {
        Some(OutlineKind::Rust)
    } else if ext == "py"@ {
        Some(OutlineKind::Tree(Grammar::Python))
    } else if ext == "js"@ || ext == "mjs"@ {
        Some(OutlineKind::Tree(Grammar::JavaScript))
    } else if ext == "ts"@ {
        Some(OutlineKind::Tree(Grammar::TypeScript))
    } else if ext == "tsx"@ {
        Some(OutlineKind::Tree(Grammar::Tsx))
    } else if ext == "go"@ {
        Some(OutlineKind::Tree(Grammar::Go))
    } else if ext == "java"@ {
        Some(OutlineKind::Tree(Grammar::Java))
    } else if ext == "c"@ || ext == "h"@ {
        Some(OutlineKind::Tree(Grammar::C))
    } else if ext == "cpp"@ || ext == "cc"@ || ext == "hpp"@ || ext == "cxx"@ {
        Some(OutlineKind::Tree(Grammar::Cpp))
    } else if ext == "swift"@ {
        Some(OutlineKind::Tree(Grammar::Swift))
    } else if ext == "lua"@ {
        Some(OutlineKind::Tree(Grammar::Lua))
    } else if ext == "rb"@ {
        Some(OutlineKind::Tree(Grammar::Ruby))
    } else if ext == "sh"@ || ext == "bash"@ {
        Some(OutlineKind::Tree(Grammar::Bash))
    } else if ext == "ex"@ || ext == "exs"@ {
        Some(OutlineKind::Tree(Grammar::Elixir))
    } else if ext == "json"@ {
        Some(OutlineKind::Tree(Grammar::Json))
    } else if ext == "yaml"@ || ext == "yml"@ {
        Some(OutlineKind::Tree(Grammar::Yaml))
    } else if ext == "html"@ {
        Some(OutlineKind::Tree(Grammar::Html))
    } else if ext == "css"@ {
        Some(OutlineKind::Tree(Grammar::Css))
    } else if ext == "kt"@ || ext == "kts"@ {
        Some(OutlineKind::Kotlin)
    } else if ext == "toml"@ {
        Some(OutlineKind::Toml)
    } else if ext == "sql"@ {
        Some(OutlineKind::Sql)
    } else if ext == "md"@ || ext == "markdown"@ {
        Some(OutlineKind::Markdown)
    } else {
        None
    }
}

/// How a file with that extension is outlined.
pub fn outline_kind(ext: &str) -> (r: Option<OutlineKind>)
    ensures
        r == kind_of(ext@),
{
    if str_eq(ext, "rs") {
        Some(OutlineKind::Rust)
    } else if str_eq(ext, "py") {
        Some(OutlineKind::Tree(Grammar::Python))
    } else if str_eq(ext, "js") || str_eq(ext, "mjs") {
        Some(OutlineKind::Tree(Grammar::JavaScript))
    } else if str_eq(ext, "ts") {
        Some(OutlineKind::Tree(Grammar::TypeScript))
    } else if str_eq(ext, "tsx") {
        Some(OutlineKind::Tree(Grammar::Tsx))
    } else if str_eq(ext, "go") {
        Some(OutlineKind::Tree(Grammar::Go))
    } else if str_eq(ext, "java") {
        Some(OutlineKind::Tree(Grammar::Java))
    } else if str_eq(ext, "c") || str_eq(ext, "h") {
        Some(OutlineKind::Tree(Grammar::C))
    } else if str_eq(ext, "cpp") || str_eq(ext, "cc") || str_eq(ext, "hpp") || str_eq(ext, "cxx") {
        Some(OutlineKind::Tree(Grammar::Cpp))
    } else if str_eq(ext, "swift") {
        Some(OutlineKind::Tree(Grammar::Swift))
    } else if str_eq(ext, "lua") {
        Some(OutlineKind::Tree(Grammar::Lua))
    } else if str_eq(ext, "rb") {
        Some(OutlineKind::Tree(Grammar::Ruby))
    } else if str_eq(ext, "sh") || str_eq(ext, "bash") {
        Some(OutlineKind::Tree(Grammar::Bash))
    } else if str_eq(ext, "ex") || str_eq(ext, "exs") {
        Some(OutlineKind::Tree(Grammar::Elixir))
    } else if str_eq(ext, "json") {
        Some(OutlineKind::Tree(Grammar::Json))
    } else if str_eq(ext, "yaml") || str_eq(ext, "yml") {
        Some(OutlineKind::Tree(Grammar::Yaml))
    } else if str_eq(ext, "html") {
        Some(OutlineKind::Tree(Grammar::Html))
    } else if str_eq(ext, "css") {
        Some(OutlineKind::Tree(Grammar::Css))
    } else if str_eq(ext, "kt") || str_eq(ext, "kts") {
        Some(OutlineKind::Kotlin)
    } else if str_eq(ext, "toml") {
        Some(OutlineKind::Toml)
    } else if str_eq(ext, "sql") {
        Some(OutlineKind::Sql)
    } else if str_eq(ext, "md") || str_eq(ext, "markdown") {
        Some(OutlineKind::Markdown)
    } else {
        None
    }
}

/// The name of a language in an outline's heading.
pub open spec fn label_of(grammar: Grammar) -> Seq<char> {
    match grammar {
        Grammar::Python => "Python"@,
        Grammar::JavaScript => "JavaScript"@,
        Grammar::TypeScript => "TypeScript"@,
        Grammar::Tsx => "TypeScript/TSX"@,
        Grammar::Go => "Go"@,
        Grammar::Java => "Java"@,
        Grammar::C => "C"@,
        Grammar::Cpp => "C++"@,
        Grammar::Swift => "Swift"@,
        Grammar::Lua => "Lua"@,
        Grammar::Ruby => "Ruby"@,
        Grammar::Bash => "Bash"@,
        Grammar::Elixir => "Elixir"@,
        Grammar::Json => "JSON"@,
        Grammar::Yaml => "YAML"@,
        Grammar::Html => "HTML"@,
        Grammar::Css => "CSS"@,
    }
}

fn label(grammar: Grammar) -> (r: &'static str)
    ensures
        r@ == label_of(grammar),
{
    match grammar {
        Grammar::Python => "Python",
        Grammar::JavaScript => "JavaScript",
        Grammar::TypeScript => "TypeScript",
        Grammar::Tsx => "TypeScript/TSX",
        Grammar::Go => "Go",
        Grammar::Java => "Java",
        Grammar::C => "C",
        Grammar::Cpp => "C++",
        Grammar::Swift => "Swift",
        Grammar::Lua => "Lua",
        Grammar::Ruby => "Ruby",
        Grammar::Bash => "Bash",
        Grammar::Elixir => "Elixir",
        Grammar::Json => "JSON",
        Grammar::Yaml => "YAML",
        Grammar::Html => "HTML",
        Grammar::Css => "CSS",
    }
}

/// What an outline shows of a language.
pub fn lang_config(grammar: Grammar) -> (r: LangConfig)
    ensures
        r.grammar == grammar,
        r.shown() == shown_of(grammar),
{
    match grammar {
        Grammar::Python => ts_python(),
        Grammar::JavaScript => ts_javascript(),
        Grammar::TypeScript => ts_typescript(false),
        Grammar::Tsx => ts_typescript(true),
        Grammar::Go => ts_go(),
        Grammar::Java => ts_java(),
        Grammar::C => ts_c(),
        Grammar::Cpp => ts_cpp(),
        Grammar::Swift => ts_swift(),
        Grammar::Lua => ts_lua(),
        Grammar::Ruby => ts_ruby(),
        Grammar::Bash => ts_bash(),
        Grammar::Elixir => ts_elixir(),
        Grammar::Json => ts_json(),
        Grammar::Yaml => ts_yaml(),
        Grammar::Html => ts_html(),
        Grammar::Css => ts_css(),
    }
}

/// The answer for a file that is not outlined.
pub open spec fn unsupported_text(ext: Seq<char>) -> Seq<char> {
    "Language not supported for AST outline: ."@ + ext
        + "\nSupported: .rs .py .js .ts .tsx .go .java .c .cpp .swift .lua .rb .sh .ex .kt .json .toml .yaml .html .css .md .sql"@
}

/// The outline of a file by its syntax tree, or why there is none.
pub open spec fn tree_outline_of(grammar: Grammar, path: Seq<char>, source: Seq<char>) -> Result<
    Seq<char>,
    Seq<char>,
> {
    match grammar_problem(grammar) {
        Some(why) => Err("tree-sitter language load error: "@ + why),
        None => match syntax_of(grammar, source, shown_of(grammar).field) {
            Some(root) => Ok(
                heading_of(label_of(grammar), path) + node_entries(
                    root,
                    source,
                    shown_of(grammar),
                    0,
                ),
            ),
            None => Err("tree-sitter parse returned None for "@ + path),
        },
    }
}

/// The outline of a file by the matches of a pattern.
pub open spec fn pattern_outline_of(
    label: Seq<char>,
    pattern: Seq<char>,
    path: Seq<char>,
    source: Seq<char>,
) -> Seq<char> {
    heading_of(label, path) + capture_entries(
        encode_utf8(source),
        regex_captures(pattern, source),
        regex_captures(pattern, source).len() as int,
    )
}

/// The outline of a file, or why there is none.
pub open spec fn outline_of(kind: OutlineKind, path: Seq<char>, source: Seq<char>) -> Result<
    Seq<char>,
    Seq<char>,
> {
    match kind {
        OutlineKind::Rust => rust_outline_of(path, source),
        OutlineKind::Tree(g) => tree_outline_of(g, path, source),
        OutlineKind::Kotlin => if regex_accepts(KOTLIN_PATTERN@) {
            Ok(pattern_outline_of("Kotlin"@, KOTLIN_PATTERN@, path, source))
        } else {
            Err("Invalid outline pattern"@)
        },
        OutlineKind::Sql => if regex_accepts(SQL_PATTERN@) {
            Ok(pattern_outline_of("SQL"@, SQL_PATTERN@, path, source))
        } else {
            Err("Invalid outline pattern"@)
        },
        OutlineKind::Toml => Ok(
            heading_of("TOML"@, path) + line_entries(
                lines_of(source),
                false,
                lines_of(source).len() as int,
            ),
        ),
        OutlineKind::Markdown => Ok(
            heading_of("Markdown"@, path) + line_entries(
                lines_of(source),
                true,
                lines_of(source).len() as int,
            ),
        ),
    }
}

/// The tool that outlines files.
#[derive(Debug)]
pub struct AstOutline;

fn unsupported_answer(ext: &str) -> (r: String)
    ensures
        r@ == unsupported_text(ext@),
{
    let mut t: String = "Language not supported for AST outline: .".to_owned();
    t.append(ext);
    t.append(
        "\nSupported: .rs .py .js .ts .tsx .go .java .c .cpp .swift .lua .rb .sh .ex .kt .json .toml .yaml .html .css .md .sql",
    );
    t
}

impl AstOutline {
    pub fn new() -> (r: AstOutline)
        ensures
            r == AstOutline,
    {
        AstOutline
    }

    pub fn name(&self) -> (r: &'static str)
        ensures
            r@ == "get_ast_outline"@,
    {
        "get_ast_outline"
    }

    pub fn category(&self) -> (r: ToolCategory)
        ensures
            r == ToolCategory::Filesystem,
    {
        ToolCategory::Filesystem
    }

    /// The label of a call, and how long it may be.
    pub fn describe(&self, args: &Json) -> (r: (String, usize))
        ensures
            r.0@ == "outline `"@ + match args@.field("path"@).as_text() {
                Some(p) => p,
                None => "?"@,
            } + "`"@,
            r.1 == MAX_LABEL_SHORT,
    {
        let path: String = match args.text_field("path") {
            Some(p) => p,
            None => "?".to_owned(),
        };
        let mut t: String = "outline `".to_owned();
        t.append(path.as_str());
        t.append("`");
        (t, MAX_LABEL_SHORT)
    }

    /// The file that a call outlines.
    pub fn path(&self, args: &Json) -> (r: Result<String, String>)
        ensures
            match args@.field("path"@).as_text() {
                Some(p) => r matches Ok(t) && t@ == p,
                None => r matches Err(e) && e@ == "Missing required argument: path"@,
            },
    {
        match args.text_field("path") {
            Some(p) => Ok(p),
            None => Err("Missing required argument: path".to_owned()),
        }
    }

    /// The answer for a file of a kind that is not outlined, which is given
    /// without reading the file; none where the file is to be read.
    pub fn unsupported(&self, path: &str) -> (r: Option<String>)
        ensures
            ({
                let ext = or_text(extension_of(path@), Seq::empty());
                match kind_of(ext) {
                    None => r matches Some(t) && t@ == unsupported_text(ext),
                    Some(_) => r is None,
                }
            }),
    {
        let ext: String = match extension(path) {
            Some(e) => e,
            None => String::new(),
        };
        assert(ext@ =~= or_text(extension_of(path@), Seq::empty()));
        if outline_kind(ext.as_str()).is_some() {
            return None;
        }
        Some(unsupported_answer(ext.as_str()))
    }

    /// Outlines a file, given its path and its text. The kind of outline goes
    /// by the path's extension.
    pub fn execute(&self, path: &str, source: &str) -> (r: Result<String, String>)
        requires
            encode_utf8(source@).len() < usize::MAX,
        ensures
            ({
                let ext = or_text(extension_of(path@), Seq::empty());
                match kind_of(ext) {
                    None => r matches Ok(t) && t@ == unsupported_text(ext),
                    Some(k) => match outline_of(k, path@, source@) {
                        Ok(text) => r matches Ok(t) && t@ == text,
                        Err(why) => r matches Err(e) && e@ == why,
                    },
                }
            }),
    {
        let ext: String = match extension(path) {
            Some(e) => e,
            None => String::new(),
        };
        assert(ext@ =~= or_text(extension_of(path@), Seq::empty()));
        match outline_kind(ext.as_str()) {
            None => Ok(unsupported_answer(ext.as_str())),
            Some(OutlineKind::Rust) => outline_rust(path, source),
            Some(OutlineKind::Tree(g)) => {
                let cfg: LangConfig = lang_config(g);
                outline_ts(label(g), path, source, &cfg)
            },
            Some(OutlineKind::Kotlin) => match outline_kotlin(path, source) {
                Some(t) => Ok(t),
                None => Err("Invalid outline pattern".to_owned()),
            },
            Some(OutlineKind::Sql) => match outline_sql(path, source) {
                Some(t) => Ok(t),
                None => Err("Invalid outline pattern".to_owned()),
            },
            Some(OutlineKind::Toml) => Ok(outline_toml(path, source)),
            Some(OutlineKind::Markdown) => Ok(outline_markdown(path, source)),
        }
    }
}

/// What an outline shows of a language: the kinds of definitions, where their
/// names stand, and what their members stand in.
pub proof fn law_what_languages_show(grammar: Grammar, r: LangConfig)
    requires
        call_ensures(lang_config, (grammar,), r),
    ensures
        r.grammar == grammar,
        grammar == Grammar::Python ==> texts(r.def_kinds@) == seq!["function_definition"@, "async_function_definition"@, "class_definition"@, "decorated_definition"@]
            && r.name_field@ == "name"@ && texts(r.container_kinds@) == seq!["block"@],
        grammar == Grammar::JavaScript ==> texts(r.def_kinds@) == seq!["function_declaration"@, "generator_function_declaration"@, "class_declaration"@, "method_definition"@, "lexical_declaration"@, "variable_declaration"@]
            && r.name_field@ == "name"@ && texts(r.container_kinds@) == seq!["class_body"@],
        grammar == Grammar::TypeScript || grammar == Grammar::Tsx ==> texts(r.def_kinds@) == seq!["function_declaration"@, "generator_function_declaration"@, "class_declaration"@, "method_definition"@, "interface_declaration"@, "type_alias_declaration"@, "enum_declaration"@, "abstract_class_declaration"@, "lexical_declaration"@, "variable_declaration"@]
            && r.name_field@ == "name"@ && texts(r.container_kinds@) == seq!["class_body"@],
        grammar == Grammar::Go ==> texts(r.def_kinds@) == seq!["function_declaration"@, "method_declaration"@, "type_declaration"@, "const_declaration"@, "var_declaration"@]
            && r.name_field@ == "name"@ && texts(r.container_kinds@) == Seq::<Seq<char>>::empty(),
        grammar == Grammar::Java ==> texts(r.def_kinds@) == seq!["class_declaration"@, "interface_declaration"@, "enum_declaration"@, "method_declaration"@, "constructor_declaration"@, "annotation_type_declaration"@]
            && r.name_field@ == "name"@ && texts(r.container_kinds@) == seq!["class_body"@, "interface_body"@, "enum_body"@],
        grammar == Grammar::C ==> texts(r.def_kinds@) == seq!["function_definition"@, "declaration"@, "struct_specifier"@, "enum_specifier"@, "typedef_declaration"@]
            && r.name_field@ == "declarator"@ && texts(r.container_kinds@) == Seq::<Seq<char>>::empty(),
        grammar == Grammar::Cpp ==> texts(r.def_kinds@) == seq!["function_definition"@, "declaration"@, "class_specifier"@, "struct_specifier"@, "enum_specifier"@, "namespace_definition"@, "template_declaration"@]
            && r.name_field@ == "name"@ && texts(r.container_kinds@) == seq!["field_declaration_list"@],
        grammar == Grammar::Swift ==> texts(r.def_kinds@) == seq!["function_declaration"@, "class_declaration"@, "struct_declaration"@, "protocol_declaration"@, "enum_declaration"@, "extension_declaration"@]
            && r.name_field@ == "name"@ && texts(r.container_kinds@) == seq!["class_body"@, "struct_body"@, "enum_body"@, "protocol_body"@],
        grammar == Grammar::Lua ==> texts(r.def_kinds@) == seq!["function_declaration"@, "local_function"@, "assignment_statement"@]
            && r.name_field@ == "name"@ && texts(r.container_kinds@) == Seq::<Seq<char>>::empty(),
        grammar == Grammar::Ruby ==> texts(r.def_kinds@) == seq!["method"@, "singleton_method"@, "class"@, "module"@, "singleton_class"@]
            && r.name_field@ == "name"@ && texts(r.container_kinds@) == seq!["body_statement"@],
        grammar == Grammar::Bash ==> texts(r.def_kinds@) == seq!["function_definition"@]
            && r.name_field@ == "name"@ && texts(r.container_kinds@) == Seq::<Seq<char>>::empty(),
        grammar == Grammar::Elixir ==> texts(r.def_kinds@) == seq!["call"@]
            && r.name_field@ == "target"@ && texts(r.container_kinds@) == Seq::<Seq<char>>::empty(),
        grammar == Grammar::Json ==> texts(r.def_kinds@) == seq!["pair"@]
            && r.name_field@ == "key"@ && texts(r.container_kinds@) == Seq::<Seq<char>>::empty(),
        grammar == Grammar::Yaml ==> texts(r.def_kinds@) == seq!["block_mapping_pair"@]
            && r.name_field@ == "key"@ && texts(r.container_kinds@) == Seq::<Seq<char>>::empty(),
        grammar == Grammar::Html ==> texts(r.def_kinds@) == seq!["element"@]
            && r.name_field@ == ""@ && texts(r.container_kinds@) == seq!["element"@],
        grammar == Grammar::Css ==> texts(r.def_kinds@) == seq!["rule_set"@, "at_rule"@]
            && r.name_field@ == ""@ && texts(r.container_kinds@) == Seq::<Seq<char>>::empty(),
{
}

/// The language of a file by its extension.
pub proof fn law_languages_by_extension(ext: &str, r: Option<OutlineKind>)
    requires
        call_ensures(outline_kind, (ext,), r),
    ensures
        ext@ == "rs"@ ==> r == Some(OutlineKind::Rust),
        ext@ == "py"@ ==> r == Some(OutlineKind::Tree(Grammar::Python)),
        ext@ == "js"@ || ext@ == "mjs"@ ==> r == Some(OutlineKind::Tree(Grammar::JavaScript)),
        ext@ == "ts"@ ==> r == Some(OutlineKind::Tree(Grammar::TypeScript)),
        ext@ == "tsx"@ ==> r == Some(OutlineKind::Tree(Grammar::Tsx)),
        ext@ == "go"@ ==> r == Some(OutlineKind::Tree(Grammar::Go)),
        ext@ == "java"@ ==> r == Some(OutlineKind::Tree(Grammar::Java)),
        ext@ == "c"@ || ext@ == "h"@ ==> r == Some(OutlineKind::Tree(Grammar::C)),
        ext@ == "cpp"@ || ext@ == "cc"@ || ext@ == "hpp"@ || ext@ == "cxx"@ ==> r == Some(
            OutlineKind::Tree(Grammar::Cpp),
        ),
        ext@ == "swift"@ ==> r == Some(OutlineKind::Tree(Grammar::Swift)),
        ext@ == "lua"@ ==> r == Some(OutlineKind::Tree(Grammar::Lua)),
        ext@ == "rb"@ ==> r == Some(OutlineKind::Tree(Grammar::Ruby)),
        ext@ == "sh"@ || ext@ == "bash"@ ==> r == Some(OutlineKind::Tree(Grammar::Bash)),
        ext@ == "ex"@ || ext@ == "exs"@ ==> r == Some(OutlineKind::Tree(Grammar::Elixir)),
        ext@ == "json"@ ==> r == Some(OutlineKind::Tree(Grammar::Json)),
        ext@ == "yaml"@ || ext@ == "yml"@ ==> r == Some(OutlineKind::Tree(Grammar::Yaml)),
        ext@ == "html"@ ==> r == Some(OutlineKind::Tree(Grammar::Html)),
        ext@ == "css"@ ==> r == Some(OutlineKind::Tree(Grammar::Css)),
        ext@ == "kt"@ || ext@ == "kts"@ ==> r == Some(OutlineKind::Kotlin),
        ext@ == "toml"@ ==> r == Some(OutlineKind::Toml),
        ext@ == "sql"@ ==> r == Some(OutlineKind::Sql),
        ext@ == "md"@ || ext@ == "markdown"@ ==> r == Some(OutlineKind::Markdown),
        ext@.len() == 0 || ext@.len() > 8 ==> r is None,
{
    lemma_extensions();
}

proof fn lemma_extensions()
    ensures
        "rs"@.len() == 2 && "rs"@[0] == 'r' && "rs"@[1] == 's',
        "py"@.len() == 2 && "py"@[0] == 'p' && "py"@[1] == 'y',
        "js"@.len() == 2 && "js"@[0] == 'j' && "js"@[1] == 's',
        "mjs"@.len() == 3 && "mjs"@[0] == 'm' && "mjs"@[1] == 'j' && "mjs"@[2] == 's',
        "ts"@.len() == 2 && "ts"@[0] == 't' && "ts"@[1] == 's',
        "tsx"@.len() == 3 && "tsx"@[0] == 't' && "tsx"@[1] == 's' && "tsx"@[2] == 'x',
        "go"@.len() == 2 && "go"@[0] == 'g' && "go"@[1] == 'o',
        "java"@.len() == 4 && "java"@[0] == 'j' && "java"@[1] == 'a' && "java"@[2] == 'v' && "java"@[3] == 'a',
        "c"@.len() == 1 && "c"@[0] == 'c',
        "h"@.len() == 1 && "h"@[0] == 'h',
        "cpp"@.len() == 3 && "cpp"@[0] == 'c' && "cpp"@[1] == 'p' && "cpp"@[2] == 'p',
        "cc"@.len() == 2 && "cc"@[0] == 'c' && "cc"@[1] == 'c',
        "hpp"@.len() == 3 && "hpp"@[0] == 'h' && "hpp"@[1] == 'p' && "hpp"@[2] == 'p',
        "cxx"@.len() == 3 && "cxx"@[0] == 'c' && "cxx"@[1] == 'x' && "cxx"@[2] == 'x',
        "swift"@.len() == 5 && "swift"@[0] == 's' && "swift"@[1] == 'w' && "swift"@[2] == 'i' && "swift"@[3] == 'f' && "swift"@[4] == 't',
        "lua"@.len() == 3 && "lua"@[0] == 'l' && "lua"@[1] == 'u' && "lua"@[2] == 'a',
        "rb"@.len() == 2 && "rb"@[0] == 'r' && "rb"@[1] == 'b',
        "sh"@.len() == 2 && "sh"@[0] == 's' && "sh"@[1] == 'h',
        "bash"@.len() == 4 && "bash"@[0] == 'b' && "bash"@[1] == 'a' && "bash"@[2] == 's' && "bash"@[3] == 'h',
        "ex"@.len() == 2 && "ex"@[0] == 'e' && "ex"@[1] == 'x',
        "exs"@.len() == 3 && "exs"@[0] == 'e' && "exs"@[1] == 'x' && "exs"@[2] == 's',
        "json"@.len() == 4 && "json"@[0] == 'j' && "json"@[1] == 's' && "json"@[2] == 'o' && "json"@[3] == 'n',
        "yaml"@.len() == 4 && "yaml"@[0] == 'y' && "yaml"@[1] == 'a' && "yaml"@[2] == 'm' && "yaml"@[3] == 'l',
        "yml"@.len() == 3 && "yml"@[0] == 'y' && "yml"@[1] == 'm' && "yml"@[2] == 'l',
        "html"@.len() == 4 && "html"@[0] == 'h' && "html"@[1] == 't' && "html"@[2] == 'm' && "html"@[3] == 'l',
        "css"@.len() == 3 && "css"@[0] == 'c' && "css"@[1] == 's' && "css"@[2] == 's',
        "kt"@.len() == 2 && "kt"@[0] == 'k' && "kt"@[1] == 't',
        "kts"@.len() == 3 && "kts"@[0] == 'k' && "kts"@[1] == 't' && "kts"@[2] == 's',
        "toml"@.len() == 4 && "toml"@[0] == 't' && "toml"@[1] == 'o' && "toml"@[2] == 'm' && "toml"@[3] == 'l',
        "sql"@.len() == 3 && "sql"@[0] == 's' && "sql"@[1] == 'q' && "sql"@[2] == 'l',
        "md"@.len() == 2 && "md"@[0] == 'm' && "md"@[1] == 'd',
        "markdown"@.len() == 8 && "markdown"@[0] == 'm' && "markdown"@[1] == 'a' && "markdown"@[2] == 'r' && "markdown"@[3] == 'k' && "markdown"@[4] == 'd',
{
    reveal_strlit("rs");
    reveal_strlit("py");
    reveal_strlit("js");
    reveal_strlit("mjs");
    reveal_strlit("ts");
    reveal_strlit("tsx");
    reveal_strlit("go");
    reveal_strlit("java");
    reveal_strlit("c");
    reveal_strlit("h");
    reveal_strlit("cpp");
    reveal_strlit("cc");
    reveal_strlit("hpp");
    reveal_strlit("cxx");
    reveal_strlit("swift");
    reveal_strlit("lua");
    reveal_strlit("rb");
    reveal_strlit("sh");
    reveal_strlit("bash");
    reveal_strlit("ex");
    reveal_strlit("exs");
    reveal_strlit("json");
    reveal_strlit("yaml");
    reveal_strlit("yml");
    reveal_strlit("html");
    reveal_strlit("css");
    reveal_strlit("kt");
    reveal_strlit("kts");
    reveal_strlit("toml");
    reveal_strlit("sql");
    reveal_strlit("md");
    reveal_strlit("markdown");
}

/// A file in a language without outline is told so, with those that have one.
pub proof fn law_files_without_outline(
    tool: &AstOutline,
    path: &str,
    source: &str,
    r: Result<String, String>,
    told: Option<String>,
    given: Option<String>,
    ext: &str,
    kind: Option<OutlineKind>,
)
    requires
        call_ensures(AstOutline::execute, (tool, path, source), r),
        call_ensures(AstOutline::unsupported, (tool, path), told),
        call_ensures(extension, (path,), given),
        ext@ == match given {
            Some(e) => e@,
            None => Seq::empty(),
        },
        call_ensures(outline_kind, (ext,), kind),
    ensures
        told is Some <==> kind is None,
        kind is None ==> r is Ok && r->Ok_0@ == "Language not supported for AST outline: ."@ + ext@
            + "\nSupported: .rs .py .js .ts .tsx .go .java .c .cpp .swift .lua .rb .sh .ex .kt .json .toml .yaml .html .css .md .sql"@,
        told matches Some(t) ==> r is Ok && t@ == r->Ok_0@,
{
}

/// A file is outlined by its language: TOML and Markdown by their lines, Rust by
/// its items, Kotlin and SQL by a pattern, and the others by their syntax.
pub proof fn law_files_are_outlined(
    tool: &AstOutline,
    path: &str,
    source: &str,
    r: Result<String, String>,
    given: Option<String>,
    ext: &str,
    kind: Option<OutlineKind>,
    toml: String,
    markdown: String,
    rust: Result<String, String>,
    kotlin: Option<String>,
    sql: Option<String>,
)
    requires
        call_ensures(AstOutline::execute, (tool, path, source), r),
        call_ensures(extension, (path,), given),
        ext@ == match given {
            Some(e) => e@,
            None => Seq::empty(),
        },
        call_ensures(outline_kind, (ext,), kind),
        call_ensures(outline_toml, (path, source), toml),
        call_ensures(outline_markdown, (path, source), markdown),
        call_ensures(rust::outline_rust, (path, source), rust),
        call_ensures(outline_kotlin, (path, source), kotlin),
        call_ensures(outline_sql, (path, source), sql),
    ensures
        kind == Some(OutlineKind::Toml) ==> r is Ok && r->Ok_0@ == toml@,
        kind == Some(OutlineKind::Markdown) ==> r is Ok && r->Ok_0@ == markdown@,
        kind == Some(OutlineKind::Rust) ==> (r is Ok <==> rust is Ok) && (r is Ok ==> r->Ok_0@
            == rust->Ok_0@) && (r is Err ==> r->Err_0@ == rust->Err_0@),
        kind == Some(OutlineKind::Kotlin) ==> (r is Ok <==> kotlin is Some) && (r is Ok ==> r->Ok_0@
            == kotlin->Some_0@),
        kind == Some(OutlineKind::Sql) ==> (r is Ok <==> sql is Some) && (r is Ok ==> r->Ok_0@
            == sql->Some_0@),
{
}

/// An outline by syntax is that of the tree that the parser gives, under the
/// name of the language; without a tree it is told why.
pub proof fn law_trees_are_outlined(
    tool: &AstOutline,
    path: &str,
    source: &str,
    r: Result<String, String>,
    given: Option<String>,
    ext: &str,
    grammar: Grammar,
    cfg: LangConfig,
    label: &str,
    root: &syntax::SyntaxNode,
    outlined: String,
)
    requires
        call_ensures(AstOutline::execute, (tool, path, source), r),
        call_ensures(extension, (path,), given),
        ext@ == match given {
            Some(e) => e@,
            None => Seq::empty(),
        },
        call_ensures(outline_kind, (ext,), Some(OutlineKind::Tree(grammar))),
        call_ensures(lang_config, (grammar,), cfg),
        label@ == match grammar {
            Grammar::Python => "Python"@,
            Grammar::JavaScript => "JavaScript"@,
            Grammar::TypeScript => "TypeScript"@,
            Grammar::Tsx => "TypeScript/TSX"@,
            Grammar::Go => "Go"@,
            Grammar::Java => "Java"@,
            Grammar::C => "C"@,
            Grammar::Cpp => "C++"@,
            Grammar::Swift => "Swift"@,
            Grammar::Lua => "Lua"@,
            Grammar::Ruby => "Ruby"@,
            Grammar::Bash => "Bash"@,
            Grammar::Elixir => "Elixir"@,
            Grammar::Json => "JSON"@,
            Grammar::Yaml => "YAML"@,
            Grammar::Html => "HTML"@,
            Grammar::Css => "CSS"@,
        },
        call_ensures(syntax::tree_outline, (label, path, source, &cfg, root), outlined),
        syntax_of(grammar, source@, cfg.name_field@) matches Some(n) ==> n == root@,
    ensures
        grammar_problem(grammar) matches Some(why) ==> r is Err && r->Err_0@
            == "tree-sitter language load error: "@ + why,
        grammar_problem(grammar) is None && syntax_of(grammar, source@, cfg.name_field@) is None
            ==> r is Err && r->Err_0@ == "tree-sitter parse returned None for "@ + path@,
        grammar_problem(grammar) is None && syntax_of(grammar, source@, cfg.name_field@) is Some
            ==> r is Ok && r->Ok_0@ == outlined@,
{
}

/// What an outline is asked for by: a path, which is needed.
pub proof fn law_asked_for_outlines(tool: &AstOutline, args: &Json, r: Result<String, String>, d: (String, usize), name: &'static str)
    requires
        call_ensures(AstOutline::path, (tool, args), r),
        call_ensures(AstOutline::describe, (tool, args), d),
        call_ensures(AstOutline::name, (tool,), name),
    ensures
        r is Ok <==> args@.field("path"@).as_text() is Some,
        r matches Ok(t) ==> args@.field("path"@).as_text() == Some(t@),
        r matches Err(e) ==> e@ == "Missing required argument: path"@,
        d.0@ == "outline `"@ + (match args@.field("path"@).as_text() {
            Some(p) => p,
            None => "?"@,
        }) + "`"@,
        d.1 == 60,
        name@ == "get_ast_outline"@,
{
}

} // verus!
