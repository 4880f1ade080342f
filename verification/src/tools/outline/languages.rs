//! What an outline shows of each language.
use vstd::prelude::*;

use crate::text::texts;
use crate::tools::outline::syntax::{Grammar, LangConfig, ShownKinds};

verus! {

/// What an outline shows of a language: the kinds of nodes, the field that
/// holds a node's name, and the kinds in which members stand.
pub open spec fn shown_of(grammar: Grammar) -> ShownKinds {
    match grammar {
        Grammar::Python => ShownKinds {
            defs: seq![
                "function_definition"@,
                "async_function_definition"@,
                "class_definition"@,
                "decorated_definition"@,
            ],
            field: "name"@,
            containers: seq!["block"@],
        },
        Grammar::JavaScript => ShownKinds {
            defs: seq![
                "function_declaration"@,
                "generator_function_declaration"@,
                "class_declaration"@,
                "method_definition"@,
                "lexical_declaration"@,
                "variable_declaration"@,
            ],
            field: "name"@,
            containers: seq!["class_body"@],
        },
        Grammar::TypeScript | Grammar::Tsx => ShownKinds {
            defs: seq![
                "function_declaration"@,
                "generator_function_declaration"@,
                "class_declaration"@,
                "method_definition"@,
                "interface_declaration"@,
                "type_alias_declaration"@,
                "enum_declaration"@,
                "abstract_class_declaration"@,
                "lexical_declaration"@,
                "variable_declaration"@,
            ],
            field: "name"@,
            containers: seq!["class_body"@],
        },
        Grammar::Go => ShownKinds {
            defs: seq![
                "function_declaration"@,
                "method_declaration"@,
                "type_declaration"@,
                "const_declaration"@,
                "var_declaration"@,
            ],
            field: "name"@,
            containers: Seq::empty(),
        },
        Grammar::Java => ShownKinds {
            defs: seq![
                "class_declaration"@,
                "interface_declaration"@,
                "enum_declaration"@,
                "method_declaration"@,
                "constructor_declaration"@,
                "annotation_type_declaration"@,
            ],
            field: "name"@,
            containers: seq!["class_body"@, "interface_body"@, "enum_body"@],
        },
        Grammar::C => ShownKinds {
            defs: seq![
                "function_definition"@,
                "declaration"@,
                "struct_specifier"@,
                "enum_specifier"@,
                "typedef_declaration"@,
            ],
            field: "declarator"@,
            containers: Seq::empty(),
        },
        Grammar::Cpp => ShownKinds {
            defs: seq![
                "function_definition"@,
                "declaration"@,
                "class_specifier"@,
                "struct_specifier"@,
                "enum_specifier"@,
                "namespace_definition"@,
                "template_declaration"@,
            ],
            field: "name"@,
            containers: seq!["field_declaration_list"@],
        },
        Grammar::Swift => ShownKinds {
            defs: seq![
                "function_declaration"@,
                "class_declaration"@,
                "struct_declaration"@,
                "protocol_declaration"@,
                "enum_declaration"@,
                "extension_declaration"@,
            ],
            field: "name"@,
            containers: seq!["class_body"@, "struct_body"@, "enum_body"@, "protocol_body"@],
        },
        Grammar::Lua => ShownKinds {
            defs: seq![
                "function_declaration"@,
                "local_function"@,
                "assignment_statement"@,
            ],
            field: "name"@,
            containers: Seq::empty(),
        },
        Grammar::Ruby => ShownKinds {
            defs: seq![
                "method"@,
                "singleton_method"@,
                "class"@,
                "module"@,
                "singleton_class"@,
            ],
            field: "name"@,
            containers: seq!["body_statement"@],
        },
        Grammar::Bash => ShownKinds {
            defs: seq![
                "function_definition"@,
            ],
            field: "name"@,
            containers: Seq::empty(),
        },
        Grammar::Elixir => ShownKinds {
            defs: seq![
                "call"@,
            ],
            field: "target"@,
            containers: Seq::empty(),
        },
        Grammar::Json => ShownKinds {
            defs: seq![
                "pair"@,
            ],
            field: "key"@,
            containers: Seq::empty(),
        },
        Grammar::Yaml => ShownKinds {
            defs: seq![
                "block_mapping_pair"@,
            ],
            field: "key"@,
            containers: Seq::empty(),
        },
        Grammar::Html => ShownKinds {
            defs: seq![
                "element"@,
            ],
            field: ""@,
            containers: seq!["element"@],
        },
        Grammar::Css => ShownKinds {
            defs: seq![
                "rule_set"@,
                "at_rule"@,
            ],
            field: ""@,
            containers: Seq::empty(),
        },
    }
}

fn kinds(items: &[&str]) -> (r: Vec<String>)
    ensures
        texts(r@) == items@.map_values(|s: &str| s@),
{
    let ghost all = items@.map_values(|s: &str| s@);
    let mut out: Vec<String> = Vec::new();
    let mut i: usize = 0;
    while i < items.len()
        invariant
            i <= items@.len(),
            all == items@.map_values(|s: &str| s@),
            texts(out@) == all.take(i as int),
        decreases items@.len() - i,
    {
        let ghost had = texts(out@);
        out.push(items[i].to_owned());
        assert(texts(out@) =~= had.push(all[i as int]));
        i = i + 1;
        assert(texts(out@) =~= all.take(i as int));
    }
    assert(all.take(all.len() as int) =~= all);
    out
}

pub fn ts_python() -> (r: LangConfig)
    ensures
        r.grammar == Grammar::Python,
        r.shown() == shown_of(r.grammar),
{
    let r: LangConfig = LangConfig {
        grammar: Grammar::Python,
        def_kinds: kinds(&[
            "function_definition",
            "async_function_definition",
            "class_definition",
            "decorated_definition",
        ]),
        name_field: "name".to_owned(),
        container_kinds: kinds(&["block"]),
    };
    assert(r.shown().defs =~= shown_of(r.grammar).defs);
    assert(r.shown().containers =~= shown_of(r.grammar).containers);
    r
}

pub fn ts_javascript() -> (r: LangConfig)
    ensures
        r.grammar == Grammar::JavaScript,
        r.shown() == shown_of(r.grammar),
{
    let r: LangConfig = LangConfig {
        grammar: Grammar::JavaScript,
        def_kinds: kinds(&[
            "function_declaration",
            "generator_function_declaration",
            "class_declaration",
            "method_definition",
            "lexical_declaration",
            "variable_declaration",
        ]),
        name_field: "name".to_owned(),
        container_kinds: kinds(&["class_body"]),
    };
    assert(r.shown().defs =~= shown_of(r.grammar).defs);
    assert(r.shown().containers =~= shown_of(r.grammar).containers);
    r
}

pub fn ts_typescript(tsx: bool) -> (r: LangConfig)
    ensures
        r.grammar == if tsx {
                Grammar::Tsx
            } else {
                Grammar::TypeScript
            },
        r.shown() == shown_of(r.grammar),
{
    let r: LangConfig = LangConfig {
        grammar: if tsx {
            Grammar::Tsx
        } else {
            Grammar::TypeScript
        },
        def_kinds: kinds(&[
            "function_declaration",
            "generator_function_declaration",
            "class_declaration",
            "method_definition",
            "interface_declaration",
            "type_alias_declaration",
            "enum_declaration",
            "abstract_class_declaration",
            "lexical_declaration",
            "variable_declaration",
        ]),
        name_field: "name".to_owned(),
        container_kinds: kinds(&["class_body"]),
    };
    assert(r.shown().defs =~= shown_of(r.grammar).defs);
    assert(r.shown().containers =~= shown_of(r.grammar).containers);
    r
}

pub fn ts_go() -> (r: LangConfig)
    ensures
        r.grammar == Grammar::Go,
        r.shown() == shown_of(r.grammar),
{
    let r: LangConfig = LangConfig {
        grammar: Grammar::Go,
        def_kinds: kinds(&[
            "function_declaration",
            "method_declaration",
            "type_declaration",
            "const_declaration",
            "var_declaration",
        ]),
        name_field: "name".to_owned(),
        container_kinds: Vec::new(),
    };
    assert(r.shown().defs =~= shown_of(r.grammar).defs);
    assert(r.shown().containers =~= shown_of(r.grammar).containers);
    r
}

pub fn ts_java() -> (r: LangConfig)
    ensures
        r.grammar == Grammar::Java,
        r.shown() == shown_of(r.grammar),
{
    let r: LangConfig = LangConfig {
        grammar: Grammar::Java,
        def_kinds: kinds(&[
            "class_declaration",
            "interface_declaration",
            "enum_declaration",
            "method_declaration",
            "constructor_declaration",
            "annotation_type_declaration",
        ]),
        name_field: "name".to_owned(),
        container_kinds: kinds(&["class_body", "interface_body", "enum_body"]),
    };
    assert(r.shown().defs =~= shown_of(r.grammar).defs);
    assert(r.shown().containers =~= shown_of(r.grammar).containers);
    r
}

pub fn ts_c() -> (r: LangConfig)
    ensures
        r.grammar == Grammar::C,
        r.shown() == shown_of(r.grammar),
{
    let r: LangConfig = LangConfig {
        grammar: Grammar::C,
        def_kinds: kinds(&[
            "function_definition",
            "declaration",
            "struct_specifier",
            "enum_specifier",
            "typedef_declaration",
        ]),
        name_field: "declarator".to_owned(),
        container_kinds: Vec::new(),
    };
    assert(r.shown().defs =~= shown_of(r.grammar).defs);
    assert(r.shown().containers =~= shown_of(r.grammar).containers);
    r
}

pub fn ts_cpp() -> (r: LangConfig)
    ensures
        r.grammar == Grammar::Cpp,
        r.shown() == shown_of(r.grammar),
{
    let r: LangConfig = LangConfig {
        grammar: Grammar::Cpp,
        def_kinds: kinds(&[
            "function_definition",
            "declaration",
            "class_specifier",
            "struct_specifier",
            "enum_specifier",
            "namespace_definition",
            "template_declaration",
        ]),
        name_field: "name".to_owned(),
        container_kinds: kinds(&["field_declaration_list"]),
    };
    assert(r.shown().defs =~= shown_of(r.grammar).defs);
    assert(r.shown().containers =~= shown_of(r.grammar).containers);
    r
}

pub fn ts_swift() -> (r: LangConfig)
    ensures
        r.grammar == Grammar::Swift,
        r.shown() == shown_of(r.grammar),
{
    let r: LangConfig = LangConfig {
        grammar: Grammar::Swift,
        def_kinds: kinds(&[
            "function_declaration",
            "class_declaration",
            "struct_declaration",
            "protocol_declaration",
            "enum_declaration",
            "extension_declaration",
        ]),
        name_field: "name".to_owned(),
        container_kinds: kinds(&["class_body", "struct_body", "enum_body", "protocol_body"]),
    };
    assert(r.shown().defs =~= shown_of(r.grammar).defs);
    assert(r.shown().containers =~= shown_of(r.grammar).containers);
    r
}

pub fn ts_lua() -> (r: LangConfig)
    ensures
        r.grammar == Grammar::Lua,
        r.shown() == shown_of(r.grammar),
{
    let r: LangConfig = LangConfig {
        grammar: Grammar::Lua,
        def_kinds: kinds(&[
            "function_declaration",
            "local_function",
            "assignment_statement",
        ]),
        name_field: "name".to_owned(),
        container_kinds: Vec::new(),
    };
    assert(r.shown().defs =~= shown_of(r.grammar).defs);
    assert(r.shown().containers =~= shown_of(r.grammar).containers);
    r
}

pub fn ts_ruby() -> (r: LangConfig)
    ensures
        r.grammar == Grammar::Ruby,
        r.shown() == shown_of(r.grammar),
{
    let r: LangConfig = LangConfig {
        grammar: Grammar::Ruby,
        def_kinds: kinds(&[
            "method",
            "singleton_method",
            "class",
            "module",
            "singleton_class",
        ]),
        name_field: "name".to_owned(),
        container_kinds: kinds(&["body_statement"]),
    };
    assert(r.shown().defs =~= shown_of(r.grammar).defs);
    assert(r.shown().containers =~= shown_of(r.grammar).containers);
    r
}

pub fn ts_bash() -> (r: LangConfig)
    ensures
        r.grammar == Grammar::Bash,
        r.shown() == shown_of(r.grammar),
{
    let r: LangConfig = LangConfig {
        grammar: Grammar::Bash,
        def_kinds: kinds(&[
            "function_definition",
        ]),
        name_field: "name".to_owned(),
        container_kinds: Vec::new(),
    };
    assert(r.shown().defs =~= shown_of(r.grammar).defs);
    assert(r.shown().containers =~= shown_of(r.grammar).containers);
    r
}

pub fn ts_elixir() -> (r: LangConfig)
    ensures
        r.grammar == Grammar::Elixir,
        r.shown() == shown_of(r.grammar),
{
    let r: LangConfig = LangConfig {
        grammar: Grammar::Elixir,
        def_kinds: kinds(&[
            "call",
        ]),
        name_field: "target".to_owned(),
        container_kinds: Vec::new(),
    };
    assert(r.shown().defs =~= shown_of(r.grammar).defs);
    assert(r.shown().containers =~= shown_of(r.grammar).containers);
    r
}

pub fn ts_json() -> (r: LangConfig)
    ensures
        r.grammar == Grammar::Json,
        r.shown() == shown_of(r.grammar),
{
    let r: LangConfig = LangConfig {
        grammar: Grammar::Json,
        def_kinds: kinds(&[
            "pair",
        ]),
        name_field: "key".to_owned(),
        container_kinds: Vec::new(),
    };
    assert(r.shown().defs =~= shown_of(r.grammar).defs);
    assert(r.shown().containers =~= shown_of(r.grammar).containers);
    r
}

pub fn ts_yaml() -> (r: LangConfig)
    ensures
        r.grammar == Grammar::Yaml,
        r.shown() == shown_of(r.grammar),
{
    let r: LangConfig = LangConfig {
        grammar: Grammar::Yaml,
        def_kinds: kinds(&[
            "block_mapping_pair",
        ]),
        name_field: "key".to_owned(),
        container_kinds: Vec::new(),
    };
    assert(r.shown().defs =~= shown_of(r.grammar).defs);
    assert(r.shown().containers =~= shown_of(r.grammar).containers);
    r
}

pub fn ts_html() -> (r: LangConfig)
    ensures
        r.grammar == Grammar::Html,
        r.shown() == shown_of(r.grammar),
{
    // An element's tag is no field of it, so its first line stands for it; its
    // children are shown one level deep.
    let r: LangConfig = LangConfig {
        grammar: Grammar::Html,
        def_kinds: kinds(&[
            "element",
        ]),
        name_field: "".to_owned(),
        container_kinds: kinds(&["element"]),
    };
    assert(r.shown().defs =~= shown_of(r.grammar).defs);
    assert(r.shown().containers =~= shown_of(r.grammar).containers);
    r
}

pub fn ts_css() -> (r: LangConfig)
    ensures
        r.grammar == Grammar::Css,
        r.shown() == shown_of(r.grammar),
{
    // A rule's selectors are no field of it, so what precedes the brace stands for it.
    let r: LangConfig = LangConfig {
        grammar: Grammar::Css,
        def_kinds: kinds(&[
            "rule_set",
            "at_rule",
        ]),
        name_field: "".to_owned(),
        container_kinds: Vec::new(),
    };
    assert(r.shown().defs =~= shown_of(r.grammar).defs);
    assert(r.shown().containers =~= shown_of(r.grammar).containers);
    r
}

/// What is shown of Python, JavaScript and TypeScript.
pub proof fn law_scripts(r_python: LangConfig, r_javascript: LangConfig, tsx: bool, r_typescript: LangConfig)
    requires
        call_ensures(ts_python, (), r_python),
        call_ensures(ts_javascript, (), r_javascript),
        call_ensures(ts_typescript, (tsx,), r_typescript),
    ensures
        r_python.grammar is Python,
        texts(r_python.def_kinds@) == seq![
            "function_definition"@,
            "async_function_definition"@,
            "class_definition"@,
            "decorated_definition"@,
        ],
        r_python.name_field@ == "name"@,
        texts(r_python.container_kinds@) == seq![
            "block"@,
        ],
        r_javascript.grammar is JavaScript,
        texts(r_javascript.def_kinds@) == seq![
            "function_declaration"@,
            "generator_function_declaration"@,
            "class_declaration"@,
            "method_definition"@,
            "lexical_declaration"@,
            "variable_declaration"@,
        ],
        r_javascript.name_field@ == "name"@,
        texts(r_javascript.container_kinds@) == seq![
            "class_body"@,
        ],
        tsx ==> r_typescript.grammar is Tsx,
        !tsx ==> r_typescript.grammar is TypeScript,
        texts(r_typescript.def_kinds@) == seq![
            "function_declaration"@,
            "generator_function_declaration"@,
            "class_declaration"@,
            "method_definition"@,
            "interface_declaration"@,
            "type_alias_declaration"@,
            "enum_declaration"@,
            "abstract_class_declaration"@,
            "lexical_declaration"@,
            "variable_declaration"@,
        ],
        r_typescript.name_field@ == "name"@,
        texts(r_typescript.container_kinds@) == seq![
            "class_body"@,
        ],
{
    assert(r_python.shown() == shown_of(r_python.grammar));
    assert(r_javascript.shown() == shown_of(r_javascript.grammar));
    assert(r_typescript.shown() == shown_of(r_typescript.grammar));
}

/// What is shown of Go, Java, C, C++ and Swift.
pub proof fn law_compiled_languages(r_go: LangConfig, r_java: LangConfig, r_c: LangConfig, r_cpp: LangConfig, r_swift: LangConfig)
    requires
        call_ensures(ts_go, (), r_go),
        call_ensures(ts_java, (), r_java),
        call_ensures(ts_c, (), r_c),
        call_ensures(ts_cpp, (), r_cpp),
        call_ensures(ts_swift, (), r_swift),
    ensures
        r_go.grammar is Go,
        texts(r_go.def_kinds@) == seq![
            "function_declaration"@,
            "method_declaration"@,
            "type_declaration"@,
            "const_declaration"@,
            "var_declaration"@,
        ],
        r_go.name_field@ == "name"@,
        texts(r_go.container_kinds@) == Seq::<Seq<char>>::empty(),
        r_java.grammar is Java,
        texts(r_java.def_kinds@) == seq![
            "class_declaration"@,
            "interface_declaration"@,
            "enum_declaration"@,
            "method_declaration"@,
            "constructor_declaration"@,
            "annotation_type_declaration"@,
        ],
        r_java.name_field@ == "name"@,
        texts(r_java.container_kinds@) == seq![
            "class_body"@,
            "interface_body"@,
            "enum_body"@,
        ],
        r_c.grammar is C,
        texts(r_c.def_kinds@) == seq![
            "function_definition"@,
            "declaration"@,
            "struct_specifier"@,
            "enum_specifier"@,
            "typedef_declaration"@,
        ],
        r_c.name_field@ == "declarator"@,
        texts(r_c.container_kinds@) == Seq::<Seq<char>>::empty(),
        r_cpp.grammar is Cpp,
        texts(r_cpp.def_kinds@) == seq![
            "function_definition"@,
            "declaration"@,
            "class_specifier"@,
            "struct_specifier"@,
            "enum_specifier"@,
            "namespace_definition"@,
            "template_declaration"@,
        ],
        r_cpp.name_field@ == "name"@,
        texts(r_cpp.container_kinds@) == seq![
            "field_declaration_list"@,
        ],
        r_swift.grammar is Swift,
        texts(r_swift.def_kinds@) == seq![
            "function_declaration"@,
            "class_declaration"@,
            "struct_declaration"@,
            "protocol_declaration"@,
            "enum_declaration"@,
            "extension_declaration"@,
        ],
        r_swift.name_field@ == "name"@,
        texts(r_swift.container_kinds@) == seq![
            "class_body"@,
            "struct_body"@,
            "enum_body"@,
            "protocol_body"@,
        ],
{
    assert(r_go.shown() == shown_of(r_go.grammar));
    assert(r_java.shown() == shown_of(r_java.grammar));
    assert(r_c.shown() == shown_of(r_c.grammar));
    assert(r_cpp.shown() == shown_of(r_cpp.grammar));
    assert(r_swift.shown() == shown_of(r_swift.grammar));
}

/// What is shown of Lua, Ruby, Bash and Elixir.
pub proof fn law_small_languages(r_lua: LangConfig, r_ruby: LangConfig, r_bash: LangConfig, r_elixir: LangConfig)
    requires
        call_ensures(ts_lua, (), r_lua),
        call_ensures(ts_ruby, (), r_ruby),
        call_ensures(ts_bash, (), r_bash),
        call_ensures(ts_elixir, (), r_elixir),
    ensures
        r_lua.grammar is Lua,
        texts(r_lua.def_kinds@) == seq![
            "function_declaration"@,
            "local_function"@,
            "assignment_statement"@,
        ],
        r_lua.name_field@ == "name"@,
        texts(r_lua.container_kinds@) == Seq::<Seq<char>>::empty(),
        r_ruby.grammar is Ruby,
        texts(r_ruby.def_kinds@) == seq![
            "method"@,
            "singleton_method"@,
            "class"@,
            "module"@,
            "singleton_class"@,
        ],
        r_ruby.name_field@ == "name"@,
        texts(r_ruby.container_kinds@) == seq![
            "body_statement"@,
        ],
        r_bash.grammar is Bash,
        texts(r_bash.def_kinds@) == seq![
            "function_definition"@,
        ],
        r_bash.name_field@ == "name"@,
        texts(r_bash.container_kinds@) == Seq::<Seq<char>>::empty(),
        r_elixir.grammar is Elixir,
        texts(r_elixir.def_kinds@) == seq![
            "call"@,
        ],
        r_elixir.name_field@ == "target"@,
        texts(r_elixir.container_kinds@) == Seq::<Seq<char>>::empty(),
{
    assert(r_lua.shown() == shown_of(r_lua.grammar));
    assert(r_ruby.shown() == shown_of(r_ruby.grammar));
    assert(r_bash.shown() == shown_of(r_bash.grammar));
    assert(r_elixir.shown() == shown_of(r_elixir.grammar));
}

/// What is shown of JSON, YAML, HTML and CSS.
pub proof fn law_data_and_markup(r_json: LangConfig, r_yaml: LangConfig, r_html: LangConfig, r_css: LangConfig)
    requires
        call_ensures(ts_json, (), r_json),
        call_ensures(ts_yaml, (), r_yaml),
        call_ensures(ts_html, (), r_html),
        call_ensures(ts_css, (), r_css),
    ensures
        r_json.grammar is Json,
        texts(r_json.def_kinds@) == seq![
            "pair"@,
        ],
        r_json.name_field@ == "key"@,
        texts(r_json.container_kinds@) == Seq::<Seq<char>>::empty(),
        r_yaml.grammar is Yaml,
        texts(r_yaml.def_kinds@) == seq![
            "block_mapping_pair"@,
        ],
        r_yaml.name_field@ == "key"@,
        texts(r_yaml.container_kinds@) == Seq::<Seq<char>>::empty(),
        r_html.grammar is Html,
        texts(r_html.def_kinds@) == seq![
            "element"@,
        ],
        r_html.name_field@ == ""@,
        texts(r_html.container_kinds@) == seq![
            "element"@,
        ],
        r_css.grammar is Css,
        texts(r_css.def_kinds@) == seq![
            "rule_set"@,
            "at_rule"@,
        ],
        r_css.name_field@ == ""@,
        texts(r_css.container_kinds@) == Seq::<Seq<char>>::empty(),
{
    assert(r_json.shown() == shown_of(r_json.grammar));
    assert(r_yaml.shown() == shown_of(r_yaml.grammar));
    assert(r_html.shown() == shown_of(r_html.grammar));
    assert(r_css.shown() == shown_of(r_css.grammar));
}

} // verus!
