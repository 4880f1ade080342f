use skald::json::parse_json;
use skald::tools::grep::{match_windows, GrepState};
use skald::tools::outline::rust::{normalize, outline_rust};
use skald::tools::outline::{outline_kind, AstOutline};
use skald::tools::search_run::SearchRun;
use skald::tools::search::{
    count_file_matches, file_has_match, grep_file, render_counts, render_files, render_matches,
    GrepFiles, OutputMode,
};
use skald::tools::walk::{
    is_listing_skipped, is_search_skipped, sort_entries, DirEntry, ListEntry, ListFiles, ListRun,
    SearchWalk,
};
use skald::tools::ToolDescriptionLength;

fn outline(path: &str, source: &str) -> String {
    AstOutline::new().execute(path, source).unwrap()
}

#[test]
fn rust_sources_are_outlined() {
    let source = "pub fn a(x: &'static str) -> Vec<u8> {\n    vec![]\n}\n\nstruct S<T> {\n    t: T,\n}\n\nenum E {\n    A,\n    B(u8),\n}\n\nimpl Clone for E {\n    fn clone(&self) -> E {\n        E::A\n    }\n    const X: u8 = 1;\n}\n\ntrait T {\n    fn m(&self);\n}\n\nmod inner {\n}\nmod outer;\ntype Q = u8;\nconst C: usize = 3;\nuse std::fmt;\n";
    let out = outline_rust("a.rs", source).unwrap();
    assert!(out.starts_with("--- Rust outline: a.rs ---\n\n"));
    let lines: Vec<&str> = out.lines().skip(2).collect();
    assert_eq!(
        lines,
        vec![
            "   1-   3 | pubfn a (x : &'static str) -> Vec <u8>",
            "   5-   7 | struct S<T>",
            "   9-  12 | enum E",
            "  10-  10 |   A",
            "  11-  11 |   B",
            "  14-  19 | impl Clone for E",
            "  15-  17 |   fn clone (& self) -> E",
            "  21-  23 | trait T",
            "  22-  22 |   fn m (& self)",
            "  25-  26 | mod inner",
            "  28-  28 | type Q = u8",
            "  29-  29 | const C: usize",
        ]
    );
    assert!(!out.contains("fmt"));
    assert!(outline_rust("b.rs", "fn (").is_err());
    assert_eq!(normalize("std :: vec :: Vec < u8 >"), "std::vec::Vec <u8>");
}

#[test]
fn tree_sitter_sources_are_outlined() {
    let py = outline("a.py", "class A:\n    def f(self):\n        pass\n\ndef g():\n    pass\n");
    assert!(py.starts_with("--- Python outline: a.py ---\n\n"));
    assert!(py.contains("   1-   3 | class_definition: A\n"));
    assert!(py.contains("   2-   3 |   function_definition: f\n"));
    assert!(py.contains("   5-   6 | function_definition: g\n"));
    let js = outline("a.js", "function f() {}\nclass C { m() {} }\n");
    assert!(js.contains("   1-   1 | function_declaration: f\n"));
    assert!(js.contains("   2-   2 |   method_definition: m\n"));
    assert!(outline("a.ts", "interface I { x: number }\n").contains("interface_declaration: I"));
    assert!(outline("a.tsx", "const x = <div/>;\n").contains("lexical_declaration"));
    assert!(outline("a.go", "package p\nfunc F() {}\n").contains("function_declaration: F"));
    assert!(outline("A.java", "class A { void m() {} }\n").contains("class_declaration: A"));
    assert!(outline("a.c", "int f(void) { return 0; }\n").contains("function_definition"));
    assert!(outline("a.cpp", "class A { };\n").contains("class_specifier: A"));
    assert!(outline("a.swift", "func f() {}\n").contains("function_declaration: f"));
    assert!(outline("a.lua", "function f() end\n").contains("function_declaration: f"));
    assert!(outline("a.rb", "class A\n  def m\n  end\nend\n").contains("class: A"));
    assert!(outline("a.sh", "f() { echo; }\n").contains("function_definition: f"));
    assert!(outline("a.ex", "defmodule A do\nend\n").contains("call"));
    assert!(outline("a.json", "{\"k\": 1}\n").contains("--- JSON outline: a.json ---"));
    assert!(outline("a.yaml", "k: 1\n").contains("--- YAML outline: a.yaml ---"));
    assert!(outline("a.html", "<p>x</p>\n").contains("element"));
    assert!(outline("a.css", "p > a { color: red }\n").contains("rule_set: p > a"));
}

#[test]
fn text_formats_are_outlined() {
    let md = outline("a.md", "# One\ntext\n## Two\n");
    assert!(md.contains("   1"));
    assert!(md.contains("# One"));
    assert!(md.contains("## Two"));
    let toml = outline("a.toml", "[package]\nname = \"x\"\n[[bin]]\n");
    assert!(toml.contains("[package]"));
    assert!(toml.contains("[[bin]]"));
    assert!(outline("a.kt", "class A {\n  fun f() {}\n}\n").contains("class A"));
    assert!(outline("a.sql", "CREATE TABLE t (id INT);\n").contains("CREATE TABLE"));
    assert!(outline("a.xyz", "?").starts_with("Language not supported for AST outline: .xyz\n"));
    assert!(outline_kind("rs").is_some());
    assert!(outline_kind("xyz").is_none());
    let t = AstOutline::new();
    assert_eq!(t.name(), "get_ast_outline");
    assert_eq!(t.unsupported("gone.xyz"), Some(outline("gone.xyz", "")));
    assert_eq!(t.unsupported("gone.rs"), None);
    assert_eq!(
        t.path(&parse_json("{}").unwrap()),
        Err("Missing required argument: path".to_string())
    );
    assert_eq!(t.describe(&parse_json("{\"path\":\"a.rs\"}").unwrap()).0, "outline `a.rs`");
}

#[test]
fn match_windows_hold_the_context() {
    let flags = vec![false, true, false, false, false, false, true, true];
    assert_eq!(match_windows(&flags, 1), vec![(0, 2), (5, 7)]);
    assert_eq!(match_windows(&flags, 0), vec![(1, 1), (6, 7)]);
    assert_eq!(match_windows(&flags, 9), vec![(0, 7)]);
    assert!(match_windows(&vec![false], 3).is_empty());
}

#[test]
fn patterns_and_globs_are_compiled() {
    let t = GrepFiles::new();
    let p = t.compile("fn +(\\w+)", false).unwrap();
    let none = t.compile_glob(None);
    assert!(file_has_match(&p, &none, "x", b"pub FN  main".to_vec()));
    assert!(!file_has_match(&p, &none, "x", b"main".to_vec()));
    let strict = t.compile("fn", true).unwrap();
    assert!(!file_has_match(&strict, &none, "x", b"FN".to_vec()));
    let g = t.compile_glob(Some("*.rs"));
    assert!(file_has_match(&p, &g, "main.rs", b"fn x".to_vec()));
    assert!(!file_has_match(&p, &g, "main.py", b"fn x".to_vec()));
    assert!(t.compile_glob(Some("a**b")).is_none());
}

#[test]
fn files_are_searched() {
    let t = GrepFiles::new();
    let args = t
        .arguments(&parse_json("{\"path\":\"src\",\"pattern\":\"b+\"}").unwrap())
        .unwrap();
    assert!(matches!(args.mode, OutputMode::Content));
    assert!(t.arguments(&parse_json("{\"path\":\"src\"}").unwrap()).is_err());
    let pattern = t.compile(&args.pattern, args.case_sensitive).unwrap();
    assert!(t.compile("(", true).is_err());
    let glob = t.compile_glob(Some("*.txt"));
    let none = t.compile_glob(None);
    let bytes = b"a\nbb\nc\nb\n".to_vec();
    assert_eq!(count_file_matches(&pattern, &none, "x.txt", bytes.clone()), Some(2));
    assert!(file_has_match(&pattern, &glob, "x.txt", bytes.clone()));
    assert!(!file_has_match(&pattern, &glob, "x.rs", bytes.clone()));
    let mut state = GrepState::new();
    grep_file(&mut state, &pattern, &none, "d/x.txt", "x.txt", bytes, 1000, 0);
    assert_eq!(state.matches.len(), 2);
    assert!(state.matches[0].contains("d/x.txt"));
    assert!(state.matches[0].contains("bb"));
    assert!(!state.truncated);
    let wide = format!("b{}", "é".repeat(300));
    let mut cut = GrepState::new();
    grep_file(&mut cut, &pattern, &none, "w", "w", wide.into_bytes(), 1000, 0);
    assert_eq!(cut.matches, vec![format!("w:1: b{}…", "é".repeat(249))]);
    let out = render_matches(&state, &args, "src");
    assert!(out.contains("bb"));
    let files = render_files(&vec!["d/x.txt".to_string()], &args, "src");
    assert!(files.contains("d/x.txt"));
    let counts = render_counts(&vec![("d/x.txt".to_string(), 2)], &args, "src");
    assert!(counts.contains("d/x.txt"));
    assert!(count_file_matches(&pattern, &none, "x.bin", vec![0xff, 0xfe]).is_none());
    let (label, _) = t.describe(
        &parse_json("{\"path\":\"src\",\"pattern\":\"x\"}").unwrap(),
        ToolDescriptionLength::Short,
    );
    assert!(label.contains("x"));
}

fn entry(name: &str, is_dir: bool) -> DirEntry {
    DirEntry { name: name.to_string(), path: name.to_string(), is_dir }
}

#[test]
fn searches_walk_in_order() {
    let sorted = sort_entries(vec![entry("b", false), entry("a", true), entry("C", false)]);
    let names: Vec<&str> = sorted.iter().map(|e| e.name.as_str()).collect();
    assert_eq!(names, vec!["C", "a", "b"]);
    assert!(is_search_skipped("node_modules"));
    assert!(is_listing_skipped(".git"));
    let mut walk = SearchWalk::new(entry("root", true));
    assert_eq!(walk.next().unwrap().name, "root");
    walk.enter(vec![entry("z.rs", false), entry("target", true), entry("src", true)]);
    assert_eq!(walk.next().unwrap().name, "src");
    walk.enter(vec![entry("m.rs", false)]);
    assert_eq!(walk.next().unwrap().name, "m.rs");
    assert_eq!(walk.next().unwrap().name, "z.rs");
    assert!(walk.next().is_none());
    let t = ListFiles::new();
    let args = t.arguments(&parse_json("{}").unwrap());
    assert!(t.visit("a.rs", false, true, 1, &args).listed);
    assert!(!t.visit(".git", true, false, 1, &args).entered);
    assert_eq!(t.render(Vec::new()), "[]");
}

fn listing(args: &str) -> String {
    let entries = |v: &[(&str, bool)]| -> Vec<ListEntry> {
        v.iter()
            .map(|e| ListEntry { name: e.0.to_string(), is_dir: e.1, is_file: !e.1 })
            .collect()
    };
    let mut run = ListRun::start(ListFiles::new().arguments(&parse_json(args).unwrap()));
    while let Some((dir, depth)) = run.next() {
        let found = match dir.as_str() {
            "" => entries(&[("src", true), (".git", true), ("a.md", false)]),
            "src" => entries(&[("core", true), ("lib.rs", false)]),
            "src/core" => entries(&[("deep", true), ("x.rs", false)]),
            _ => panic!("{dir} is not to be read"),
        };
        run.read(&dir, depth, &found);
    }
    run.result()
}

#[test]
fn listings_show_files_and_directories() {
    assert_eq!(
        listing("{}"),
        r#"["a.md","src","src/core","src/core/deep","src/core/x.rs","src/lib.rs"]"#
    );
    assert_eq!(listing(r#"{"depth":1}"#), r#"["a.md","src"]"#);
    assert_eq!(listing(r#"{"depth":2,"dirs_only":true}"#), r#"["src","src/core"]"#);
}

fn search(args: &str, files: &[(&str, &[u8])]) -> String {
    let args = GrepFiles::new().arguments(&parse_json(args).unwrap()).unwrap();
    let root = DirEntry { name: "r".to_string(), path: "/r".to_string(), is_dir: true };
    let mut run = SearchRun::start(args, root).unwrap();
    while let Some(e) = run.next() {
        if e.is_dir {
            run.enter(
                files
                    .iter()
                    .map(|f| DirEntry {
                        name: f.0.to_string(),
                        path: format!("/r/{}", f.0),
                        is_dir: false,
                    })
                    .collect(),
            );
        } else {
            let bytes = files.iter().find(|f| f.0 == e.name).unwrap().1.to_vec();
            run.found(&e, bytes);
        }
    }
    run.result("/r")
}

#[test]
fn searches_run_to_their_result() {
    let files: [(&str, &[u8]); 4] =
        [("b.txt", b"x\nfoo\ny\n"), ("a.txt", b"foo\nFOO\n"), ("c.bin", b"foo\0"), ("d.rs", b"no")];
    let content = |extra: &str| {
        search(&format!("{{\"path\":\"r\",\"pattern\":\"foo\"{extra}}}"), &files)
    };
    assert_eq!(content(""), "3 match(es):\na.txt:1: foo\na.txt:2: FOO\nb.txt:2: foo");
    assert_eq!(
        content(",\"case_sensitive\":true,\"max_results\":1,\"offset\":1"),
        "1 match(es):\nb.txt:2: foo"
    );
    assert_eq!(content(",\"output_mode\":\"files_only\""), "2 file(s):\na.txt\nb.txt");
    assert_eq!(content(",\"output_mode\":\"count\""), "2 file(s):\na.txt: 2\nb.txt: 1");
    assert_eq!(
        content(",\"include_glob\":\"*.rs\",\"output_mode\":\"files_only\""),
        "No files match \"foo\" in r."
    );
    assert_eq!(
        search("{\"path\":\"r\",\"pattern\":\"\\\"z\\\\d\"}", &files),
        "No matches for \"\\\"z\\\\d\" in r."
    );
    assert!(content(",\"context_lines\":1").contains(">/r/b.txt: 2: foo"));
    let args = GrepFiles::new()
        .arguments(&parse_json("{\"path\":\"r\",\"pattern\":\"(\"}").unwrap())
        .unwrap();
    let root = DirEntry { name: "r".to_string(), path: "/r".to_string(), is_dir: true };
    assert!(SearchRun::start(args, root).err().unwrap().starts_with("Invalid regex: regex parse error"));
}
