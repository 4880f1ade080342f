use skald::config::LlmProvider;
use skald::bytes::{byte_len, cut_to, get_range};
use skald::names::NameTable;
use skald::numerals::{grouped_text, i64_text, padded, parse_i64, parse_u32, repeat, u64_text};
use skald::paths::{
    canonicalize_for_policy, extension, file_name, file_stem, lexical_normalize, normalize_path,
    path_join, path_under, policy_ancestors, relative_text, resolve, split_path,
};
use skald::patterns::glob_match;
use skald::skald::{
    builtin_providers, builtin_tools, cleanup_steps, data_dir, datetime_config, initial_sources, log_flags,
    plugin_route, schedule_zone, CleanupStep, RequestsLogConfig,
};
use skald::sorting::{dedup_texts, sort_texts};
use skald::text::{
    contains_item, contains_str, join, lower, on_one_line, replace, split_char, split_lines, split_words, starts_with,
    str_eq, trim,
};

fn strings(v: &[&str]) -> Vec<String> {
    v.iter().map(|s| s.to_string()).collect()
}

#[test]
fn numerals_read_back() {
    for n in [0, 7, -7, 10, 1234567890, i64::MIN, i64::MAX] {
        assert_eq!(i64_text(n), n.to_string());
        assert_eq!(parse_i64(&i64_text(n)), Some(n));
    }
    assert_eq!(u64_text(u64::MAX), u64::MAX.to_string());
    assert_eq!(parse_i64("9223372036854775808"), None);
    assert_eq!(parse_i64("+5"), Some(5));
    assert_eq!(parse_i64(""), None);
    assert_eq!(parse_i64("-"), None);
    assert_eq!(parse_u32("4294967295"), Some(u32::MAX));
    assert_eq!(parse_u32("4294967296"), None);
    assert_eq!(padded("7", 3), "  7");
    assert_eq!(padded("1234", 3), "1234");
    assert_eq!(repeat("ab", 3), "ababab");
}

#[test]
fn digits_are_grouped_by_three() {
    assert_eq!(grouped_text(0), "0");
    assert_eq!(grouped_text(999), "999");
    assert_eq!(grouped_text(3200), "3,200");
    assert_eq!(grouped_text(1_000_000), "1,000,000");
    assert_eq!(grouped_text(12_045_006), "12,045,006");
}

#[test]
fn texts_are_cut_and_joined() {
    assert_eq!(trim(" \u{3000}a b\n"), "a b");
    assert_eq!(split_words("  a\tb \n"), vec!["a", "b"]);
    assert_eq!(split_char("a,,b", ','), vec!["a", "", "b"]);
    assert_eq!(split_lines("a\r\nb\n\nc"), vec!["a", "b", "", "c"]);
    assert_eq!(split_lines("a\n"), vec!["a"]);
    assert!(split_lines("").is_empty());
    assert_eq!(replace("aaa", "aa", "b"), "ba");
    assert!(contains_str("hello", "ell"));
    assert!(starts_with("hello", "he"));
    assert_eq!(join(&strings(&["a", "b"]), ", "), "a, b");
    assert_eq!(lower("ÀbC"), "Àbc");
}

#[test]
fn texts_are_ordered_by_character() {
    assert_eq!(
        sort_texts(strings(&["b", "a", "ab", "é", "Z"])),
        strings(&["Z", "a", "ab", "b", "é"])
    );
    assert_eq!(dedup_texts(strings(&["a", "a", "b", "a"])), strings(&["a", "b", "a"]));
}

#[test]
fn bytes_cut_only_between_characters() {
    assert_eq!(cut_to("aéb", 2), "a");
    assert_eq!(cut_to("aéb", 3), "aé");
    assert_eq!(cut_to("aéb", 9), "aéb");
    assert_eq!(byte_len("é€x"), 6);
    assert_eq!(get_range("é€x", 2, 5).as_deref(), Some("€"));
    assert_eq!(get_range("é€x", 5, 2), None);
}

#[test]
fn names_keep_their_order() {
    let mut t: NameTable<u8> = NameTable::new();
    t.insert("b".to_string(), 1);
    t.insert("a".to_string(), 2);
    t.insert("b".to_string(), 3);
    assert_eq!(t.len(), 2);
    assert_eq!(t.at(0).1, &3);
    assert_eq!(t.get("a"), Some(&2));
    t.remove("b");
    t.remove("zz");
    assert_eq!(t.len(), 1);
    assert_eq!(t.at(0).0, "a");
    assert!(contains_item(&strings(&["x", "y"]), "y"));
    assert!(!contains_item(&strings(&["x", "y"]), "xy"));
    assert!(str_eq("é", "é") && str_eq("", "") && !str_eq("a", "ab") && !str_eq("ab", "a"));
    assert_eq!(on_one_line("a\nb\r\n"), "a b\r ");
}

#[test]
fn paths_have_components() {
    assert_eq!(split_path("/a//b/./c/"), strings(&["/", "a", "b", "c"]));
    assert_eq!(split_path("./a"), strings(&[".", "a"]));
    assert_eq!(file_name("a/b.rs").as_deref(), Some("b.rs"));
    assert_eq!(file_name("a/.."), None);
    assert_eq!(file_stem("a/b.tar.gz").as_deref(), Some("b.tar"));
    assert_eq!(extension("a/b.tar.gz").as_deref(), Some("gz"));
    assert_eq!(extension(".bashrc"), None);
    assert!(path_under("/a/b/c", "/a/b"));
    assert!(!path_under("/a/bc", "/a/b"));
    assert_eq!(path_join("/a", "b"), "/a/b");
    assert_eq!(path_join("/a/", "b"), "/a/b");
    assert_eq!(resolve("/x", "/a"), "/x");
    assert_eq!(resolve("x", "/a"), "/a/x");
    assert_eq!(relative_text("/a/b/c", "/a").as_deref(), Some("b/c"));
    assert_eq!(relative_text("/b", "/a"), None);
}

#[test]
fn policy_paths_have_no_detour() {
    assert_eq!(lexical_normalize("/a/./b/../c"), "/a/c");
    assert_eq!(lexical_normalize("/../../x"), "/x");
    assert_eq!(lexical_normalize("../a/../../b"), "b");
    assert_eq!(lexical_normalize("./a//b/."), "a/b");
    assert_eq!(lexical_normalize(&lexical_normalize("/a/./b/../c")), "/a/c");
    assert_eq!(lexical_normalize(".."), "");
    let none: Vec<Option<String>> = Vec::new();
    assert_eq!(canonicalize_for_policy("docs/../secrets/x", "/p", &none), "/p/secrets/x");
    assert_eq!(
        policy_ancestors("docs/../secrets/x", "/p"),
        strings(&["/p/secrets/x", "/p/secrets", "/p", "/"])
    );
    let answers = vec![None, None, Some("/real".to_string())];
    assert_eq!(canonicalize_for_policy("docs/../secrets/x", "/p", &answers), "/real/secrets/x");
    let whole = vec![Some("/etc/passwd".to_string())];
    assert_eq!(canonicalize_for_policy("/etc/passwd", "/p", &whole), "/etc/passwd");
    assert_eq!(normalize_path("/p/secrets/x", "/p"), "secrets/x");
    assert_eq!(normalize_path("/etc/passwd", "/p"), "etc/passwd");
}

#[test]
fn globs_match_with_stars() {
    assert!(glob_match("GOOGLE_*", "GOOGLE_KEY"));
    assert!(glob_match("*", ""));
    assert!(glob_match("a*b*c", "axxbyyc"));
    assert!(!glob_match("a*b*c", "axxcyy"));
    assert!(glob_match("abc", "abc"));
    assert!(!glob_match("abc", "abcd"));
    assert!(glob_match("**", "x"));
    assert!(!glob_match("a*a", "a"));
}

#[test]
fn the_log_is_cleaned_up_in_steps() {
    let cfg = |enabled| {
        Some(RequestsLogConfig {
            enabled,
            request_payload_save: true,
            response_payload_save: false,
            request_header_save: true,
            response_header_save: false,
            cleanup_request_payload_after: Some(3),
            cleanup_response_payload_after: None,
            cleanup_headers_after: Some(5),
            cleanup_rows_after: Some(30),
        })
    };
    assert_eq!(
        cleanup_steps(&cfg(true)),
        vec![
            CleanupStep::RequestPayload(3),
            CleanupStep::Headers(5),
            CleanupStep::Rows(30),
            CleanupStep::Vacuum
        ]
    );
    assert!(cleanup_steps(&cfg(false)).is_empty());
    assert!(cleanup_steps(&None).is_empty());
    let flags = log_flags(&cfg(true)).unwrap();
    assert!(flags.request_payload && !flags.response_payload);
    assert!(flags.request_headers && !flags.response_headers);
    assert!(log_flags(&cfg(false)).is_none());
}

#[test]
fn the_start_has_its_names() {
    let tools = builtin_tools();
    assert_eq!(tools.len(), 18);
    assert!(tools.contains(&"write_file".to_string()));
    assert!(!tools.contains(&"execute_task".to_string()));
    assert_eq!(builtin_providers().len(), 6);
    assert!(!builtin_providers().contains(&LlmProvider::ElevenLabs));
    assert_eq!(initial_sources(), strings(&["web", "talk"]));
    assert_eq!(plugin_route("mobile"), "/api/plugin/mobile");
    assert_eq!(data_dir("/srv/app/web"), "/srv/app/data");
    assert_eq!(data_dir("web"), "data");
    assert_eq!(data_dir("/"), "./data");
    assert_eq!(schedule_zone(&Some("Europe/Rome".to_string())).as_deref(), Some("Europe/Rome"));
    assert_eq!(schedule_zone(&Some("Mars/Base".to_string())), None);
    assert_eq!(schedule_zone(&None), None);
    let d = datetime_config(&Some("UTC".to_string()), &Default::default());
    assert!(d.enabled);
    assert_eq!(d.timezone.as_deref(), Some("UTC"));
}
