//! Outlines made line by line or by a regular expression.
use vstd::prelude::*;
use vstd::utf8::encode_utf8;

use crate::numerals::{decimal_nat, pad_left, padded, u64_text};
use crate::patterns::{capture_parts, regex_accepts, regex_captures, Capture, TextPattern};
use crate::text::{
    ends_with, has_prefix, has_suffix, lemma_filter_last, lines_of, split_lines, starts_with, texts,
    trim, trimmed,
};

verus! {

/// The columns in front of an outline entry: the first and the last line of
/// the definition.
pub open spec fn span_text(start: nat, end: nat) -> Seq<char> {
    pad_left(decimal_nat(start), 4) + "-"@ + pad_left(decimal_nat(end), 4) + " | "@
}

/// An entry of an outline.
pub open spec fn entry_of(start: nat, end: nat, text: Seq<char>) -> Seq<char> {
    span_text(start, end) + text + "\n"@
}

/// The heading of an outline.
pub open spec fn heading_of(label: Seq<char>, path: Seq<char>) -> Seq<char> {
    "--- "@ + label + " outline: "@ + path + " ---\n\n"@
}

/// The columns in front of an outline entry.
pub fn span_columns(start: u64, end: u64) -> (r: String)
    ensures
        r@ == span_text(start as nat, end as nat),
{
    let first: String = u64_text(start);
    let mut t: String = padded(first.as_str(), 4);
    t.append("-");
    let last: String = u64_text(end);
    let last: String = padded(last.as_str(), 4);
    t.append(last.as_str());
    t.append(" | ");
    t
}

/// An entry of an outline.
pub fn entry(start: u64, end: u64, text: &str) -> (r: String)
    ensures
        r@ == entry_of(start as nat, end as nat, text@),
{
    let mut t: String = span_columns(start, end);
    t.append(text);
    t.append("\n");
    t
}

/// The heading of an outline.
pub fn heading(label: &str, path: &str) -> (r: String)
    ensures
        r@ == heading_of(label@, path@),
{
    let mut t: String = "--- ".to_owned();
    t.append(label);
    t.append(" outline: ");
    t.append(path);
    t.append(" ---\n\n");
    t
}

/// Whether a line heads a TOML table or an array of tables.
pub open spec fn is_toml_heading(line: Seq<char>) -> bool {
    let t = trimmed(line);
    ||| has_prefix(t, "[["@) && has_suffix(t, "]]"@)
    ||| has_prefix(t, "["@) && has_suffix(t, "]"@) && !has_prefix(t, "[["@)
}

/// The entries for the first `n` lines that a kind of outline shows.
pub open spec fn line_entries(lines: Seq<Seq<char>>, markdown: bool, n: int) -> Seq<char>
    decreases n,
{
    if n <= 0 {
        Seq::empty()
    } else {
        let before = line_entries(lines, markdown, n - 1);
        let line = lines[n - 1];
        if markdown {
            if has_prefix(line, "#"@) {
                before + entry_of(n as nat, n as nat, line)
            } else {
                before
            }
        } else if is_toml_heading(line) {
            before + entry_of(n as nat, n as nat, trimmed(line))
        } else {
            before
        }
    }
}

/// The outline of a TOML file: its table headings.
pub fn outline_toml(path: &str, source: &str) -> (r: String)
    ensures
        r@ == heading_of("TOML"@, path@) + line_entries(
            lines_of(source@),
            false,
            lines_of(source@).len() as int,
        ),
{
    let lines: Vec<String> = split_lines(source);
    let ghost all = texts(lines@);
    let mut body: String = String::new();
    let n: usize = lines.len();
    let mut i: usize = 0;
    assert(body@ =~= line_entries(all, false, 0));
    while i < n
        invariant
            i <= n,
            n == lines@.len(),
            all == texts(lines@),
            body@ == line_entries(all, false, i as int),
        decreases n - i,
    {
        assert(all[i as int] == lines@[i as int]@);
        let t: String = trim(lines[i].as_str());
        let double: bool = starts_with(t.as_str(), "[[");
        if (double && ends_with(t.as_str(), "]]")) || (starts_with(t.as_str(), "[") && ends_with(
            t.as_str(),
            "]",
        ) && !double) {
            let e: String = entry(i as u64 + 1, i as u64 + 1, t.as_str());
            body.append(e.as_str());
        }
        i = i + 1;
    }
    assert(all.len() == n);
    let mut out: String = heading("TOML", path);
    out.append(body.as_str());
    out
}

/// The outline of a Markdown file: its headings.
pub fn outline_markdown(path: &str, source: &str) -> (r: String)
    ensures
        r@ == heading_of("Markdown"@, path@) + line_entries(
            lines_of(source@),
            true,
            lines_of(source@).len() as int,
        ),
{
    let lines: Vec<String> = split_lines(source);
    let ghost all = texts(lines@);
    let mut body: String = String::new();
    let n: usize = lines.len();
    let mut i: usize = 0;
    assert(body@ =~= line_entries(all, true, 0));
    while i < n
        invariant
            i <= n,
            n == lines@.len(),
            all == texts(lines@),
            body@ == line_entries(all, true, i as int),
        decreases n - i,
    {
        assert(all[i as int] == lines@[i as int]@);
        if starts_with(lines[i].as_str(), "#") {
            let e: String = entry(i as u64 + 1, i as u64 + 1, lines[i].as_str());
            body.append(e.as_str());
        }
        i = i + 1;
    }
    assert(all.len() == n);
    let mut out: String = heading("Markdown", path);
    out.append(body.as_str());
    out
}

/// The pattern for Kotlin definitions.
pub const KOTLIN_PATTERN: &'static str =
    "(?m)^\\s*((?:(?:public|private|protected|internal|open|abstract|override|suspend|inline|data|sealed|companion|object)\\s+)*(?:fun|class|object|interface|enum\\s+class|data\\s+class|sealed\\s+class)\\s+[\\w<>?]+)";

/// The pattern for SQL definitions.
pub const SQL_PATTERN: &'static str =
    "(?im)^\\s*(CREATE\\s+(?:OR\\s+REPLACE\\s+)?(?:TABLE|VIEW|INDEX|UNIQUE\\s+INDEX|FUNCTION|PROCEDURE|TRIGGER|SCHEMA|SEQUENCE|TYPE)\\s+(?:IF\\s+NOT\\s+EXISTS\\s+)?[\\w.\"]+)";

/// How many line feeds stand in the first `n` bytes of a text.
pub open spec fn feeds_before(bytes: Seq<u8>, n: int) -> nat
    decreases n,
{
    if n <= 0 {
        0
    } else {
        feeds_before(bytes, n - 1) + if bytes[n - 1] == 10 {
            1nat
        } else {
            0nat
        }
    }
}

/// The entries for the first `n` of a list of matches: each with the lines on
/// which it begins and ends, and what its group holds.
pub open spec fn capture_entries(
    bytes: Seq<u8>,
    found: Seq<(int, int, Option<Seq<char>>)>,
    n: int,
) -> Seq<char>
    decreases n,
{
    if n <= 0 {
        Seq::empty()
    } else {
        let (start, end, group) = found[n - 1];
        capture_entries(bytes, found, n - 1) + entry_of(
            1 + feeds_before(bytes, start),
            1 + feeds_before(bytes, end),
            trimmed(
                match group {
                    Some(t) => t,
                    None => Seq::empty(),
                },
            ),
        )
    }
}

fn count_feeds(source: &str, n: usize) -> (r: usize)
    requires
        n <= encode_utf8(source@).len(),
    ensures
        r == feeds_before(encode_utf8(source@), n as int),
        r <= n,
{
    let bytes: &[u8] = source.as_bytes();
    let mut count: usize = 0;
    let mut i: usize = 0;
    while i < n
        invariant
            count <= i <= n,
            bytes@ == encode_utf8(source@),
            n <= bytes@.len(),
            count == feeds_before(bytes@, i as int),
        decreases n - i,
    {
        if bytes[i] == 10 {
            count = count + 1;
        }
        i = i + 1;
    }
    count
}

/// The entries for a list of matches in a source.
pub fn capture_outline(source: &str, found: &Vec<Capture>) -> (r: String)
    requires
        encode_utf8(source@).len() < usize::MAX,
        forall|i: int|
            0 <= i < found@.len() ==> (#[trigger] found@[i]).start <= encode_utf8(source@).len()
                && found@[i].end <= encode_utf8(source@).len(),
    ensures
        r@ == capture_entries(
            encode_utf8(source@),
            capture_parts(found@),
            found@.len() as int,
        ),
{
    let ghost bytes = encode_utf8(source@);
    let ghost all = capture_parts(found@);
    let mut out: String = String::new();
    let mut i: usize = 0;
    assert(out@ =~= capture_entries(bytes, all, 0));
    while i < found.len()
        invariant
            i <= found@.len(),
            bytes == encode_utf8(source@),
            bytes.len() < usize::MAX,
            all == capture_parts(found@),
            forall|k: int|
                0 <= k < found@.len() ==> (#[trigger] found@[k]).start <= bytes.len()
                    && found@[k].end <= bytes.len(),
            out@ == capture_entries(bytes, all, i as int),
        decreases found@.len() - i,
    {
        assert(all[i as int] == found@[i as int].parts());
        let start: usize = 1 + count_feeds(source, found[i].start);
        let end: usize = 1 + count_feeds(source, found[i].end);
        let text: String = match &found[i].group {
            Some(t) => trim(t.as_str()),
            None => trim(""),
        };
        proof {
            reveal_strlit("");
            assert(""@ =~= Seq::<char>::empty());
        }
        let e: String = entry(start as u64, end as u64, text.as_str());
        out.append(e.as_str());
        i = i + 1;
    }
    out
}

/// The outline of a file by a regular expression; `None` where the expression
/// is not accepted.
fn outline_by_pattern(label: &str, path: &str, source: &str, pattern: &str) -> (r: Option<String>)
    requires
        encode_utf8(source@).len() < usize::MAX,
    ensures
        match r {
            Some(t) => regex_accepts(pattern@) && t@ == heading_of(label@, path@) + capture_entries(
                encode_utf8(source@),
                regex_captures(pattern@, source@),
                regex_captures(pattern@, source@).len() as int,
            ),
            None => !regex_accepts(pattern@),
        },
{
    match TextPattern::new(pattern) {
        Err(_) => None,
        Ok(p) => {
            let found: Vec<Capture> = p.captures(source);
            assert(capture_parts(found@).len() == found@.len());
            let body: String = capture_outline(source, &found);
            let mut out: String = heading(label, path);
            out.append(body.as_str());
            Some(out)
        },
    }
}

/// The outline of a Kotlin file.
pub fn outline_kotlin(path: &str, source: &str) -> (r: Option<String>)
    requires
        encode_utf8(source@).len() < usize::MAX,
    ensures
        match r {
            Some(t) => regex_accepts(KOTLIN_PATTERN@) && t@ == heading_of("Kotlin"@, path@)
                + capture_entries(
                encode_utf8(source@),
                regex_captures(KOTLIN_PATTERN@, source@),
                regex_captures(KOTLIN_PATTERN@, source@).len() as int,
            ),
            None => !regex_accepts(KOTLIN_PATTERN@),
        },
{
    outline_by_pattern("Kotlin", path, source, KOTLIN_PATTERN)
}

/// The outline of a SQL file.
pub fn outline_sql(path: &str, source: &str) -> (r: Option<String>)
    requires
        encode_utf8(source@).len() < usize::MAX,
    ensures
        match r {
            Some(t) => regex_accepts(SQL_PATTERN@) && t@ == heading_of("SQL"@, path@)
                + capture_entries(
                encode_utf8(source@),
                regex_captures(SQL_PATTERN@, source@),
                regex_captures(SQL_PATTERN@, source@).len() as int,
            ),
            None => !regex_accepts(SQL_PATTERN@),
        },
{
    outline_by_pattern("SQL", path, source, SQL_PATTERN)
}

/// An entry: its first and its last line, each padded to four columns, and its
/// text. A heading names the language and the file.
pub proof fn law_entries(start: u64, end: u64, text: &str, r: String, label: &str, path: &str, h: String)
    requires
        call_ensures(entry, (start, end, text), r),
        call_ensures(heading, (label, path), h),
    ensures
        r@ == pad_left(decimal_nat(start as nat), 4) + "-"@ + pad_left(decimal_nat(end as nat), 4)
            + " | "@ + text@ + "\n"@,
        h@ == "--- "@ + label@ + " outline: "@ + path@ + " ---\n\n"@,
{
}

proof fn lemma_same_lines(a: Seq<Seq<char>>, b: Seq<Seq<char>>, markdown: bool, n: int)
    requires
        0 <= n <= a.len(),
        n <= b.len(),
        forall|i: int| 0 <= i < n ==> #[trigger] a[i] == b[i],
    ensures
        line_entries(a, markdown, n) == line_entries(b, markdown, n),
    decreases n,
{
    if n > 0 {
        lemma_same_lines(a, b, markdown, n - 1);
        assert(a[n - 1] == b[n - 1]);
    }
}

/// An outline of Markdown shows the lines that begin with a number sign, each
/// as it is, under its number; one of TOML those that name a table, without the
/// whitespace around them.
pub proof fn law_headings_are_shown(
    path: &str,
    source: &str,
    more: &str,
    line: &str,
    md: String,
    md_more: String,
    toml: String,
    toml_more: String,
    shown: String,
    bare: String,
    table: &str,
    shown_table: String,
    n: u64,
)
    requires
        call_ensures(outline_markdown, (path, source), md),
        call_ensures(outline_markdown, (path, more), md_more),
        call_ensures(outline_toml, (path, source), toml),
        call_ensures(outline_toml, (path, more), toml_more),
        lines_of(more@) == lines_of(source@).push(line@),
        n == lines_of(more@).len(),
        call_ensures(entry, (n, n, line), shown),
        call_ensures(trim, (line,), bare),
        table@ == bare@,
        call_ensures(entry, (n, n, table), shown_table),
    ensures
        md_more@ == if line@.len() > 0 && line@[0] == '#' {
            md@ + shown@
        } else {
            md@
        },
        ({
            let open = bare@.len() > 0 && bare@[0] == '[';
            let close = bare@.len() > 0 && bare@.last() == ']';
            let open2 = bare@.len() > 1 && bare@[0] == '[' && bare@[1] == '[';
            let close2 = bare@.len() > 1 && bare@.last() == ']' && bare@[bare@.len() - 2] == ']';
            toml_more@ == if (open2 && close2) || (open && close && !open2) {
                toml@ + shown_table@
            } else {
                toml@
            }
        }),
{
    let a = lines_of(source@);
    let b = lines_of(more@);
    let k = a.len() as int;
    lemma_same_lines(a, b, true, k);
    lemma_same_lines(a, b, false, k);
    assert(b[k] == line@);
    let t = bare@;
    reveal_strlit("#");
    reveal_strlit("[");
    reveal_strlit("]");
    reveal_strlit("[[");
    reveal_strlit("]]");
    assert(has_prefix(line@, "#"@) == (line@.len() > 0 && line@[0] == '#')) by {
        if line@.len() > 0 && line@[0] == '#' {
            assert(line@.take(1) =~= "#"@);
        }
        if has_prefix(line@, "#"@) {
            assert(line@.take(1)[0] == "#"@[0]);
        }
    }
    assert(has_prefix(t, "["@) == (t.len() > 0 && t[0] == '[')) by {
        if t.len() > 0 && t[0] == '[' {
            assert(t.take(1) =~= "["@);
        }
        if has_prefix(t, "["@) {
            assert(t.take(1)[0] == "["@[0]);
        }
    }
    assert(has_suffix(t, "]"@) == (t.len() > 0 && t.last() == ']')) by {
        if t.len() > 0 && t.last() == ']' {
            assert(t.skip(t.len() - 1) =~= "]"@);
        }
        if has_suffix(t, "]"@) {
            assert(t.skip(t.len() - 1)[0] == "]"@[0]);
        }
    }
    assert(has_prefix(t, "[["@) == (t.len() > 1 && t[0] == '[' && t[1] == '[')) by {
        if t.len() > 1 && t[0] == '[' && t[1] == '[' {
            assert(t.take(2) =~= "[["@);
        }
        if has_prefix(t, "[["@) {
            assert(t.take(2)[0] == "[["@[0] && t.take(2)[1] == "[["@[1]);
        }
    }
    assert(has_suffix(t, "]]"@) == (t.len() > 1 && t.last() == ']' && t[t.len() - 2] == ']')) by {
        if t.len() > 1 && t.last() == ']' && t[t.len() - 2] == ']' {
            assert(t.skip(t.len() - 2) =~= "]]"@);
        }
        if has_suffix(t, "]]"@) {
            assert(t.skip(t.len() - 2)[0] == "]]"@[0] && t.skip(t.len() - 2)[1] == "]]"@[1]);
        }
    }
    let h = heading_of("Markdown"@, path@);
    let g = heading_of("TOML"@, path@);
    assert(h + (line_entries(a, true, k) + shown@) =~= h + line_entries(a, true, k) + shown@);
    assert(g + (line_entries(a, false, k) + shown_table@) =~= g + line_entries(a, false, k)
        + shown_table@);
}

proof fn lemma_feeds(bytes: Seq<u8>, n: int)
    requires
        0 <= n <= bytes.len(),
    ensures
        feeds_before(bytes, n) == bytes.take(n).filter(|b: u8| b == 10).len(),
    decreases n,
{
    let pred = |b: u8| b == 10;
    if n > 0 {
        lemma_feeds(bytes, n - 1);
        lemma_filter_last(bytes.take(n), pred);
        assert(bytes.take(n).drop_last() =~= bytes.take(n - 1));
    } else {
        reveal(Seq::filter);
        assert(bytes.take(0).filter(pred).len() == 0);
    }
}

/// What a pattern finds is shown in order: the lines it reaches from and to,
/// counted by the line feeds before them, and what it caught, without the
/// whitespace around it.
pub proof fn law_captures_are_shown(
    source: &str,
    found: &Vec<Capture>,
    more: &Vec<Capture>,
    c: Capture,
    r: String,
    s: String,
    group: &str,
    bare: String,
    text: &str,
    from: u64,
    to: u64,
    shown: String,
)
    requires
        call_ensures(capture_outline, (source, found), r),
        call_ensures(capture_outline, (source, more), s),
        more@ == found@.push(c),
        c.start <= encode_utf8(source@).len(),
        c.end <= encode_utf8(source@).len(),
        group@ == match c.group {
            Some(t) => t@,
            None => Seq::empty(),
        },
        call_ensures(trim, (group,), bare),
        text@ == bare@,
        from == 1 + encode_utf8(source@).take(c.start as int).filter(|b: u8| b == 10).len(),
        to == 1 + encode_utf8(source@).take(c.end as int).filter(|b: u8| b == 10).len(),
        call_ensures(entry, (from, to, text), shown),
    ensures
        found@.len() == 0 ==> r@.len() == 0,
        s@ == r@ + shown@,
{
    let bytes = encode_utf8(source@);
    lemma_feeds(bytes, c.start as int);
    lemma_feeds(bytes, c.end as int);
    let a = capture_parts(found@);
    let b = capture_parts(more@);
    assert(b =~= a.push(c.parts()));
    lemma_same_captures(bytes, a, b, found@.len() as int);
}

proof fn lemma_same_captures(
    bytes: Seq<u8>,
    a: Seq<(int, int, Option<Seq<char>>)>,
    b: Seq<(int, int, Option<Seq<char>>)>,
    n: int,
)
    requires
        0 <= n <= a.len(),
        n <= b.len(),
        forall|i: int| 0 <= i < n ==> #[trigger] a[i] == b[i],
    ensures
        capture_entries(bytes, a, n) == capture_entries(bytes, b, n),
    decreases n,
{
    if n > 0 {
        lemma_same_captures(bytes, a, b, n - 1);
        assert(a[n - 1] == b[n - 1]);
    }
}

} // verus!
