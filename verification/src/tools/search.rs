//! The tool that searches files: its arguments, its reading of a file, and
//! its results.
use vstd::prelude::*;
use vstd::utf8::{decode_utf8, encode_utf8, encode_utf8_decode_utf8, valid_utf8};

use crate::json::{Json, JsonView};
use crate::numerals::{decimal_nat, usize_text};
use crate::patterns::{glob_accepts, glob_fits, regex_accepts, regex_finds, regex_problem, FileGlob, TextPattern};
use crate::text::{
    debug_of, debug_text, has_prefix, join, joined, lemma_filter_last, lines_of, opt_text,
    split_lines, str_eq, strip_prefix, texts, utf8_text,
};
use crate::tools::grep::{file_scan, GrepState, GrepView, BINARY_PROBE, MAX_CONTEXT, MAX_FILE_BYTES};
use crate::tools::{ToolCategory, ToolDescriptionLength, MAX_LABEL_FULL, MAX_LABEL_SHORT};

verus! {

/// The tool that searches files.
#[derive(Debug)]
pub struct GrepFiles;

/// What a search returns.
#[derive(Debug, Clone, Copy, PartialEq, Eq, Structural)]
pub enum OutputMode {
    /// The matching lines.
    Content,
    /// The files that match.
    FilesOnly,
    /// The number of matching lines per file.
    Count,
}

/// The mode of that name; the matching lines for any other.
pub open spec fn mode_of(name: Option<Seq<char>>) -> OutputMode {
    match name {
        Some(n) => if n == "files_only"@ {
            OutputMode::FilesOnly
        } else if n == "count"@ {
            OutputMode::Count
        } else {
            OutputMode::Content
        },
        None => OutputMode::Content,
    }
}

/// The arguments of a search.
#[derive(Debug)]
pub struct GrepArgs {
    pub path: String,
    pub pattern: String,
    pub case_sensitive: bool,
    pub include_glob: Option<String>,
    pub mode: OutputMode,
    pub context_lines: usize,
    pub max_results: u64,
    pub offset: u64,
}

/// A number argument with its default.
pub open spec fn number_or(args: JsonView, key: Seq<char>, default: int) -> int {
    match args.field(key).as_u64() {
        Some(n) => n,
        None => default,
    }
}

/// The pattern that is compiled: case is ignored unless it matters.
pub open spec fn pattern_text(pattern: Seq<char>, case_sensitive: bool) -> Seq<char> {
    if case_sensitive {
        pattern
    } else {
        "(?i)"@ + pattern
    }
}

/// A part of a list: at most `max` items from behind the first `offset`.
pub open spec fn page<A>(s: Seq<A>, offset: int, max: int) -> Seq<A> {
    if offset >= s.len() {
        Seq::empty()
    } else if max < s.len() - offset {
        s.subrange(offset, offset + max)
    } else {
        s.skip(offset)
    }
}

/// A path as shown: relative to the root where it lies in it.
pub open spec fn shown_path(root: Seq<char>, path: Seq<char>) -> Seq<char> {
    if has_prefix(path, root + "/"@) {
        path.skip((root + "/"@).len() as int)
    } else {
        path
    }
}

pub open spec fn shown_paths(root: Seq<char>, paths: Seq<Seq<char>>) -> Seq<Seq<char>> {
    paths.map_values(|p: Seq<char>| shown_path(root, p))
}

/// Whether a file's bytes are searched at all: it is not too large, not
/// binary, and text.
pub open spec fn is_searchable(bytes: Seq<u8>) -> bool {
    &&& bytes.len() <= MAX_FILE_BYTES
    &&& forall|i: int| 0 <= i < bytes.len() && i < BINARY_PROBE ==> #[trigger] bytes[i] != 0
    &&& valid_utf8(bytes)
}

/// Whether a file of that name is searched under an optional glob.
pub open spec fn is_included(glob: Option<FileGlob>, name: Seq<char>) -> bool {
    match glob {
        Some(g) => glob_fits(g.text(), name),
        None => true,
    }
}

/// Which of a file's lines match a pattern.
pub open spec fn line_flags(pattern: Seq<char>, lines: Seq<Seq<char>>) -> Seq<bool> {
    lines.map_values(|l: Seq<char>| regex_finds(pattern, l))
}

/// How many of the flags are set.
pub open spec fn count_set(flags: Seq<bool>) -> nat
    decreases flags.len(),
{
    if flags.len() == 0 {
        0
    } else {
        count_set(flags.drop_last()) + if flags.last() {
            1nat
        } else {
            0nat
        }
    }
}

impl GrepFiles {
    pub fn new() -> (r: GrepFiles)
        ensures
            r == GrepFiles,
    {
        GrepFiles
    }

    pub fn name(&self) -> (r: &'static str)
        ensures
            r@ == "grep_files"@,
    {
        "grep_files"
    }

    pub fn category(&self) -> (r: ToolCategory)
        ensures
            r == ToolCategory::Filesystem,
    {
        ToolCategory::Filesystem
    }

    /// The label of a call, and how long it may be.
    pub fn describe(&self, args: &Json, length: ToolDescriptionLength) -> (r: (String, usize))
        ensures
            ({
                let pattern = match args@.field("pattern"@).as_text() {
                    Some(p) => p,
                    None => "?"@,
                };
                let path = match args@.field("path"@).as_text() {
                    Some(p) => p,
                    None => "."@,
                };
                match length {
                    ToolDescriptionLength::Short => r.0@ == "grep_files `"@ + pattern + "`"@ && r.1
                        == MAX_LABEL_SHORT,
                    ToolDescriptionLength::Full => r.0@ == "grep_files `"@ + pattern + "` in "@ + path
                        && r.1 == MAX_LABEL_FULL,
                }
            }),
    {
        let pattern: String = match args.text_field("pattern") {
            Some(p) => p,
            None => "?".to_owned(),
        };
        let mut t: String = "grep_files `".to_owned();
        t.append(pattern.as_str());
        match length {
            ToolDescriptionLength::Short => {
                t.append("`");
                (t, MAX_LABEL_SHORT)
            },
            ToolDescriptionLength::Full => {
                let path: String = match args.text_field("path") {
                    Some(p) => p,
                    None => ".".to_owned(),
                };
                t.append("` in ");
                t.append(path.as_str());
                (t, MAX_LABEL_FULL)
            },
        }
    }

    /// The arguments of a call, with their defaults. The path and the pattern
    /// are required.
    pub fn arguments(&self, args: &Json) -> (r: Result<GrepArgs, String>)
        ensures
            match r {
                Ok(a) => {
                    &&& args@.field("path"@).as_text() == Some(a.path@)
                    &&& args@.field("pattern"@).as_text() == Some(a.pattern@)
                    &&& a.case_sensitive == (args@.field("case_sensitive"@).as_bool() == Some(true))
                    &&& opt_text(a.include_glob) == args@.field("include_glob"@).as_text()
                    &&& a.mode == mode_of(args@.field("output_mode"@).as_text())
                    &&& a.context_lines == if number_or(args@, "context_lines"@, 0) < MAX_CONTEXT {
                        number_or(args@, "context_lines"@, 0)
                    } else {
                        MAX_CONTEXT as int
                    }
                    &&& a.max_results == number_or(args@, "max_results"@, 100)
                    &&& a.offset == number_or(args@, "offset"@, 0)
                },
                Err(e) => if args@.field("path"@).as_text() is None {
                    e@ == "Missing: path"@
                } else {
                    args@.field("pattern"@).as_text() is None && e@ == "Missing: pattern"@
                },
            },
    {
        let path: String = match args.text_field("path") {
            Some(p) => p,
            None => {
                return Err("Missing: path".to_owned());
            },
        };
        let pattern: String = match args.text_field("pattern") {
            Some(p) => p,
            None => {
                return Err("Missing: pattern".to_owned());
            },
        };
        let case_sensitive: bool = match args.bool_field("case_sensitive") {
            Some(b) => b,
            None => false,
        };
        let include_glob: Option<String> = args.text_field("include_glob");
        let mode: OutputMode = match args.text_field("output_mode") {
            Some(m) => if str_eq(m.as_str(), "files_only") {
                OutputMode::FilesOnly
            } else if str_eq(m.as_str(), "count") {
                OutputMode::Count
            } else {
                OutputMode::Content
            },
            None => OutputMode::Content,
        };
        let context: u64 = match args.u64_field("context_lines") {
            Some(n) => n,
            None => 0,
        };
        let context_lines: usize = if context < MAX_CONTEXT {
            context as usize
        } else {
            MAX_CONTEXT as usize
        };
        let max_results: u64 = match args.u64_field("max_results") {
            Some(n) => n,
            None => 100,
        };
        let offset: u64 = match args.u64_field("offset") {
            Some(n) => n,
            None => 0,
        };
        Ok(
            GrepArgs {
                path,
                pattern,
                case_sensitive,
                include_glob,
                mode,
                context_lines,
                max_results,
                offset,
            },
        )
    }

    /// Compiles the pattern of a search.
    pub fn compile(&self, pattern: &str, case_sensitive: bool) -> (r: Result<TextPattern, String>)
        ensures
            match r {
                Ok(p) => regex_accepts(pattern_text(pattern@, case_sensitive)) && p.text()
                    == pattern_text(pattern@, case_sensitive),
                Err(e) => match regex_problem(pattern_text(pattern@, case_sensitive)) {
                    Some(why) => e@ == "Invalid regex: "@ + why,
                    None => false,
                },
            },
    {
        let text: String = if case_sensitive {
            pattern.to_owned()
        } else {
            let mut t: String = "(?i)".to_owned();
            t.append(pattern);
            t
        };
        match TextPattern::new(text.as_str()) {
            Ok(p) => Ok(p),
            Err(why) => {
                let mut e: String = "Invalid regex: ".to_owned();
                e.append(why.as_str());
                Err(e)
            },
        }
    }

    /// Compiles the glob that restricts a search. One that is none restricts
    /// nothing.
    pub fn compile_glob(&self, glob: Option<&str>) -> (r: Option<FileGlob>)
        ensures
            match glob {
                Some(g) => match r {
                    Some(p) => glob_accepts(g@) && p.text() == g@,
                    None => !glob_accepts(g@),
                },
                None => r is None,
            },
    {
        match glob {
            Some(g) => FileGlob::new(g),
            None => None,
        }
    }
}

/// The lines of a file that is searched; `None` where it is not.
fn file_lines(glob: &Option<FileGlob>, name: &str, bytes: Vec<u8>) -> (r: Option<Vec<String>>)
    ensures
        match r {
            Some(lines) => is_included(*glob, name@) && is_searchable(bytes@) && texts(lines@)
                == lines_of(decode_utf8(bytes@)),
            None => !is_included(*glob, name@) || !is_searchable(bytes@),
        },
{
    match glob {
        Some(g) => if !g.matches(name) {
            return None;
        },
        None => {},
    }
    let n: usize = bytes.len();
    if n > MAX_FILE_BYTES {
        return None;
    }
    let mut i: usize = 0;
    while i < n && i < BINARY_PROBE
        invariant
            n == bytes@.len(),
            i <= n,
            i <= BINARY_PROBE,
            forall|j: int| 0 <= j < i ==> #[trigger] bytes@[j] != 0,
        decreases n - i,
    {
        if bytes[i] == 0 {
            return None;
        }
        i = i + 1;
    }
    match utf8_text(bytes) {
        Some(text) => {
            proof {
                encode_utf8_decode_utf8(text@);
            }
            Some(split_lines(text.as_str()))
        },
        None => None,
    }
}

/// Which lines match.
fn match_lines(pattern: &TextPattern, lines: &Vec<String>) -> (r: Vec<bool>)
    ensures
        r@ == line_flags(pattern.text(), texts(lines@)),
{
    let ghost all = line_flags(pattern.text(), texts(lines@));
    let mut out: Vec<bool> = Vec::new();
    let mut i: usize = 0;
    while i < lines.len()
        invariant
            i <= lines@.len(),
            all == line_flags(pattern.text(), texts(lines@)),
            out@ == all.take(i as int),
        decreases lines@.len() - i,
    {
        out.push(pattern.is_match(lines[i].as_str()));
        assert(all[i as int] == regex_finds(pattern.text(), lines@[i as int]@));
        i = i + 1;
        assert(out@ =~= all.take(i as int));
    }
    assert(all.take(all.len() as int) =~= all);
    out
}

/// The number of matching lines of a file; `None` where it is not searched.
pub fn count_file_matches(pattern: &TextPattern, glob: &Option<FileGlob>, name: &str, bytes: Vec<u8>) -> (r:
    Option<usize>)
    ensures
        match r {
            Some(n) => is_included(*glob, name@) && is_searchable(bytes@) && n == count_set(
                line_flags(pattern.text(), lines_of(decode_utf8(bytes@))),
            ),
            None => !is_included(*glob, name@) || !is_searchable(bytes@),
        },
{
    match file_lines(glob, name, bytes) {
        None => None,
        Some(lines) => {
            let flags: Vec<bool> = match_lines(pattern, &lines);
            Some(count_true(&flags))
        },
    }
}

fn count_true(flags: &Vec<bool>) -> (r: usize)
    ensures
        r == count_set(flags@),
        r <= flags@.len(),
{
    let mut n: usize = 0;
    let mut i: usize = 0;
    while i < flags.len()
        invariant
            n <= i <= flags@.len(),
            n == count_set(flags@.take(i as int)),
        decreases flags@.len() - i,
    {
        assert(flags@.take(i + 1).drop_last() =~= flags@.take(i as int));
        if flags[i] {
            n = n + 1;
        }
        i = i + 1;
    }
    assert(flags@.take(flags@.len() as int) =~= flags@);
    n
}

/// Whether a file has a matching line.
pub fn file_has_match(pattern: &TextPattern, glob: &Option<FileGlob>, name: &str, bytes: Vec<u8>) -> (r:
    bool)
    ensures
        r == (is_included(*glob, name@) && is_searchable(bytes@) && count_set(
            line_flags(pattern.text(), lines_of(decode_utf8(bytes@))),
        ) > 0),
{
    match count_file_matches(pattern, glob, name, bytes) {
        Some(n) => n > 0,
        None => false,
    }
}

/// Searches one file and adds what it finds.
pub fn grep_file(
    state: &mut GrepState,
    pattern: &TextPattern,
    glob: &Option<FileGlob>,
    display: &str,
    name: &str,
    bytes: Vec<u8>,
    limit: u128,
    context: usize,
)
    requires
        context <= MAX_CONTEXT,
        old(state).wf(limit as int),
    ensures
        final(state).wf(limit as int),
        if is_included(*glob, name@) && is_searchable(bytes@) {
            let lines = lines_of(decode_utf8(bytes@));
            final(state)@ == file_scan(
                old(state)@,
                display@,
                lines,
                line_flags(pattern.text(), lines),
                limit as int,
                context as int,
            )
        } else {
            final(state)@ == old(state)@
        },
{
    match file_lines(glob, name, bytes) {
        None => {},
        Some(lines) => {
            let flags: Vec<bool> = match_lines(pattern, &lines);
            state.grep_lines(display, &lines, &flags, limit, context);
        },
    }
}

fn relative(root: &str, path: &str) -> (r: String)
    ensures
        r@ == shown_path(root@, path@),
{
    let mut prefix: String = root.to_owned();
    prefix.append("/");
    match strip_prefix(path, prefix.as_str()) {
        Some(t) => t,
        None => path.to_owned(),
    }
}

/// The items of a page, as shown.
fn shown_page(items: &Vec<String>, offset: u64, max: u64, root: &str) -> (r: Vec<String>)
    ensures
        texts(r@) == shown_paths(root@, page(texts(items@), offset as int, max as int)),
{
    let ghost all = page(texts(items@), offset as int, max as int);
    let n: usize = items.len();
    let mut out: Vec<String> = Vec::new();
    if offset >= n as u64 {
        assert(texts(out@) =~= shown_paths(root@, all));
        return out;
    }
    let start: usize = offset as usize;
    let end: usize = if max < (n - start) as u64 {
        start + max as usize
    } else {
        n
    };
    assert(all =~= texts(items@).subrange(start as int, end as int));
    let mut i: usize = start;
    assert(texts(out@) =~= shown_paths(root@, all).take(0));
    while i < end
        invariant
            start <= i <= end <= items@.len(),
            all == texts(items@).subrange(start as int, end as int),
            texts(out@) == shown_paths(root@, all).take(i - start),
        decreases end - i,
    {
        let ghost had = texts(out@);
        out.push(relative(root, items[i].as_str()));
        assert(all[i - start] == items@[i as int]@);
        assert(texts(out@) =~= had.push(shown_paths(root@, all)[i - start]));
        i = i + 1;
        assert(texts(out@) =~= shown_paths(root@, all).take(i - start));
    }
    assert(shown_paths(root@, all).take(end - start) =~= shown_paths(root@, all));
    out
}

/// The text of a search that found nothing.
pub open spec fn nothing_text(lead: Seq<char>, pattern: Seq<char>, path: Seq<char>) -> Seq<char> {
    lead + debug_of(pattern) + " in "@ + path + "."@
}

fn nothing(lead: &str, pattern: &str, path: &str) -> (r: String)
    ensures
        r@ == nothing_text(lead@, pattern@, path@),
{
    let mut t: String = lead.to_owned();
    let quoted: String = debug_text(pattern);
    t.append(quoted.as_str());
    t.append(" in ");
    t.append(path);
    t.append(".");
    t
}

/// The result of a search for files.
pub open spec fn files_text(
    files: Seq<Seq<char>>,
    args: GrepArgs,
    root: Seq<char>,
) -> Seq<char> {
    let shown = shown_paths(root, page(files, args.offset as int, args.max_results as int));
    if shown.len() == 0 {
        nothing_text("No files match "@, args.pattern@, args.path@)
    } else {
        decimal_nat(shown.len()) + " file(s):\n"@ + joined(shown, "\n"@)
    }
}

pub fn render_files(files: &Vec<String>, args: &GrepArgs, root: &str) -> (r: String)
    ensures
        r@ == files_text(texts(files@), *args, root@),
{
    let shown: Vec<String> = shown_page(files, args.offset, args.max_results, root);
    assert(texts(shown@).len() == shown@.len());
    if shown.len() == 0 {
        return nothing("No files match ", args.pattern.as_str(), args.path.as_str());
    }
    let mut t: String = usize_text(shown.len());
    t.append(" file(s):\n");
    let list: String = join(&shown, "\n");
    t.append(list.as_str());
    t
}

/// The lines of a count: each file with its number.
pub open spec fn count_lines_of(counts: Seq<(String, usize)>, root: Seq<char>) -> Seq<Seq<char>> {
    counts.map_values(
        |c: (String, usize)| shown_path(root, c.0@) + ": "@ + decimal_nat(c.1 as nat),
    )
}

/// The result of a search for counts.
pub open spec fn counts_text(
    counts: Seq<(String, usize)>,
    args: GrepArgs,
    root: Seq<char>,
) -> Seq<char> {
    let lines = count_lines_of(page(counts, args.offset as int, args.max_results as int), root);
    if lines.len() == 0 {
        nothing_text("No matches for "@, args.pattern@, args.path@)
    } else {
        decimal_nat(lines.len()) + " file(s):\n"@ + joined(lines, "\n"@)
    }
}

pub fn render_counts(counts: &Vec<(String, usize)>, args: &GrepArgs, root: &str) -> (r: String)
    ensures
        r@ == counts_text(counts@, *args, root@),
{
    let ghost part = page(counts@, args.offset as int, args.max_results as int);
    let ghost all = count_lines_of(part, root@);
    let n: usize = counts.len();
    if args.offset >= n as u64 {
        return nothing("No matches for ", args.pattern.as_str(), args.path.as_str());
    }
    let start: usize = args.offset as usize;
    let end: usize = if args.max_results < (n - start) as u64 {
        start + args.max_results as usize
    } else {
        n
    };
    assert(part =~= counts@.subrange(start as int, end as int));
    let mut lines: Vec<String> = Vec::new();
    let mut i: usize = start;
    assert(texts(lines@) =~= all.take(0));
    while i < end
        invariant
            start <= i <= end <= counts@.len(),
            part == counts@.subrange(start as int, end as int),
            all == count_lines_of(part, root@),
            texts(lines@) == all.take(i - start),
        decreases end - i,
    {
        let ghost had = texts(lines@);
        let mut line: String = relative(root, counts[i].0.as_str());
        line.append(": ");
        let number: String = usize_text(counts[i].1);
        line.append(number.as_str());
        lines.push(line);
        assert(part[i - start] == counts@[i as int]);
        assert(texts(lines@) =~= had.push(all[i - start]));
        i = i + 1;
        assert(texts(lines@) =~= all.take(i - start));
    }
    assert(all.take(end - start) =~= all);
    if lines.len() == 0 {
        return nothing("No matches for ", args.pattern.as_str(), args.path.as_str());
    }
    let mut t: String = usize_text(lines.len());
    t.append(" file(s):\n");
    let list: String = join(&lines, "\n");
    t.append(list.as_str());
    t
}

/// The note behind a result whose output was cut.
pub open spec fn cut_note() -> Seq<char> {
    "\n\n[Output truncated at 60000 bytes. Narrow your search with a more specific pattern, path, or include_glob.]"@
}

/// The result of a search for lines.
pub open spec fn matches_text(v: GrepView, args: GrepArgs, root: Seq<char>) -> Seq<char> {
    let shown = shown_paths(root, page(v.matches, args.offset as int, args.max_results as int));
    if shown.len() == 0 {
        nothing_text("No matches for "@, args.pattern@, args.path@)
    } else {
        decimal_nat(shown.len()) + " match(es):\n"@ + joined(shown, "\n"@) + if v.truncated {
            cut_note()
        } else {
            Seq::empty()
        }
    }
}

pub fn render_matches(state: &GrepState, args: &GrepArgs, root: &str) -> (r: String)
    ensures
        r@ == matches_text(state@, *args, root@),
{
    let shown: Vec<String> = shown_page(&state.matches, args.offset, args.max_results, root);
    assert(texts(shown@).len() == shown@.len());
    if shown.len() == 0 {
        return nothing("No matches for ", args.pattern.as_str(), args.path.as_str());
    }
    let mut t: String = usize_text(shown.len());
    t.append(" match(es):\n");
    let list: String = join(&shown, "\n");
    t.append(list.as_str());
    if state.truncated {
        t.append(
            "\n\n[Output truncated at 60000 bytes. Narrow your search with a more specific pattern, path, or include_glob.]",
        );
    } else {
        assert(t@ + Seq::<char>::empty() =~= t@);
    }
    t
}

/// What a call asks for. The path and the pattern are required; without more
/// being said a search ignores case, shows lines without context, a hundred of
/// them from the first on. More than ten lines of context count as ten.
pub proof fn law_search_arguments(tool: &GrepFiles, args: &Json, r: Result<GrepArgs, String>)
    requires
        call_ensures(GrepFiles::arguments, (tool, args), r),
    ensures
        r is Ok <==> args@.field("path"@) is Text && args@.field("pattern"@) is Text,
        r matches Err(e) ==> e@ == if args@.field("path"@) is Text {
            "Missing: pattern"@
        } else {
            "Missing: path"@
        },
        r matches Ok(a) ==> {
            &&& args@.field("path"@) == JsonView::Text(a.path@)
            &&& args@.field("pattern"@) == JsonView::Text(a.pattern@)
            &&& a.case_sensitive <==> args@.field("case_sensitive"@) == JsonView::Bool(true)
            &&& a.include_glob is Some <==> args@.field("include_glob"@) is Text
            &&& a.include_glob matches Some(g) ==> args@.field("include_glob"@) == JsonView::Text(
                g@,
            )
            &&& a.mode == OutputMode::FilesOnly <==> args@.field("output_mode"@) == JsonView::Text(
                "files_only"@,
            )
            &&& a.mode == OutputMode::Count <==> args@.field("output_mode"@) == JsonView::Text(
                "count"@,
            )
            &&& a.context_lines <= 10
            &&& args@.field("context_lines"@).as_u64() is None ==> a.context_lines == 0
            &&& args@.field("context_lines"@).as_u64() matches Some(n) ==> a.context_lines == if n
                <= 10 {
                n
            } else {
                10
            }
            &&& args@.field("max_results"@).as_u64() is None ==> a.max_results == 100
            &&& args@.field("max_results"@).as_u64() matches Some(n) ==> a.max_results == n
            &&& args@.field("offset"@).as_u64() is None ==> a.offset == 0
            &&& args@.field("offset"@).as_u64() matches Some(n) ==> a.offset == n
        },
{
    reveal_strlit("files_only");
    reveal_strlit("count");
    assert("files_only"@.len() == 10 && "count"@.len() == 5);
}

/// A pattern is compiled as it is where case counts, and behind the mark for
/// ignoring case where it does not.
pub proof fn law_search_patterns(tool: &GrepFiles, pattern: &str, sensitive: bool, r: Result<TextPattern, String>)
    requires
        call_ensures(GrepFiles::compile, (tool, pattern, sensitive), r),
    ensures
        ({
            let text = if sensitive {
                pattern@
            } else {
                "(?i)"@ + pattern@
            };
            &&& r is Ok <==> regex_problem(text) is None
            &&& r matches Ok(p) ==> p.text() == text
            &&& r matches Err(e) ==> e@ == "Invalid regex: "@ + regex_problem(text)->Some_0
        }),
{
}

/// A file is searched exactly where its name fits the glob, if there is one, it
/// has at most 200,000 bytes, none of its first 8,000 bytes is zero, and it is
/// text in UTF-8. Its lines are then counted by whether the pattern finds
/// something in them.
pub proof fn law_searched_files(
    pattern: &TextPattern,
    glob: &Option<FileGlob>,
    name: &str,
    bytes: Vec<u8>,
    r: Option<usize>,
    has: bool,
)
    requires
        call_ensures(count_file_matches, (pattern, glob, name, bytes), r),
        call_ensures(file_has_match, (pattern, glob, name, bytes), has),
    ensures
        r is Some <==> (glob is None || glob_fits(glob->Some_0.text(), name@)) && bytes@.len()
            <= 200_000 && (forall|i: int|
            0 <= i < bytes@.len() && i < 8000 ==> #[trigger] bytes@[i] != 0) && valid_utf8(bytes@),
        has <==> r is Some && r->Some_0 > 0,
        r matches Some(n) ==> {
            let lines = lines_of(decode_utf8(bytes@));
            &&& n <= lines.len()
            &&& n == 0 <==> forall|i: int|
                0 <= i < lines.len() ==> !regex_finds(pattern.text(), #[trigger] lines[i])
            &&& n == lines.len() <==> forall|i: int|
                0 <= i < lines.len() ==> regex_finds(pattern.text(), #[trigger] lines[i])
            &&& n == lines.filter(|l: Seq<char>| regex_finds(pattern.text(), l)).len()
        },
{
    let lines = lines_of(decode_utf8(bytes@));
    let flags = line_flags(pattern.text(), lines);
    lemma_count_set(flags);
    lemma_count_filter(pattern.text(), lines);
    if forall|i: int| 0 <= i < lines.len() ==> !regex_finds(pattern.text(), #[trigger] lines[i]) {
        assert forall|i: int| 0 <= i < flags.len() implies !(#[trigger] flags[i]) by {
            assert(!regex_finds(pattern.text(), lines[i]));
        }
    }
    if forall|i: int| 0 <= i < lines.len() ==> regex_finds(pattern.text(), #[trigger] lines[i]) {
        assert forall|i: int| 0 <= i < flags.len() implies #[trigger] flags[i] by {
            assert(regex_finds(pattern.text(), lines[i]));
        }
    }
    assert forall|i: int| 0 <= i < lines.len() implies flags[i] == regex_finds(
        pattern.text(),
        #[trigger] lines[i],
    ) by {}
}

proof fn lemma_count_set(flags: Seq<bool>)
    ensures
        count_set(flags) <= flags.len(),
        count_set(flags) == 0 <==> forall|i: int| 0 <= i < flags.len() ==> !(#[trigger] flags[i]),
        count_set(flags) == flags.len() <==> forall|i: int|
            0 <= i < flags.len() ==> #[trigger] flags[i],
    decreases flags.len(),
{
    if flags.len() > 0 {
        let rest = flags.drop_last();
        lemma_count_set(rest);
        assert forall|i: int| 0 <= i < rest.len() implies rest[i] == #[trigger] flags[i] by {}
        if count_set(flags) == 0 {
            assert forall|i: int| 0 <= i < flags.len() implies !(#[trigger] flags[i]) by {
                if i < rest.len() {
                    assert(!rest[i]);
                }
            }
        }
        if count_set(flags) == flags.len() {
            assert forall|i: int| 0 <= i < flags.len() implies #[trigger] flags[i] by {
                if i < rest.len() {
                    assert(rest[i]);
                }
            }
        }
        if forall|i: int| 0 <= i < flags.len() ==> !(#[trigger] flags[i]) {
            assert(!flags[flags.len() - 1]);
            assert forall|i: int| 0 <= i < rest.len() implies !(#[trigger] rest[i]) by {
                assert(!flags[i]);
            }
        }
        if forall|i: int| 0 <= i < flags.len() ==> #[trigger] flags[i] {
            assert(flags[flags.len() - 1]);
            assert forall|i: int| 0 <= i < rest.len() implies #[trigger] rest[i] by {
                assert(flags[i]);
            }
        }
    }
}

proof fn lemma_count_filter(pattern: Seq<char>, lines: Seq<Seq<char>>)
    ensures
        count_set(line_flags(pattern, lines)) == lines.filter(
            |l: Seq<char>| regex_finds(pattern, l),
        ).len(),
    decreases lines.len(),
{
    let pred = |l: Seq<char>| regex_finds(pattern, l);
    if lines.len() > 0 {
        lemma_count_filter(pattern, lines.drop_last());
        lemma_filter_last(lines, pred);
        assert(line_flags(pattern, lines).drop_last() =~= line_flags(pattern, lines.drop_last()));
        assert(line_flags(pattern, lines).last() == regex_finds(pattern, lines.last()));
    } else {
        reveal(Seq::filter);
        assert(lines.filter(pred).len() == 0);
    }
}

/// Searching a file's bytes is searching its lines, each marked by whether the
/// pattern finds something in it; a file that is not searched adds nothing.
pub proof fn law_a_file_is_searched_by_lines(
    a: &mut GrepState,
    b: &mut GrepState,
    pattern: &TextPattern,
    glob: &Option<FileGlob>,
    display: &str,
    name: &str,
    bytes: Vec<u8>,
    limit: u128,
    context: usize,
    lines: &Vec<String>,
    flags: &Vec<bool>,
    count: Option<usize>,
)
    requires
        call_ensures(grep_file, (a, pattern, glob, display, name, bytes, limit, context), ()),
        call_ensures(GrepState::grep_lines, (b, display, lines, flags, limit, context), ()),
        call_ensures(count_file_matches, (pattern, glob, name, bytes), count),
        *old(a) == *old(b),
        texts(lines@) == lines_of(decode_utf8(bytes@)),
        flags@.len() == lines@.len(),
        forall|i: int|
            0 <= i < flags@.len() ==> #[trigger] flags@[i] == regex_finds(
                pattern.text(),
                lines@[i]@,
            ),
    ensures
        count is Some ==> final(a)@ == final(b)@,
        count is None ==> final(a)@ == old(a)@,
{
    let all = texts(lines@);
    assert forall|i: int| 0 <= i < flags@.len() implies #[trigger] flags@[i] == line_flags(
        pattern.text(),
        all,
    )[i] by {
        assert(all[i] == lines@[i]@);
    }
    assert(flags@ =~= line_flags(pattern.text(), all));
}

/// What is shown of a list of files: those from the offset on, as many as asked
/// for, under their number, each without the directory that the search began
/// in.
pub proof fn law_listed_files(files: &Vec<String>, args: &GrepArgs, root: &str, r: String, shown: Seq<Seq<char>>)
    requires
        call_ensures(render_files, (files, args, root), r),
        shown.len() == if files@.len() <= args.offset {
            0
        } else if files@.len() - args.offset <= args.max_results {
            files@.len() - args.offset
        } else {
            args.max_results as int
        },
        forall|i: int|
            0 <= i < shown.len() ==> is_seen_from(
                #[trigger] shown[i],
                root@,
                files@[args.offset + i]@,
            ),
    ensures
        shown.len() == 0 ==> r@ == "No files match "@ + debug_of(args.pattern@) + " in "@ + args.path@
            + "."@,
        shown.len() > 0 ==> r@ == decimal_nat(shown.len()) + " file(s):\n"@ + joined(shown, "\n"@),
{
    let paged = page(texts(files@), args.offset as int, args.max_results as int);
    let mapped = shown_paths(root@, paged);
    assert(mapped.len() == shown.len());
    assert forall|i: int| 0 <= i < shown.len() implies mapped[i] == shown[i] by {
        assert(is_seen_from(shown[i], root@, files@[args.offset + i]@));
        assert(paged[i] == files@[args.offset + i]@);
        lemma_shown_path(root@, paged[i], shown[i]);
    }
    assert(mapped =~= shown);
}

/// Whether `shown` is a path as seen from a directory: what follows the
/// directory and a slash, or the path itself where it lies elsewhere.
pub open spec fn is_seen_from(shown: Seq<char>, root: Seq<char>, path: Seq<char>) -> bool {
    if exists|t: Seq<char>| path == #[trigger] (root + "/"@ + t) {
        path == root + "/"@ + shown
    } else {
        shown == path
    }
}

proof fn lemma_shown_path(root: Seq<char>, path: Seq<char>, shown: Seq<char>)
    requires
        is_seen_from(shown, root, path),
    ensures
        shown_path(root, path) == shown,
{
    let lead = root + "/"@;
    if has_prefix(path, lead) {
        assert(path =~= root + "/"@ + path.skip(lead.len() as int));
    }
    if exists|t: Seq<char>| path == #[trigger] (root + "/"@ + t) {
        let t = choose|t: Seq<char>| path == #[trigger] (root + "/"@ + t);
        assert(path.take(lead.len() as int) =~= lead);
        assert(path.skip(lead.len() as int) =~= shown);
    }
}

/// What is shown of the lines found: those from the offset on, as many as asked
/// for, under their number, with a note where the output was cut.
pub proof fn law_listed_matches(state: &GrepState, args: &GrepArgs, root: &str, r: String, shown: Seq<Seq<char>>)
    requires
        call_ensures(render_matches, (state, args, root), r),
        shown.len() == if state.matches@.len() <= args.offset {
            0
        } else if state.matches@.len() - args.offset <= args.max_results {
            state.matches@.len() - args.offset
        } else {
            args.max_results as int
        },
        forall|i: int|
            0 <= i < shown.len() ==> is_seen_from(
                #[trigger] shown[i],
                root@,
                state.matches@[args.offset + i]@,
            ),
    ensures
        shown.len() == 0 ==> r@ == "No matches for "@ + debug_of(args.pattern@) + " in "@ + args.path@
            + "."@,
        shown.len() > 0 && !state.truncated ==> r@ == decimal_nat(shown.len()) + " match(es):\n"@
            + joined(shown, "\n"@),
        shown.len() > 0 && state.truncated ==> r@ == decimal_nat(shown.len()) + " match(es):\n"@
            + joined(shown, "\n"@)
            + "\n\n[Output truncated at 60000 bytes. Narrow your search with a more specific pattern, path, or include_glob.]"@,
{
    let paged = page(texts(state.matches@), args.offset as int, args.max_results as int);
    let mapped = shown_paths(root@, paged);
    assert(mapped.len() == shown.len());
    assert forall|i: int| 0 <= i < shown.len() implies mapped[i] == shown[i] by {
        assert(is_seen_from(shown[i], root@, state.matches@[args.offset + i]@));
        assert(paged[i] == state.matches@[args.offset + i]@);
        lemma_shown_path(root@, paged[i], shown[i]);
    }
    assert(mapped =~= shown);
}

/// What is shown of the counts: those from the offset on, as many as asked for,
/// under their number, each file with its count.
pub proof fn law_listed_counts(counts: &Vec<(String, usize)>, args: &GrepArgs, root: &str, r: String, shown: Seq<Seq<char>>)
    requires
        call_ensures(render_counts, (counts, args, root), r),
        shown.len() == if counts@.len() <= args.offset {
            0
        } else if counts@.len() - args.offset <= args.max_results {
            counts@.len() - args.offset
        } else {
            args.max_results as int
        },
        forall|i: int|
            0 <= i < shown.len() ==> is_seen_from(
                #[trigger] shown[i],
                root@,
                counts@[args.offset + i].0@,
            ),
    ensures
        shown.len() == 0 ==> r@ == "No matches for "@ + debug_of(args.pattern@) + " in "@ + args.path@
            + "."@,
        shown.len() > 0 ==> r@ == decimal_nat(shown.len()) + " file(s):\n"@ + joined(
            Seq::new(
                shown.len(),
                |i: int| shown[i] + ": "@ + decimal_nat(counts@[args.offset + i].1 as nat),
            ),
            "\n"@,
        ),
{
    let paged = page(counts@, args.offset as int, args.max_results as int);
    let lines = count_lines_of(paged, root@);
    let want = Seq::new(
        shown.len(),
        |i: int| shown[i] + ": "@ + decimal_nat(counts@[args.offset + i].1 as nat),
    );
    assert(lines.len() == shown.len());
    assert forall|i: int| 0 <= i < shown.len() implies lines[i] == want[i] by {
        assert(is_seen_from(shown[i], root@, counts@[args.offset + i].0@));
        assert(paged[i] == counts@[args.offset + i]);
        lemma_shown_path(root@, paged[i].0@, shown[i]);
    }
    assert(lines =~= want);
}

/// How a search is described: by its pattern, and where there is room by its
/// path too. A glob that cannot be read counts as none.
pub proof fn law_described_searches(tool: &GrepFiles, args: &Json, short: (String, usize), full: (String, usize), glob: Option<&str>, g: Option<FileGlob>, name: &'static str)
    requires
        call_ensures(GrepFiles::describe, (tool, args, ToolDescriptionLength::Short), short),
        call_ensures(GrepFiles::describe, (tool, args, ToolDescriptionLength::Full), full),
        call_ensures(GrepFiles::compile_glob, (tool, glob), g),
        call_ensures(GrepFiles::name, (tool,), name),
    ensures
        ({
            let pattern = match args@.field("pattern"@) {
                JsonView::Text(t) => t,
                _ => "?"@,
            };
            let path = match args@.field("path"@) {
                JsonView::Text(t) => t,
                _ => "."@,
            };
            &&& short.0@ == "grep_files `"@ + pattern + "`"@ && short.1 == 60
            &&& full.0@ == "grep_files `"@ + pattern + "` in "@ + path && full.1 == 120
        }),
        g is Some <==> glob is Some && glob_accepts(glob->Some_0@),
        g matches Some(p) ==> p.text() == glob->Some_0@,
        name@ == "grep_files"@,
{
}

} // verus!
