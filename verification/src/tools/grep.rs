//! Searching files for a regular expression.
use vstd::prelude::*;
use vstd::utf8::{decode_utf8, encode_utf8_decode_utf8, valid_utf8};

use crate::bytes::{
    byte_len, byte_prefix, chars_fitting, cut_to, lemma_chars_fitting, text_bytes,
};
use crate::numerals::{decimal_nat, usize_text};
use crate::text::{joined, texts};

verus! {

/// Files larger than this are not searched.
pub const MAX_FILE_BYTES: usize = 200_000;

/// The output is cut once it is longer than this.
pub const MAX_OUTPUT_BYTES: u128 = 60_000;

/// Lines longer than this are shown cut.
pub const MAX_LINE_BYTES: usize = 500;

/// How many bytes of a file are looked at to tell whether it is binary.
pub const BINARY_PROBE: usize = 8000;

/// The most lines of context around a match.
pub const MAX_CONTEXT: u64 = 10;

/// What a search has found so far.
pub struct GrepState {
    pub matches: Vec<String>,
    pub output_bytes: u128,
    pub truncated: bool,
}

/// The same, as seen by contracts.
pub struct GrepView {
    pub matches: Seq<Seq<char>>,
    pub bytes: int,
    pub truncated: bool,
}

impl View for GrepState {
    type V = GrepView;

    open spec fn view(&self) -> GrepView {
        GrepView {
            matches: texts(self.matches@),
            bytes: self.output_bytes as int,
            truncated: self.truncated,
        }
    }
}

/// Whether a search is over: it has enough or its output is cut.
pub open spec fn is_full(v: GrepView, limit: int) -> bool {
    v.matches.len() >= limit || v.truncated
}

/// A line as shown.
pub open spec fn snippet_of(line: Seq<char>) -> Seq<char> {
    if text_bytes(line) > MAX_LINE_BYTES {
        byte_prefix(line, MAX_LINE_BYTES as int) + "…"@
    } else {
        line
    }
}

/// A search with one entry added; the output is cut instead where it would
/// become too long.
pub open spec fn with_shown(v: GrepView, entry: Seq<char>) -> GrepView {
    let bytes = v.bytes + text_bytes(entry);
    if bytes > MAX_OUTPUT_BYTES {
        GrepView { bytes, truncated: true, ..v }
    } else {
        GrepView { bytes, matches: v.matches.push(entry), ..v }
    }
}

/// The entry for a matching line.
pub open spec fn plain_entry(display: Seq<char>, i: int, line: Seq<char>) -> Seq<char> {
    display + ":"@ + decimal_nat((i + 1) as nat) + ": "@ + snippet_of(line)
}

/// The entry for a line in context, with a mark where it matches.
pub open spec fn context_entry(display: Seq<char>, i: int, line: Seq<char>, matching: bool) -> Seq<char> {
    let mark = if matching {
        ">"@
    } else {
        " "@
    };
    mark + display + ": "@ + decimal_nat((i + 1) as nat) + ": "@ + snippet_of(line)
}

/// A search over the lines from `i` on, showing those that match.
pub open spec fn plain_scan(
    v: GrepView,
    display: Seq<char>,
    lines: Seq<Seq<char>>,
    flags: Seq<bool>,
    limit: int,
    i: int,
) -> GrepView
    decreases lines.len() - i,
{
    if i >= lines.len() || is_full(v, limit) {
        v
    } else if !flags[i] {
        plain_scan(v, display, lines, flags, limit, i + 1)
    } else {
        plain_scan(
            with_shown(v, plain_entry(display, i, lines[i])),
            display,
            lines,
            flags,
            limit,
            i + 1,
        )
    }
}

/// The spans of lines within `context` of the first `k` lines' matches. Spans
/// that touch are one.
pub open spec fn windows_of(flags: Seq<bool>, context: int, k: int) -> Seq<(int, int)>
    decreases k,
{
    if k <= 0 {
        Seq::empty()
    } else {
        let before = windows_of(flags, context, k - 1);
        if flags[k - 1] {
            with_window(before, span_around(k - 1, context, flags.len() as int))
        } else {
            before
        }
    }
}

/// The lines within `context` of line `m`, of `n` lines.
pub open spec fn span_around(m: int, context: int, n: int) -> (int, int) {
    (
        if m < context {
            0
        } else {
            m - context
        },
        if m + context < n {
            m + context
        } else {
            n - 1
        },
    )
}

/// A list of spans with one more, joined to the last where they touch.
pub open spec fn with_window(windows: Seq<(int, int)>, w: (int, int)) -> Seq<(int, int)> {
    if windows.len() > 0 && w.0 <= windows.last().1 + 1 {
        windows.drop_last().push(
            (
                windows.last().0,
                if windows.last().1 < w.1 {
                    w.1
                } else {
                    windows.last().1
                },
            ),
        )
    } else {
        windows.push(w)
    }
}

/// A search over the lines from `i` to `end`, showing all of them.
pub open spec fn span_scan(
    v: GrepView,
    display: Seq<char>,
    lines: Seq<Seq<char>>,
    flags: Seq<bool>,
    limit: int,
    i: int,
    end: int,
) -> GrepView
    decreases end - i + 1,
{
    if i > end || is_full(v, limit) {
        v
    } else {
        span_scan(
            with_shown(v, context_entry(display, i, lines[i], flags[i])),
            display,
            lines,
            flags,
            limit,
            i + 1,
            end,
        )
    }
}

/// A search with the line that separates two spans.
pub open spec fn with_separator(v: GrepView, display: Seq<char>) -> GrepView {
    let sep = display + ":---"@;
    GrepView { bytes: v.bytes + text_bytes(sep), matches: v.matches.push(sep), ..v }
}

/// A search over the spans from `w` on.
pub open spec fn window_scan(
    v: GrepView,
    display: Seq<char>,
    lines: Seq<Seq<char>>,
    flags: Seq<bool>,
    windows: Seq<(int, int)>,
    limit: int,
    w: int,
) -> GrepView
    decreases windows.len() - w,
{
    if w >= windows.len() || is_full(v, limit) {
        v
    } else {
        let opened = if w > 0 {
            with_separator(v, display)
        } else {
            v
        };
        window_scan(
            span_scan(opened, display, lines, flags, limit, windows[w].0, windows[w].1),
            display,
            lines,
            flags,
            windows,
            limit,
            w + 1,
        )
    }
}

/// A search over one file's lines.
pub open spec fn file_scan(
    v: GrepView,
    display: Seq<char>,
    lines: Seq<Seq<char>>,
    flags: Seq<bool>,
    limit: int,
    context: int,
) -> GrepView {
    if context == 0 {
        plain_scan(v, display, lines, flags, limit, 0)
    } else {
        window_scan(
            v,
            display,
            lines,
            flags,
            windows_of(flags, context, flags.len() as int),
            limit,
            0,
        )
    }
}

fn snippet(line: &str) -> (r: String)
    ensures
        r@ == snippet_of(line@),
{
    if byte_len(line) > MAX_LINE_BYTES {
        let mut t: String = cut_to(line, MAX_LINE_BYTES);
        t.append("…");
        t
    } else {
        line.to_owned()
    }
}

impl GrepState {
    pub fn new() -> (r: GrepState)
        ensures
            r@.matches.len() == 0,
            r@.bytes == 0,
            !r@.truncated,
            r.wf(0),
    {
        GrepState { matches: Vec::new(), output_bytes: 0, truncated: false }
    }

    /// The output stays within its limit until the search is over.
    pub open spec fn wf(&self, limit: int) -> bool {
        is_full(self@, limit) || self.output_bytes <= MAX_OUTPUT_BYTES
    }

    pub fn full(&self, limit: u128) -> (r: bool)
        ensures
            r == is_full(self@, limit as int),
    {
        assert(texts(self.matches@).len() == self.matches@.len());
        self.matches.len() as u128 >= limit || self.truncated
    }

    fn show(&mut self, entry: String)
        requires
            old(self).output_bytes <= MAX_OUTPUT_BYTES + usize::MAX,
        ensures
            final(self)@ == with_shown(old(self)@, entry@),
    {
        let ghost had = texts(self.matches@);
        self.output_bytes = self.output_bytes + byte_len(entry.as_str()) as u128;
        if self.output_bytes > MAX_OUTPUT_BYTES {
            self.truncated = true;
        } else {
            self.matches.push(entry);
            assert(texts(self.matches@) =~= had.push(entry@));
        }
    }

    fn separate(&mut self, display: &str)
        requires
            old(self).output_bytes <= MAX_OUTPUT_BYTES,
        ensures
            final(self)@ == with_separator(old(self)@, display@),
            final(self).output_bytes <= MAX_OUTPUT_BYTES + usize::MAX,
    {
        let ghost had = texts(self.matches@);
        let mut sep: String = display.to_owned();
        sep.append(":---");
        self.output_bytes = self.output_bytes + byte_len(sep.as_str()) as u128;
        self.matches.push(sep);
        assert(texts(self.matches@) =~= had.push(sep@));
    }

    fn scan_plain(&mut self, display: &str, lines: &Vec<String>, flags: &Vec<bool>, limit: u128)
        requires
            flags@.len() == lines@.len(),
            old(self).wf(limit as int),
        ensures
            final(self).wf(limit as int),
            final(self)@ == plain_scan(
                old(self)@,
                display@,
                texts(lines@),
                flags@,
                limit as int,
                0,
            ),
    {
        let ghost all = texts(lines@);
        let n: usize = lines.len();
        let mut i: usize = 0;
        while i < n && !self.full(limit)
            invariant
                i <= n,
                n == lines@.len(),
                n == flags@.len(),
                all == texts(lines@),
                self.wf(limit as int),
                plain_scan(old(self)@, display@, all, flags@, limit as int, 0) == plain_scan(
                    self@,
                    display@,
                    all,
                    flags@,
                    limit as int,
                    i as int,
                ),
            decreases n - i,
        {
            assert(all[i as int] == lines@[i as int]@);
            if flags[i] {
                let shown: String = snippet(lines[i].as_str());
                let mut entry: String = display.to_owned();
                entry.append(":");
                let number: String = usize_text(i + 1);
                entry.append(number.as_str());
                entry.append(": ");
                entry.append(shown.as_str());
                self.show(entry);
            }
            i = i + 1;
        }
    }

    fn scan_span(
        &mut self,
        display: &str,
        lines: &Vec<String>,
        flags: &Vec<bool>,
        limit: u128,
        start: usize,
        end: usize,
    )
        requires
            flags@.len() == lines@.len(),
            start <= end < lines@.len(),
            old(self).output_bytes <= MAX_OUTPUT_BYTES + usize::MAX,
            !is_full(old(self)@, limit as int) || old(self).wf(limit as int),
        ensures
            final(self).wf(limit as int),
            final(self)@ == span_scan(
                old(self)@,
                display@,
                texts(lines@),
                flags@,
                limit as int,
                start as int,
                end as int,
            ),
    {
        let ghost all = texts(lines@);
        let n: usize = lines.len();
        let mut i: usize = start;
        while i <= end && !self.full(limit)
            invariant
                start <= i <= end + 1,
                end < n,
                n == lines@.len(),
                n == flags@.len(),
                all == texts(lines@),
                i == start ==> self.output_bytes <= MAX_OUTPUT_BYTES + usize::MAX,
                i > start ==> self.wf(limit as int),
                start <= end,
                span_scan(
                    old(self)@,
                    display@,
                    all,
                    flags@,
                    limit as int,
                    start as int,
                    end as int,
                ) == span_scan(
                    self@,
                    display@,
                    all,
                    flags@,
                    limit as int,
                    i as int,
                    end as int,
                ),
            decreases end + 1 - i,
        {
            assert(all[i as int] == lines@[i as int]@);
            let shown: String = snippet(lines[i].as_str());
            let mut entry: String = if flags[i] {
                ">".to_owned()
            } else {
                " ".to_owned()
            };
            entry.append(display);
            entry.append(": ");
            let number: String = usize_text(i + 1);
            entry.append(number.as_str());
            entry.append(": ");
            entry.append(shown.as_str());
            self.show(entry);
            i = i + 1;
        }
    }

    fn scan_windows(
        &mut self,
        display: &str,
        lines: &Vec<String>,
        flags: &Vec<bool>,
        windows: &Vec<(usize, usize)>,
        limit: u128,
    )
        requires
            flags@.len() == lines@.len(),
            forall|i: int|
                0 <= i < windows@.len() ==> (#[trigger] windows@[i]).0 <= windows@[i].1
                    < lines@.len(),
            old(self).wf(limit as int),
        ensures
            final(self).wf(limit as int),
            final(self)@ == window_scan(
                old(self)@,
                display@,
                texts(lines@),
                flags@,
                spans(windows@),
                limit as int,
                0,
            ),
    {
        let ghost all = texts(lines@);
        let ghost ws = spans(windows@);
        let n: usize = windows.len();
        let mut w: usize = 0;
        while w < n && !self.full(limit)
            invariant
                w <= n,
                n == windows@.len(),
                flags@.len() == lines@.len(),
                all == texts(lines@),
                ws == spans(windows@),
                forall|i: int|
                    0 <= i < windows@.len() ==> (#[trigger] windows@[i]).0 <= windows@[i].1
                        < lines@.len(),
                self.wf(limit as int),
                window_scan(old(self)@, display@, all, flags@, ws, limit as int, 0) == window_scan(
                    self@,
                    display@,
                    all,
                    flags@,
                    ws,
                    limit as int,
                    w as int,
                ),
            decreases n - w,
        {
            let (start, end): (usize, usize) = windows[w];
            assert(ws[w as int] == (start as int, end as int));
            if w > 0 {
                self.separate(display);
            }
            self.scan_span(display, lines, flags, limit, start, end);
            w = w + 1;
        }
    }

    /// Searches the lines of one file; `flags` says which of them match. The
    /// entries name the file as `display`.
    pub fn grep_lines(
        &mut self,
        display: &str,
        lines: &Vec<String>,
        flags: &Vec<bool>,
        limit: u128,
        context: usize,
    )
        requires
            flags@.len() == lines@.len(),
            context <= MAX_CONTEXT,
            old(self).wf(limit as int),
        ensures
            final(self).wf(limit as int),
            final(self)@ == file_scan(
                old(self)@,
                display@,
                texts(lines@),
                flags@,
                limit as int,
                context as int,
            ),
    {
        if context == 0 {
            self.scan_plain(display, lines, flags, limit);
        } else {
            let windows: Vec<(usize, usize)> = match_windows(flags, context);
            self.scan_windows(display, lines, flags, &windows, limit);
        }
    }
}

pub open spec fn spans(windows: Seq<(usize, usize)>) -> Seq<(int, int)> {
    windows.map_values(|w: (usize, usize)| (w.0 as int, w.1 as int))
}

/// The spans of lines within `context` of a match. Spans that touch are one.
pub fn match_windows(flags: &Vec<bool>, context: usize) -> (r: Vec<(usize, usize)>)
    requires
        context <= MAX_CONTEXT,
    ensures
        spans(r@) == windows_of(flags@, context as int, flags@.len() as int),
        forall|i: int| 0 <= i < r@.len() ==> (#[trigger] r@[i]).0 <= r@[i].1 < flags@.len(),
{
    let n: usize = flags.len();
    let mut out: Vec<(usize, usize)> = Vec::new();
    let mut m: usize = 0;
    assert(spans(out@) =~= windows_of(flags@, context as int, 0));
    while m < n
        invariant
            m <= n,
            n == flags@.len(),
            context <= MAX_CONTEXT,
            spans(out@) == windows_of(flags@, context as int, m as int),
            forall|i: int| 0 <= i < out@.len() ==> (#[trigger] out@[i]).0 <= out@[i].1 < n,
        decreases n - m,
    {
        if flags[m] {
            let start: usize = if m < context {
                0
            } else {
                m - context
            };
            let end: usize = if context < n - m {
                m + context
            } else {
                n - 1
            };
            let ghost had = spans(out@);
            let ghost w = (start as int, end as int);
            assert(w == span_around(m as int, context as int, n as int));
            let k: usize = out.len();
            if k > 0 && (start == 0 || start - 1 <= out[k - 1].1) {
                let last: (usize, usize) = out[k - 1];
                assert(had.last() == (last.0 as int, last.1 as int));
                let joined_end: usize = if last.1 < end {
                    end
                } else {
                    last.1
                };
                out.set(k - 1, (last.0, joined_end));
                assert(spans(out@) =~= with_window(had, w));
            } else {
                if k > 0 {
                    assert(had.last() == (out@[k - 1].0 as int, out@[k - 1].1 as int));
                }
                out.push((start, end));
                assert(spans(out@) =~= with_window(had, w));
            }
        }
        m = m + 1;
    }
    out
}

/// Whether a line lies in one of the spans.
pub open spec fn is_covered(windows: Seq<(int, int)>, x: int) -> bool {
    exists|i: int| 0 <= i < windows.len() && (#[trigger] windows[i]).0 <= x <= windows[i].1
}

/// Whether a line is within `context` of one of the first `k` lines' matches.
pub open spec fn is_near(flags: Seq<bool>, context: int, k: int, x: int) -> bool {
    exists|m: int| 0 <= m < k && #[trigger] flags[m] && m - context <= x <= m + context
}

/// Whether spans stand in order with at least one line between them.
pub open spec fn spans_apart(windows: Seq<(int, int)>) -> bool {
    &&& forall|i: int| 0 <= i < windows.len() ==> (#[trigger] windows[i]).0 <= windows[i].1
    &&& forall|i: int, j: int|
        0 <= i < j < windows.len() ==> (#[trigger] windows[i]).1 + 1 < (#[trigger] windows[j]).0
}

proof fn lemma_with_window(windows: Seq<(int, int)>, w: (int, int))
    requires
        spans_apart(windows),
        w.0 <= w.1,
        forall|i: int| 0 <= i < windows.len() ==> (#[trigger] windows[i]).0 <= w.0,
    ensures
        spans_apart(with_window(windows, w)),
        forall|x: int|
            #[trigger] is_covered(with_window(windows, w), x) == (is_covered(windows, x) || w.0 <= x
                <= w.1),
        forall|i: int|
            0 <= i < with_window(windows, w).len() ==> (#[trigger] with_window(windows, w)[i]).0
                <= w.0,
{
    let after = with_window(windows, w);
    let n = windows.len() as int;
    let merges = n > 0 && w.0 <= windows.last().1 + 1;
    assert forall|i: int| 0 <= i < n - 1 implies after[i] == windows[i] by {}
    assert forall|x: int| #[trigger] is_covered(after, x) == (is_covered(windows, x) || w.0 <= x
        <= w.1) by {
        if is_covered(after, x) {
            let i = choose|i: int| 0 <= i < after.len() && (#[trigger] after[i]).0 <= x <= after[i].1;
            if i < n - 1 {
                assert(windows[i].0 <= x <= windows[i].1);
            } else if merges {
                if !(w.0 <= x <= w.1) {
                    assert(windows[n - 1].0 <= x <= windows[n - 1].1);
                }
            } else if i == n - 1 {
                assert(after[i] == windows[i]);
            }
        }
        if is_covered(windows, x) {
            let i = choose|i: int|
                0 <= i < n && (#[trigger] windows[i]).0 <= x <= windows[i].1;
            assert(after[i].0 <= x <= after[i].1);
        }
        if w.0 <= x <= w.1 {
            let last = after.len() - 1;
            assert(after[last].0 <= x <= after[last].1);
        }
    }
}

/// The spans shown around matches are exactly the lines within the context of
/// a match; they stand in order and do not touch.
pub proof fn law_windows_are_the_context(flags: Seq<bool>, context: int, k: int)
    requires
        0 <= context,
        0 <= k <= flags.len(),
    ensures
        spans_apart(windows_of(flags, context, k)),
        forall|x: int|
            0 <= x < flags.len() ==> #[trigger] is_covered(windows_of(flags, context, k), x)
                == is_near(flags, context, k, x),
        forall|i: int|
            0 <= i < windows_of(flags, context, k).len() ==> 0 <= (#[trigger] windows_of(
                flags,
                context,
                k,
            )[i]).0 && windows_of(flags, context, k)[i].1 < flags.len(),
    decreases k,
{
    lemma_windows(flags, context, k);
}

proof fn lemma_windows(flags: Seq<bool>, context: int, k: int)
    requires
        0 <= context,
        0 <= k <= flags.len(),
    ensures
        spans_apart(windows_of(flags, context, k)),
        forall|x: int|
            0 <= x < flags.len() ==> #[trigger] is_covered(windows_of(flags, context, k), x)
                == is_near(flags, context, k, x),
        forall|i: int|
            0 <= i < windows_of(flags, context, k).len() ==> 0 <= (#[trigger] windows_of(
                flags,
                context,
                k,
            )[i]).0 && windows_of(flags, context, k)[i].1 < flags.len() && (windows_of(
                flags,
                context,
                k,
            )[i].0 == 0 || windows_of(flags, context, k)[i].0 <= k - 1 - context),
    decreases k,
{
    let n = flags.len() as int;
    let after = windows_of(flags, context, k);
    if k > 0 {
        lemma_windows(flags, context, k - 1);
        let before = windows_of(flags, context, k - 1);
        let m = k - 1;
        if flags[m] {
            let w = span_around(m, context, n);
            lemma_with_window(before, w);
            assert forall|x: int| 0 <= x < n implies #[trigger] is_covered(after, x) == is_near(
                flags,
                context,
                k,
                x,
            ) by {
                assert(is_covered(before, x) == is_near(flags, context, k - 1, x));
                if w.0 <= x <= w.1 {
                    assert(flags[m] && m - context <= x <= m + context);
                }
                if is_near(flags, context, k - 1, x) {
                    let j = choose|j: int|
                        0 <= j < k - 1 && #[trigger] flags[j] && j - context <= x <= j + context;
                    assert(flags[j]);
                }
            }
            assert forall|i: int| 0 <= i < after.len() implies 0 <= (#[trigger] after[i]).0
                && after[i].1 < n && (after[i].0 == 0 || after[i].0 <= k - 1 - context) by {
                if i < before.len() {
                    assert(0 <= before[i].0 && before[i].1 < n);
                }
            }
        } else {
            assert forall|x: int| 0 <= x < n implies #[trigger] is_covered(after, x) == is_near(
                flags,
                context,
                k,
                x,
            ) by {
                assert(is_covered(before, x) == is_near(flags, context, k - 1, x));
                if is_near(flags, context, k - 1, x) {
                    let j = choose|j: int|
                        0 <= j < k - 1 && #[trigger] flags[j] && j - context <= x <= j + context;
                    assert(flags[j]);
                }
            }
            assert forall|i: int| 0 <= i < after.len() implies 0 <= (#[trigger] after[i]).0
                && after[i].1 < n && (after[i].0 == 0 || after[i].0 <= k - 1 - context) by {
                assert(0 <= before[i].0 && before[i].1 < n);
            }
        }
    } else {
        assert forall|x: int| 0 <= x < n implies #[trigger] is_covered(after, x) == is_near(
            flags,
            context,
            k,
            x,
        ) by {}
    }
}

/// How many bytes some entries take together.
pub open spec fn bytes_of(entries: Seq<Seq<char>>) -> int
    decreases entries.len(),
{
    if entries.len() == 0 {
        0
    } else {
        bytes_of(entries.drop_last()) + text_bytes(entries.last())
    }
}

/// Whether `shown` is what a reader is told of a line: the line itself, or,
/// where it is longer than the limit, as much of it as fits and an ellipsis.
pub open spec fn tells_line(shown: Seq<char>, line: Seq<char>) -> bool {
    &&& text_bytes(line) <= 500 ==> shown == line
    &&& text_bytes(line) > 500 ==> exists|m: int|
        0 <= m < line.len() && shown == #[trigger] line.take(m) + "…"@ && text_bytes(line.take(m))
            <= 500 && text_bytes(line.take(m + 1)) > 500
}

proof fn lemma_snippet(line: Seq<char>)
    ensures
        tells_line(snippet_of(line), line),
{
    if text_bytes(line) > 500 {
        lemma_chars_fitting(line, 500);
        let m = chars_fitting(line, 500);
        if m == line.len() {
            assert(line.take(m) =~= line);
        }
        assert(snippet_of(line) == line.take(m) + "…"@);
    }
}

/// How the bytes, the cut and the number of entries change when some are added.
spec fn grows(before: GrepView, after: GrepView, added: Seq<Seq<char>>, limit: int) -> bool {
    &&& after.matches == before.matches + added
    &&& before.truncated ==> added.len() == 0 && after == before
    &&& !after.truncated ==> after.bytes == before.bytes + bytes_of(added)
    &&& after.truncated && !before.truncated ==> after.bytes > 60_000
    &&& added.len() == 0 || after.matches.len() <= limit
}

proof fn lemma_bytes_of_concat(a: Seq<Seq<char>>, b: Seq<Seq<char>>)
    ensures
        bytes_of(a + b) == bytes_of(a) + bytes_of(b),
    decreases b.len(),
{
    if b.len() == 0 {
        assert(a + b =~= a);
    } else {
        assert((a + b).drop_last() =~= a + b.drop_last());
        lemma_bytes_of_concat(a, b.drop_last());
    }
}

proof fn lemma_grows_on(
    a: GrepView,
    b: GrepView,
    c: GrepView,
    first: Seq<Seq<char>>,
    second: Seq<Seq<char>>,
    limit: int,
)
    requires
        grows(a, b, first, limit),
        grows(b, c, second, limit),
    ensures
        grows(a, c, first + second, limit),
{
    lemma_bytes_of_concat(first, second);
    assert(a.matches + first + second =~= a.matches + (first + second));
    if first.len() == 0 && second.len() == 0 {
        assert(first + second =~= Seq::<Seq<char>>::empty());
    }
    if b.truncated {
        assert(first + second =~= first);
    }
}

proof fn lemma_shown_grows(v: GrepView, entry: Seq<char>, limit: int) -> (added: Seq<Seq<char>>)
    requires
        !is_full(v, limit),
    ensures
        grows(v, with_shown(v, entry), added, limit),
        added == if with_shown(v, entry).truncated {
            Seq::empty()
        } else {
            seq![entry]
        },
{
    let after = with_shown(v, entry);
    let added = if after.truncated {
        Seq::empty()
    } else {
        seq![entry]
    };
    assert(seq![entry].drop_last() =~= Seq::<Seq<char>>::empty());
    assert(bytes_of(Seq::<Seq<char>>::empty()) == 0);
    assert(after.matches =~= v.matches + added);
    added
}

/// The entry of a line without context: the file, the line's number counted
/// from one, and the line.
pub open spec fn is_plain_entry(entry: Seq<char>, display: Seq<char>, i: int, line: Seq<char>) -> bool {
    exists|shown: Seq<char>|
        #[trigger] tells_line(shown, line) && entry == (display + ":"@ + decimal_nat(
            (i + 1) as nat,
        ) + ": "@ + shown)
}

/// The entry of a line in context: a mark where the line matches, the file, the
/// line's number counted from one, and the line.
pub open spec fn is_context_entry(
    entry: Seq<char>,
    display: Seq<char>,
    i: int,
    line: Seq<char>,
    matching: bool,
) -> bool {
    exists|shown: Seq<char>|
        #[trigger] tells_line(shown, line) && entry == ((if matching {
            ">"@
        } else {
            " "@
        }) + display + ": "@ + decimal_nat((i + 1) as nat) + ": "@ + shown)
}

proof fn lemma_plain_scan(
    v: GrepView,
    display: Seq<char>,
    lines: Seq<Seq<char>>,
    flags: Seq<bool>,
    limit: int,
    i: int,
) -> (r: (Seq<int>, Seq<Seq<char>>))
    requires
        0 <= i <= lines.len(),
    ensures
        grows(v, plain_scan(v, display, lines, flags, limit, i), r.1, limit),
        r.0.len() == r.1.len(),
        forall|k: int|
            0 <= k < r.0.len() ==> i <= #[trigger] r.0[k] < lines.len() && flags[r.0[k]]
                && is_plain_entry(r.1[k], display, r.0[k], lines[r.0[k]]),
        forall|j: int, k: int|
            0 <= j < k < r.0.len() ==> (#[trigger] r.0[j]) < (#[trigger] r.0[k]),
        is_full(plain_scan(v, display, lines, flags, limit, i), limit) || forall|x: int|
            i <= x < lines.len() && #[trigger] flags[x] ==> r.0.contains(x),
    decreases lines.len() - i,
{
    if i >= lines.len() || is_full(v, limit) {
        assert(v.matches =~= v.matches + Seq::<Seq<char>>::empty());
        assert(bytes_of(Seq::<Seq<char>>::empty()) == 0);
        (Seq::empty(), Seq::empty())
    } else if !flags[i] {
        lemma_plain_scan(v, display, lines, flags, limit, i + 1)
    } else {
        let entry = plain_entry(display, i, lines[i]);
        lemma_snippet(lines[i]);
        assert(is_plain_entry(entry, display, i, lines[i]));
        let next = with_shown(v, entry);
        let added = lemma_shown_grows(v, entry, limit);
        let rest = lemma_plain_scan(next, display, lines, flags, limit, i + 1);
        let done = plain_scan(next, display, lines, flags, limit, i + 1);
        lemma_grows_on(v, next, done, added, rest.1, limit);
        if next.truncated {
            assert(added + rest.1 =~= Seq::<Seq<char>>::empty());
            (Seq::empty(), added + rest.1)
        } else {
            let shown = seq![i] + rest.0;
            let entries = added + rest.1;
            assert forall|k: int| 0 <= k < shown.len() implies i <= #[trigger] shown[k] < lines.len()
                && flags[shown[k]] && is_plain_entry(
                entries[k],
                display,
                shown[k],
                lines[shown[k]],
            ) by {
                if k > 0 {
                    assert(shown[k] == rest.0[k - 1]);
                    assert(entries[k] == rest.1[k - 1]);
                }
            }
            assert forall|j: int, k: int| 0 <= j < k < shown.len() implies (#[trigger] shown[j])
                < (#[trigger] shown[k]) by {
                assert(shown[k] == rest.0[k - 1]);
                if j > 0 {
                    assert(shown[j] == rest.0[j - 1]);
                }
            }
            if !is_full(done, limit) {
                assert forall|x: int| i <= x < lines.len() && #[trigger] flags[x] implies shown.contains(
                    x,
                ) by {
                    if x == i {
                        assert(shown[0] == i);
                    } else {
                        let k = rest.0.index_of(x);
                        assert(shown[k + 1] == x);
                    }
                }
            }
            (shown, entries)
        }
    }
}

/// A search without context lines adds one entry for each line that matches, in
/// the order of the lines: the file, the line's number counted from one, and the
/// line, cut where it is long. It leaves a matching line out only where the
/// limit is reached or the output would exceed its own.
pub proof fn law_matching_lines_are_listed(
    st: &mut GrepState,
    display: &str,
    lines: &Vec<String>,
    flags: &Vec<bool>,
    limit: u128,
)
    requires
        call_ensures(GrepState::grep_lines, (st, display, lines, flags, limit, 0), ()),
        flags@.len() == lines@.len(),
    ensures
        ({
            let had = texts(old(st).matches@);
            let has = texts(final(st).matches@);
            &&& had.len() <= has.len() && has.take(had.len() as int) == had
            &&& has.len() <= limit || has.len() == had.len()
            &&& old(st).truncated ==> final(st).truncated
            &&& final(st).truncated && !old(st).truncated ==> final(st).output_bytes > 60_000
            &&& !final(st).truncated ==> final(st).output_bytes == old(st).output_bytes + bytes_of(
                has.skip(had.len() as int),
            )
            &&& exists|shown: Seq<int>|
                #[trigger] shown.len() == has.len() - had.len() && (forall|k: int|
                    0 <= k < shown.len() ==> 0 <= #[trigger] shown[k] < lines@.len()
                        && flags@[shown[k]] && is_plain_entry(
                        has[had.len() + k],
                        display@,
                        shown[k],
                        lines@[shown[k]]@,
                    )) && (forall|j: int, k: int|
                    0 <= j < k < shown.len() ==> (#[trigger] shown[j]) < (#[trigger] shown[k])) && (
                has.len() >= limit || final(st).truncated || forall|x: int|
                    0 <= x < lines@.len() && #[trigger] flags@[x] ==> shown.contains(x))
        }),
{
    let had = texts(old(st).matches@);
    let has = texts(final(st).matches@);
    let r = lemma_plain_scan(old(st)@, display@, texts(lines@), flags@, limit as int, 0);
    assert(has == had + r.1);
    assert(has.take(had.len() as int) =~= had);
    assert(has.skip(had.len() as int) =~= r.1);
    let shown = r.0;
    assert forall|k: int| 0 <= k < shown.len() implies 0 <= #[trigger] shown[k] < lines@.len()
        && flags@[shown[k]] && is_plain_entry(
        has[had.len() + k],
        display@,
        shown[k],
        lines@[shown[k]]@,
    ) by {
        assert(has[had.len() + k] == r.1[k]);
        assert(texts(lines@)[shown[k]] == lines@[shown[k]]@);
    }
    assert(shown.len() == has.len() - had.len());
}

proof fn lemma_span_scan(
    v: GrepView,
    display: Seq<char>,
    lines: Seq<Seq<char>>,
    flags: Seq<bool>,
    limit: int,
    i: int,
    end: int,
) -> (added: Seq<Seq<char>>)
    requires
        0 <= i <= end + 1,
        end < lines.len(),
    ensures
        grows(v, span_scan(v, display, lines, flags, limit, i, end), added, limit),
        added.len() <= end + 1 - i,
        forall|k: int|
            0 <= k < added.len() ==> is_context_entry(
                #[trigger] added[k],
                display,
                i + k,
                lines[i + k],
                flags[i + k],
            ),
        is_full(span_scan(v, display, lines, flags, limit, i, end), limit) || added.len() == end + 1
            - i,
        is_full(v, limit) ==> added.len() == 0,
    decreases end - i + 1,
{
    if i > end || is_full(v, limit) {
        assert(v.matches =~= v.matches + Seq::<Seq<char>>::empty());
        assert(bytes_of(Seq::<Seq<char>>::empty()) == 0);
        Seq::empty()
    } else {
        let entry = context_entry(display, i, lines[i], flags[i]);
        lemma_snippet(lines[i]);
        assert(is_context_entry(entry, display, i, lines[i], flags[i]));
        let next = with_shown(v, entry);
        let first = lemma_shown_grows(v, entry, limit);
        let rest = lemma_span_scan(next, display, lines, flags, limit, i + 1, end);
        let done = span_scan(next, display, lines, flags, limit, i + 1, end);
        lemma_grows_on(v, next, done, first, rest, limit);
        let added = first + rest;
        assert forall|k: int| 0 <= k < added.len() implies is_context_entry(
            #[trigger] added[k],
            display,
            i + k,
            lines[i + k],
            flags[i + k],
        ) by {
            if k > 0 {
                assert(added[k] == rest[k - 1]);
            }
        }
        added
    }
}

/// Whether entry `k` tells of line `shown[k]`, or separates two lines that do
/// not follow each other where that is -1.
pub open spec fn tells_at(
    entries: Seq<Seq<char>>,
    shown: Seq<int>,
    display: Seq<char>,
    lines: Seq<Seq<char>>,
    flags: Seq<bool>,
    k: int,
) -> bool {
    if shown[k] == -1 {
        &&& entries[k] == display + ":---"@
        &&& k > 0 && shown[k - 1] >= 0
        &&& k + 1 < shown.len() ==> shown[k + 1] > shown[k - 1] + 1
    } else {
        &&& 0 <= shown[k] < lines.len()
        &&& is_context_entry(entries[k], display, shown[k], lines[shown[k]], flags[shown[k]])
        &&& k > 0 && shown[k - 1] >= 0 ==> shown[k] == shown[k - 1] + 1
    }
}

/// Whether entries tell of the lines numbered in `shown`, in the order of the
/// lines, with a separator between two that do not follow each other.
pub open spec fn tells_spans(
    entries: Seq<Seq<char>>,
    shown: Seq<int>,
    display: Seq<char>,
    lines: Seq<Seq<char>>,
    flags: Seq<bool>,
) -> bool {
    &&& entries.len() == shown.len()
    &&& forall|k: int|
        0 <= k < shown.len() ==> #[trigger] tells_at(entries, shown, display, lines, flags, k)
}

proof fn lemma_separator_grows(v: GrepView, display: Seq<char>, limit: int)
    requires
        !is_full(v, limit),
    ensures
        grows(v, with_separator(v, display), seq![display + ":---"@], limit),
{
    let sep = display + ":---"@;
    assert(seq![sep].drop_last() =~= Seq::<Seq<char>>::empty());
    assert(bytes_of(Seq::<Seq<char>>::empty()) == 0);
    assert(with_separator(v, display).matches =~= v.matches + seq![sep]);
}

/// A search with the next span of lines.
spec fn span_added(
    v: GrepView,
    display: Seq<char>,
    lines: Seq<Seq<char>>,
    flags: Seq<bool>,
    windows: Seq<(int, int)>,
    limit: int,
    w: int,
) -> GrepView {
    span_scan(
        if w > 0 {
            with_separator(v, display)
        } else {
            v
        },
        display,
        lines,
        flags,
        limit,
        windows[w].0,
        windows[w].1,
    )
}

/// Whether the lines numbered in `shown` are those of the first `w` spans.
spec fn shows_spans(shown: Seq<int>, windows: Seq<(int, int)>, w: int, complete: bool) -> bool {
    &&& w == 0 ==> shown.len() == 0
    &&& complete && w > 0 ==> shown.len() > 0 && shown.last() == windows[w - 1].1
    &&& complete ==> forall|i: int, x: int|
        #![trigger windows[i], shown.contains(x)]
        0 <= i < w && windows[i].0 <= x <= windows[i].1 ==> shown.contains(x)
    &&& forall|k: int|
        0 <= k < shown.len() && (#[trigger] shown[k]) >= 0 ==> is_covered(windows, shown[k])
}

proof fn lemma_spans_shown(
    before: Seq<int>,
    mark: Seq<int>,
    numbers: Seq<int>,
    windows: Seq<(int, int)>,
    w: int,
    complete: bool,
)
    requires
        0 <= w < windows.len(),
        shows_spans(before, windows, w, true),
        w == 0 ==> mark.len() == 0,
        w > 0 ==> mark == seq![-1int],
        windows[w].0 <= windows[w].1,
        numbers.len() <= windows[w].1 + 1 - windows[w].0,
        numbers == Seq::new(numbers.len(), |k: int| windows[w].0 + k),
        complete ==> numbers.len() == windows[w].1 + 1 - windows[w].0,
    ensures
        shows_spans(before + mark + numbers, windows, w + 1, complete),
{
    let now = before + mark + numbers;
    let m = before.len() + mark.len();
    if complete {
        assert forall|i: int, x: int|
            #![trigger windows[i], now.contains(x)]
            0 <= i < w + 1 && windows[i].0 <= x <= windows[i].1 implies now.contains(x) by {
            if i < w {
                assert(before.contains(x));
                let k = before.index_of(x);
                assert(now[k] == x);
            } else {
                assert(now[m + (x - windows[w].0)] == x);
            }
        }
        assert(now.last() == numbers.last());
    }
    assert forall|k: int| 0 <= k < now.len() && (#[trigger] now[k]) >= 0 implies is_covered(
        windows,
        now[k],
    ) by {
        if k < before.len() {
            assert(now[k] == before[k]);
        } else if k >= m {
            assert(now[k] == numbers[k - m]);
            assert(windows[w].0 <= now[k] <= windows[w].1);
        }
    }
}

proof fn lemma_window_step(
    v: GrepView,
    display: Seq<char>,
    lines: Seq<Seq<char>>,
    flags: Seq<bool>,
    windows: Seq<(int, int)>,
    limit: int,
    w: int,
    before: Seq<int>,
    told: Seq<Seq<char>>,
) -> (r: (Seq<int>, Seq<Seq<char>>))
    requires
        0 <= w < windows.len(),
        spans_apart(windows),
        forall|i: int|
            0 <= i < windows.len() ==> 0 <= (#[trigger] windows[i]).0 && windows[i].1 < lines.len(),
        !is_full(v, limit),
        tells_spans(told, before, display, lines, flags),
        shows_spans(before, windows, w, true),
    ensures
        grows(v, span_added(v, display, lines, flags, windows, limit, w), r.1, limit),
        tells_spans(told + r.1, r.0, display, lines, flags),
        shows_spans(
            r.0,
            windows,
            w + 1,
            !is_full(span_added(v, display, lines, flags, windows, limit, w), limit),
        ),
{
    let (start, end) = windows[w];
    let opened = if w > 0 {
        with_separator(v, display)
    } else {
        v
    };
    let sep: Seq<Seq<char>> = if w > 0 {
        seq![display + ":---"@]
    } else {
        Seq::empty()
    };
    let mark: Seq<int> = if w > 0 {
        seq![-1int]
    } else {
        Seq::empty()
    };
    if w > 0 {
        lemma_separator_grows(v, display, limit);
        assert(windows[w - 1].0 >= 0);
    } else {
        assert(v.matches =~= v.matches + sep);
        assert(bytes_of(sep) == 0);
    }
    assert(grows(v, opened, sep, limit));
    let span = lemma_span_scan(opened, display, lines, flags, limit, start, end);
    let after = span_scan(opened, display, lines, flags, limit, start, end);
    lemma_grows_on(v, opened, after, sep, span, limit);
    let numbers = Seq::new(span.len(), |k: int| start + k);
    lemma_span_told(
        before,
        told,
        mark,
        sep,
        numbers,
        span,
        start,
        display,
        lines,
        flags,
        windows,
        w,
    );
    assert(numbers =~= Seq::new(numbers.len(), |k: int| windows[w].0 + k));
    lemma_spans_shown(before, mark, numbers, windows, w, !is_full(after, limit));
    (before + mark + numbers, sep + span)
}

proof fn lemma_window_scan(
    v: GrepView,
    display: Seq<char>,
    lines: Seq<Seq<char>>,
    flags: Seq<bool>,
    windows: Seq<(int, int)>,
    limit: int,
    w: int,
    before: Seq<int>,
    told: Seq<Seq<char>>,
) -> (r: (Seq<int>, Seq<Seq<char>>))
    requires
        0 <= w <= windows.len(),
        spans_apart(windows),
        forall|i: int|
            0 <= i < windows.len() ==> 0 <= (#[trigger] windows[i]).0 && windows[i].1 < lines.len(),
        tells_spans(told, before, display, lines, flags),
        shows_spans(before, windows, w, !is_full(v, limit)),
    ensures
        grows(v, window_scan(v, display, lines, flags, windows, limit, w), r.1, limit),
        tells_spans(told + r.1, r.0, display, lines, flags),
        !is_full(window_scan(v, display, lines, flags, windows, limit, w), limit) ==> shows_spans(
            r.0,
            windows,
            windows.len() as int,
            true,
        ),
        forall|k: int|
            0 <= k < r.0.len() && (#[trigger] r.0[k]) >= 0 ==> is_covered(windows, r.0[k]),
    decreases windows.len() - w,
{
    if w >= windows.len() || is_full(v, limit) {
        assert(v.matches =~= v.matches + Seq::<Seq<char>>::empty());
        assert(bytes_of(Seq::<Seq<char>>::empty()) == 0);
        assert(told + Seq::<Seq<char>>::empty() =~= told);
        (before, Seq::empty())
    } else {
        let step = lemma_window_step(v, display, lines, flags, windows, limit, w, before, told);
        let after = span_added(v, display, lines, flags, windows, limit, w);
        let rest = lemma_window_scan(
            after,
            display,
            lines,
            flags,
            windows,
            limit,
            w + 1,
            step.0,
            told + step.1,
        );
        let done = window_scan(after, display, lines, flags, windows, limit, w + 1);
        lemma_grows_on(v, after, done, step.1, rest.1, limit);
        assert(told + (step.1 + rest.1) =~= told + step.1 + rest.1);
        (rest.0, step.1 + rest.1)
    }
}

proof fn lemma_span_told(
    before: Seq<int>,
    told: Seq<Seq<char>>,
    mark: Seq<int>,
    sep: Seq<Seq<char>>,
    numbers: Seq<int>,
    span: Seq<Seq<char>>,
    start: int,
    display: Seq<char>,
    lines: Seq<Seq<char>>,
    flags: Seq<bool>,
    windows: Seq<(int, int)>,
    w: int,
)
    requires
        0 <= w < windows.len(),
        spans_apart(windows),
        0 <= start == windows[w].0,
        start + span.len() <= lines.len(),
        tells_spans(told, before, display, lines, flags),
        w == 0 ==> before.len() == 0 && mark.len() == 0 && sep.len() == 0,
        w > 0 ==> mark == seq![-1int] && sep == seq![display + ":---"@] && before.len() > 0
            && before.last() == windows[w - 1].1,
        numbers == Seq::new(span.len(), |k: int| start + k),
        forall|k: int|
            0 <= k < span.len() ==> is_context_entry(
                #[trigger] span[k],
                display,
                start + k,
                lines[start + k],
                flags[start + k],
            ),
        w > 0 ==> windows[w - 1].0 >= 0,
    ensures
        tells_spans(told + (sep + span), before + mark + numbers, display, lines, flags),
{
    let now = before + mark + numbers;
    let entries = told + (sep + span);
    let n = before.len() as int;
    let m = n + mark.len();
    assert forall|k: int| 0 <= k < now.len() implies #[trigger] tells_at(
        entries,
        now,
        display,
        lines,
        flags,
        k,
    ) by {
        if k < n {
            assert(tells_at(told, before, display, lines, flags, k));
            assert(now[k] == before[k]);
            assert(entries[k] == told[k]);
            if k > 0 {
                assert(now[k - 1] == before[k - 1]);
            }
            if k + 1 < n {
                assert(now[k + 1] == before[k + 1]);
            }
        } else if k < m {
            assert(w > 0);
            assert(now[k] == -1);
            assert(now[k - 1] == before.last());
            assert(entries[k] == sep[0]);
            if k + 1 < now.len() {
                assert(now[k + 1] == numbers[0]);
                assert(windows[w - 1].1 + 1 < windows[w].0);
            }
        } else {
            assert(now[k] == numbers[k - m]);
            assert(entries[k] == span[k - m]);
            if k > m {
                assert(now[k - 1] == numbers[k - 1 - m]);
            }
        }
    }
}

/// A search with context lines shows each line within the context of a match,
/// matching or not, once and in the order of the lines, and no others: a mark
/// where the line matches, the file, the line's number counted from one, and
/// the line, cut where it is long. A separator stands between two lines that do
/// not follow each other. A line is left out only where the limit is reached or
/// the output would exceed its own.
pub proof fn law_lines_in_context_are_listed(
    st: &mut GrepState,
    display: &str,
    lines: &Vec<String>,
    flags: &Vec<bool>,
    limit: u128,
    context: usize,
)
    requires
        call_ensures(GrepState::grep_lines, (st, display, lines, flags, limit, context), ()),
        flags@.len() == lines@.len(),
        0 < context,
    ensures
        ({
            let had = texts(old(st).matches@);
            let has = texts(final(st).matches@);
            let near = |x: int|
                exists|m: int|
                    0 <= m < flags@.len() && #[trigger] flags@[m] && m - context <= x <= m
                        + context;
            &&& had.len() <= has.len() && has.take(had.len() as int) == had
            &&& has.len() <= limit || has.len() == had.len()
            &&& old(st).truncated ==> final(st).truncated
            &&& final(st).truncated && !old(st).truncated ==> final(st).output_bytes > 60_000
            &&& !final(st).truncated ==> final(st).output_bytes == old(st).output_bytes + bytes_of(
                has.skip(had.len() as int),
            )
            &&& exists|shown: Seq<int>| #[trigger]
                tells_spans(
                    has.skip(had.len() as int),
                    shown,
                    display@,
                    texts(lines@),
                    flags@,
                ) && (forall|k: int|
                    0 <= k < shown.len() && (#[trigger] shown[k]) >= 0 ==> near(shown[k])) && (
                has.len() >= limit || final(st).truncated || forall|x: int|
                    0 <= x < lines@.len() && near(x) ==> #[trigger] shown.contains(x))
        }),
{
    let had = texts(old(st).matches@);
    let has = texts(final(st).matches@);
    let n = flags@.len() as int;
    let windows = windows_of(flags@, context as int, n);
    law_windows_are_the_context(flags@, context as int, n);
    assert(tells_spans(Seq::empty(), Seq::empty(), display@, texts(lines@), flags@));
    let r = lemma_window_scan(
        old(st)@,
        display@,
        texts(lines@),
        flags@,
        windows,
        limit as int,
        0,
        Seq::empty(),
        Seq::empty(),
    );
    assert(Seq::<Seq<char>>::empty() + r.1 =~= r.1);
    assert(has == had + r.1);
    assert(has.take(had.len() as int) =~= had);
    assert(has.skip(had.len() as int) =~= r.1);
    let shown = r.0;
    assert forall|k: int| 0 <= k < shown.len() && (#[trigger] shown[k]) >= 0 implies is_near(
        flags@,
        context as int,
        n,
        shown[k],
    ) by {
        assert(is_covered(windows, shown[k]));
    }
    if !is_full(final(st)@, limit as int) {
        assert forall|x: int|
            0 <= x < lines@.len() && is_near(
                flags@,
                context as int,
                n,
                x,
            ) implies #[trigger] shown.contains(x) by {
            assert(is_covered(windows, x));
            let i = choose|i: int|
                0 <= i < windows.len() && (#[trigger] windows[i]).0 <= x <= windows[i].1;
            assert(windows[i].0 <= x);
        }
    }
}

/// A search begins with nothing found and is over once it has as many entries
/// as it may, or its output was cut.
pub proof fn law_when_a_search_is_over(st: &GrepState, limit: u128, r: bool, fresh: GrepState)
    requires
        call_ensures(GrepState::full, (st, limit), r),
        call_ensures(GrepState::new, (), fresh),
    ensures
        r <==> st.matches@.len() >= limit || st.truncated,
        fresh.matches@.len() == 0 && fresh.output_bytes == 0 && !fresh.truncated,
{
}

} // verus!
