//! Patterns on text: regular expressions, file globs, and the minimal glob in
//! which only `*` is special.
use vstd::prelude::*;
use vstd::utf8::encode_utf8;

use crate::text::{
    chars_of, find_from, find_in, has_prefix, has_suffix, lemma_find_from, lemma_split_append,
    lemma_split_plain, matches_at, occurs_at, opt_text, split_at_char, split_char, texts,
};

verus! {

/// The regular expressions of `regex`.
#[verifier::external_type_specification]
#[verifier::external_body]
pub struct ExRegex(regex::Regex);

/// The patterns of `glob`.
#[verifier::external_type_specification]
#[verifier::external_body]
pub struct ExGlob(glob::Pattern);

/// What `regex` says is wrong with a pattern, if anything.
pub uninterp spec fn regex_problem(pattern: Seq<char>) -> Option<Seq<char>>;

/// Whether `regex` accepts a pattern.
pub open spec fn regex_accepts(pattern: Seq<char>) -> bool {
    regex_problem(pattern) is None
}

/// Whether `regex` finds a match of a pattern in a text.
pub uninterp spec fn regex_finds(pattern: Seq<char>, text: Seq<char>) -> bool;

/// The matches that `regex` finds of a pattern in a text, one after the other:
/// where each begins and ends in bytes, and what its first group holds.
pub uninterp spec fn regex_captures(pattern: Seq<char>, text: Seq<char>) -> Seq<
    (int, int, Option<Seq<char>>),
>;

/// Whether `glob` accepts a pattern.
pub uninterp spec fn glob_accepts(pattern: Seq<char>) -> bool;

/// Whether a text matches a pattern of `glob`.
pub uninterp spec fn glob_fits(pattern: Seq<char>, text: Seq<char>) -> bool;

/// A regular expression together with the text it was compiled from.
pub struct TextPattern {
    source: String,
    regex: regex::Regex,
}

/// A file glob together with the text it was compiled from.
pub struct FileGlob {
    source: String,
    pattern: glob::Pattern,
}

/// One match of a regular expression.
#[derive(Debug)]
pub struct Capture {
    /// The byte at which the match begins.
    pub start: usize,
    /// The byte behind the match.
    pub end: usize,
    /// What the first group holds.
    pub group: Option<String>,
}

impl Capture {
    pub open spec fn parts(self) -> (int, int, Option<Seq<char>>) {
        (self.start as int, self.end as int, opt_text(self.group))
    }
}

pub open spec fn capture_parts(v: Seq<Capture>) -> Seq<(int, int, Option<Seq<char>>)> {
    v.map_values(|c: Capture| c.parts())
}

impl TextPattern {
    /// The text of the pattern.
    pub closed spec fn text(&self) -> Seq<char> {
        self.source@
    }

    /// `Regex::new`: a pattern that `regex` accepts, compiled; else the text
    /// that the error's `Display` writes. Which of the two, and the text, depend
    /// on the pattern alone.
    #[verifier::external_body]
    pub(crate) fn new(pattern: &str) -> (r: Result<TextPattern, String>)
        ensures
            match r {
                Ok(p) => regex_accepts(pattern@) && p.text() == pattern@,
                Err(e) => regex_problem(pattern@) == Some(e@),
            },
    {
        match regex::Regex::new(pattern) {
            Ok(regex) => Ok(TextPattern { source: pattern.to_string(), regex }),
            Err(e) => Err(e.to_string()),
        }
    }

    /// `Regex::is_match`: what it says depends on the pattern and the text
    /// alone.
    #[verifier::external_body]
    pub(crate) fn is_match(&self, text: &str) -> (r: bool)
        ensures
            r == regex_finds(self.text(), text@),
    {
        self.regex.is_match(text)
    }

    /// `Regex::captures_iter`: the matches depend on the pattern and the text
    /// alone, and each lies within the text.
    #[verifier::external_body]
    pub(crate) fn captures(&self, text: &str) -> (r: Vec<Capture>)
        ensures
            capture_parts(r@) == regex_captures(self.text(), text@),
            forall|i: int|
                0 <= i < r@.len() ==> (#[trigger] r@[i]).start <= r@[i].end && r@[i].end
                    <= encode_utf8(text@).len(),
    {
        self.regex.captures_iter(text).map(
            |c|
                Capture {
                    start: c.get_match().start(),
                    end: c.get_match().end(),
                    group: c.get(1).map(|m| m.as_str().to_string()),
                },
        ).collect()
    }
}

impl FileGlob {
    /// The text of the pattern.
    pub closed spec fn text(&self) -> Seq<char> {
        self.source@
    }

    /// `glob::Pattern::new`: a pattern that `glob` accepts, compiled.
    #[verifier::external_body]
    pub(crate) fn new(pattern: &str) -> (r: Option<FileGlob>)
        ensures
            match r {
                Some(p) => glob_accepts(pattern@) && p.text() == pattern@,
                None => !glob_accepts(pattern@),
            },
    {
        let compiled = glob::Pattern::new(pattern).ok()?;
        Some(FileGlob { source: pattern.to_string(), pattern: compiled })
    }

    /// `glob::Pattern::matches`: what it says depends on the pattern and the
    /// text alone.
    #[verifier::external_body]
    pub(crate) fn matches(&self, text: &str) -> (r: bool)
        ensures
            r == glob_fits(self.text(), text@),
    {
        self.pattern.matches(text)
    }
}

/// The parts in order, each behind its gap.
pub open spec fn woven(gaps: Seq<Seq<char>>, parts: Seq<Seq<char>>) -> Seq<char>
    decreases parts.len(),
{
    if parts.len() == 0 {
        Seq::empty()
    } else {
        gaps[0] + parts[0] + woven(gaps.skip(1), parts.skip(1))
    }
}

/// Whether a text is the parts in order, with any gaps before and between
/// them.
pub open spec fn fits_behind(parts: Seq<Seq<char>>, text: Seq<char>) -> bool {
    exists|gaps: Seq<Seq<char>>| gaps.len() == parts.len() && text == #[trigger] woven(gaps, parts)
}

/// Whether a text begins with the first part and is then the others in order,
/// with any gaps before and between them.
pub open spec fn fits(parts: Seq<Seq<char>>, text: Seq<char>) -> bool {
    has_prefix(text, parts[0]) && if parts.len() == 1 {
        text.len() == parts[0].len()
    } else {
        fits_behind(parts.skip(1), text.skip(parts[0].len() as int))
    }
}

/// What a minimal glob means: `*` stands for any characters, everything else
/// for itself.
pub open spec fn matches_glob(pattern: Seq<char>, text: Seq<char>) -> bool {
    fits(split_at_char(pattern, '*'), text)
}

/// Of the places where the first part can stand, the leftmost serves as well
/// as any.
proof fn lemma_leftmost_serves(parts: Seq<Seq<char>>, text: Seq<char>)
    requires
        parts.len() >= 2,
    ensures
        fits_behind(parts, text) == match find_from(text, parts[0], 0) {
            Some(p) => fits_behind(parts.skip(1), text.skip(p + parts[0].len())),
            None => false,
        },
{
    let first = parts[0];
    let others = parts.skip(1);
    let n = first.len() as int;
    lemma_find_from(text, first, 0);
    if fits_behind(parts, text) {
        let gaps = choose|gaps: Seq<Seq<char>>|
            gaps.len() == parts.len() && text == #[trigger] woven(gaps, parts);
        let k = gaps[0].len() as int;
        let tail = woven(gaps.skip(1), others);
        assert(text == gaps[0] + first + tail);
        assert(text.subrange(k, k + n) =~= first);
        assert(occurs_at(text, first, k));
        let p = find_from(text, first, 0).unwrap();
        assert(p <= k);
        let extra = text.subrange(p + n, k + n);
        let g = gaps.skip(1).update(0, extra + gaps[1]);
        assert(g.skip(1) =~= gaps.skip(1).skip(1));
        assert(gaps.skip(1)[0] == gaps[1]);
        assert(woven(g, others) =~= extra + tail);
        assert(text.skip(p + n) =~= extra + tail);
        assert(text.skip(p + n) == woven(g, others));
    }
    match find_from(text, first, 0) {
        Some(p) => {
            let rest = text.skip(p + n);
            if fits_behind(others, rest) {
                let gaps = choose|gaps: Seq<Seq<char>>|
                    gaps.len() == others.len() && rest == #[trigger] woven(gaps, others);
                let g = seq![text.take(p)] + gaps;
                assert(g.skip(1) =~= gaps);
                assert(text.subrange(p, p + n) == first);
                assert(woven(g, parts) =~= text.take(p) + first + rest);
                assert(text =~= text.take(p) + first + rest) by {
                    assert forall|i: int| 0 <= i < text.len() implies text[i] == (text.take(p) + first
                        + rest)[i] by {
                        if p <= i < p + n {
                            assert(text.subrange(p, p + n)[i - p] == first[i - p]);
                        }
                    }
                }
                assert(text == woven(g, parts));
            }
        },
        None => {},
    }
}

/// A last part behind anything is a suffix.
proof fn lemma_last_is_suffix(parts: Seq<Seq<char>>, text: Seq<char>)
    requires
        parts.len() == 1,
    ensures
        fits_behind(parts, text) == has_suffix(text, parts[0]),
{
    let last = parts[0];
    assert(parts.skip(1) =~= Seq::<Seq<char>>::empty());
    if fits_behind(parts, text) {
        let gaps = choose|gaps: Seq<Seq<char>>|
            gaps.len() == parts.len() && text == #[trigger] woven(gaps, parts);
        assert(woven(gaps.skip(1), parts.skip(1)) =~= Seq::<char>::empty());
        assert(text =~= gaps[0] + last);
        assert(text.skip(text.len() - last.len()) =~= last);
    }
    if has_suffix(text, last) {
        let gaps = seq![text.take(text.len() - last.len())];
        assert(woven(gaps.skip(1), parts.skip(1)) =~= Seq::<char>::empty());
        assert(woven(gaps, parts) =~= text.take(text.len() - last.len()) + last);
        assert(text =~= text.take(text.len() - last.len()) + text.skip(text.len() - last.len()));
        assert(text == woven(gaps, parts));
    }
}

/// Minimal glob: `*` matches any sequence of characters, everything else is
/// literal.
pub fn glob_match(pattern: &str, text: &str) -> (r: bool)
    ensures
        r == matches_glob(pattern@, text@),
{
    let parts: Vec<String> = split_char(pattern, '*');
    let ghost all = texts(parts@);
    let v: Vec<char> = chars_of(text);
    let n: usize = parts.len();
    assert(all.len() == n);
    if n == 1 {
        assert(all[0] == parts@[0]@);
        assert(text@.take(text@.len() as int) =~= text@);
        return crate::text::str_eq(parts[0].as_str(), text);
    }
    let total: usize = v.len();
    let first: Vec<char> = chars_of(parts[0].as_str());
    assert(all[0] == first@);
    proof {
        if first@.len() <= v@.len() {
            assert(v@.subrange(0, first@.len() as int) =~= v@.take(first@.len() as int));
        }
    }
    if !matches_at(&v, 0, &first) {
        return false;
    }
    let mut from: usize = first.len();
    let mut i: usize = 1;
    while i + 1 < n
        invariant
            1 <= i < n,
            n == parts@.len(),
            all == texts(parts@),
            v@ == text@,
            total == v@.len(),
            from <= total,
            all == split_at_char(pattern@, '*'),
            fits(all, text@) == fits_behind(all.skip(i as int), v@.skip(from as int)),
        decreases n - i,
    {
        let part: Vec<char> = chars_of(parts[i].as_str());
        let ghost rest = v@.skip(from as int);
        proof {
            assert(all.skip(i as int)[0] == part@);
            assert(all.skip(i as int).skip(1) =~= all.skip(i + 1));
            lemma_leftmost_serves(all.skip(i as int), rest);
            lemma_find_shift(v@, part@, from as int, from as int);
            lemma_find_from(v@, part@, from as int);
        }
        match find_in(&v, &part, from) {
            None => {
                return false;
            },
            Some(p) => {
                let after: usize = p + part.len();
                assert(rest.skip(p - from + part@.len()) =~= v@.skip(after as int));
                from = after;
            },
        }
        i = i + 1;
    }
    let last: Vec<char> = chars_of(parts[n - 1].as_str());
    proof {
        assert(all.skip(n - 1)[0] == last@);
        lemma_last_is_suffix(all.skip(n - 1), v@.skip(from as int));
        let rest = v@.skip(from as int);
        if last@.len() <= rest.len() {
            assert(rest.skip(rest.len() - last@.len()) =~= v@.subrange(
                v@.len() - last@.len(),
                v@.len() as int,
            ));
        }
    }
    last.len() <= v.len() - from && matches_at(&v, v.len() - last.len(), &last)
}

/// Finding from a place on is finding in what is left.
proof fn lemma_find_shift(s: Seq<char>, p: Seq<char>, cut: int, from: int)
    requires
        0 <= cut <= from,
        cut <= s.len(),
    ensures
        find_from(s, p, from) == match find_from(s.skip(cut), p, from - cut) {
            Some(i) => Some(i + cut),
            None => None,
        },
    decreases s.len() - from + 1,
{
    let t = s.skip(cut);
    if from + p.len() <= s.len() {
        assert(t.subrange(from - cut, from - cut + p.len()) =~= s.subrange(from, from + p.len()));
        if s.subrange(from, from + p.len()) != p {
            lemma_find_shift(s, p, cut, from + 1);
        }
    }
}

/// `*` alone matches everything.
pub proof fn law_star_matches_everything(text: Seq<char>)
    ensures
        matches_glob("*"@, text),
{
    reveal_strlit("*");
    let p = "*"@;
    assert(p.drop_last() =~= Seq::<char>::empty());
    assert(split_at_char(p.drop_last(), '*') =~= seq![Seq::<char>::empty()]);
    let parts = split_at_char(p, '*');
    assert(parts =~= seq![Seq::<char>::empty(), Seq::<char>::empty()]);
    assert(text.take(0) =~= Seq::<char>::empty());
    assert(text.skip(0) =~= text);
    lemma_last_is_suffix(parts.skip(1), text);
    assert(text.skip(text.len() as int) =~= Seq::<char>::empty());
}

/// A pattern without a star matches its own text alone; one that ends in its
/// only star matches what begins with the text before it; one that begins with
/// its only star matches what ends with the text behind it.
pub proof fn law_plain_patterns(pattern: &str, text: &str, r: bool, part: Seq<char>)
    requires
        call_ensures(glob_match, (pattern, text), r),
        forall|i: int| 0 <= i < part.len() ==> #[trigger] part[i] != '*',
    ensures
        pattern@ == part ==> r == (text@ == part),
        pattern@ == part.push('*') ==> r == (exists|t: Seq<char>| text@ == #[trigger] (part + t)),
        pattern@ == seq!['*'] + part ==> r == (exists|t: Seq<char>|
            text@ == #[trigger] (t + part)),
{
    let empty = Seq::<char>::empty();
    lemma_split_plain(part, '*');
    if pattern@ == part {
        assert(split_at_char(part, '*') =~= seq![part]);
        if r {
            assert(text@ =~= part);
        } else if text@ == part {
            assert(text@.take(part.len() as int) =~= part);
        }
    }
    if pattern@ == part.push('*') {
        lemma_split_plain(empty, '*');
        lemma_split_append(part, empty, '*');
        assert(part.push('*') =~= part + seq!['*'] + empty);
        let parts = split_at_char(pattern@, '*');
        assert(parts =~= seq![part, empty]);
        if r {
            assert(text@ =~= part + text@.skip(part.len() as int));
        }
        if exists|t: Seq<char>| text@ == #[trigger] (part + t) {
            let t = choose|t: Seq<char>| text@ == #[trigger] (part + t);
            assert(text@.take(part.len() as int) =~= part);
            let gaps = seq![t];
            let behind = parts.skip(1);
            assert(behind =~= seq![empty]);
            assert(woven(gaps.skip(1), behind.skip(1)) =~= empty);
            assert(woven(gaps, behind) =~= t);
            assert(text@.skip(part.len() as int) =~= t);
            assert(fits_behind(behind, t));
        }
    }
    if pattern@ == seq!['*'] + part {
        lemma_split_plain(empty, '*');
        lemma_split_append(empty, part, '*');
        assert(seq!['*'] + part =~= empty + seq!['*'] + part);
        let parts = split_at_char(pattern@, '*');
        assert(parts =~= seq![empty, part]);
        let behind = parts.skip(1);
        assert(behind =~= seq![part]);
        assert(text@.skip(0) =~= text@);
        assert(text@.take(0) =~= empty);
        if r {
            let gaps = choose|gaps: Seq<Seq<char>>|
                gaps.len() == behind.len() && text@ == #[trigger] woven(gaps, behind);
            assert(woven(gaps.skip(1), behind.skip(1)) =~= empty);
            assert(text@ =~= gaps[0] + part);
        }
        if exists|t: Seq<char>| text@ == #[trigger] (t + part) {
            let t = choose|t: Seq<char>| text@ == #[trigger] (t + part);
            let gaps = seq![t];
            assert(woven(gaps.skip(1), behind.skip(1)) =~= empty);
            assert(woven(gaps, behind) =~= t + part);
            assert(fits_behind(behind, text@));
        }
    }
}

} // verus!
