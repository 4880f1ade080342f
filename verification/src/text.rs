//! Text primitives: the vocabulary in which the contracts of this crate speak
//! of strings, with an executable counterpart for each word of it.
use vstd::prelude::*;
use vstd::utf8::{encode_utf8, valid_utf8};

verus! {

broadcast use vstd::seq_lib::group_seq_properties;

/// `String::push` appends one character.
pub assume_specification[ String::push ](s: &mut String, ch: char)
    ensures
        final(s)@ == old(s)@.push(ch),
;

/// What `{:?}` writes for a text.
pub uninterp spec fn debug_of(s: Seq<char>) -> Seq<char>;

/// `str`'s `Debug`: the text in quotes, with its special characters escaped.
#[verifier::external_body]
pub(crate) fn debug_text(s: &str) -> (r: String)
    ensures
        r@ == debug_of(s@),
{
    format!("{s:?}")
}

/// `String::from_utf8`: the text that bytes encode, where they encode one.
#[verifier::external_body]
pub(crate) fn utf8_text(bytes: Vec<u8>) -> (r: Option<String>)
    ensures
        match r {
            Some(t) => valid_utf8(bytes@) && encode_utf8(t@) == bytes@,
            None => !valid_utf8(bytes@),
        },
{
    String::from_utf8(bytes).ok()
}

/// The texts held by a sequence of strings.
pub open spec fn texts(v: Seq<String>) -> Seq<Seq<char>> {
    v.map_values(|t: String| t@)
}

/// The text of an optional string.
pub open spec fn opt_text(o: Option<String>) -> Option<Seq<char>> {
    match o {
        Some(t) => Some(t@),
        None => None,
    }
}

/// The characters of a string, in order.
pub fn chars_of(s: &str) -> (v: Vec<char>)
    ensures
        v@ == s@,
{
    let mut v: Vec<char> = Vec::new();
    for c in it: s.chars()
        invariant
            it.seq() == s@,
            v@ == s@.take(it.index()),
    {
        v.push(c);
    }
    assert(s@.take(s@.len() as int) =~= s@);
    v
}

/// The string made of the characters `v[from..to]`.
pub fn string_of(v: &Vec<char>, from: usize, to: usize) -> (s: String)
    requires
        from <= to <= v@.len(),
    ensures
        s@ == v@.subrange(from as int, to as int),
{
    let mut s: String = String::new();
    let mut i: usize = from;
    while i < to
        invariant
            from <= i <= to <= v@.len(),
            s@ == v@.subrange(from as int, i as int),
        decreases to - i,
    {
        s.push(v[i]);
        i = i + 1;
        assert(v@.subrange(from as int, i as int) =~= v@.subrange(from as int, i - 1).push(v@[i - 1]));
    }
    s
}

/// Whether `p` is a prefix of `s`.
pub open spec fn has_prefix(s: Seq<char>, p: Seq<char>) -> bool {
    p.len() <= s.len() && s.take(p.len() as int) == p
}

/// Whether `p` is a suffix of `s`.
pub open spec fn has_suffix(s: Seq<char>, p: Seq<char>) -> bool {
    p.len() <= s.len() && s.skip(s.len() - p.len()) == p
}

/// Whether `p` occurs in `s` at position `i`.
pub open spec fn occurs_at(s: Seq<char>, p: Seq<char>, i: int) -> bool {
    0 <= i && i + p.len() <= s.len() && s.subrange(i, i + p.len()) == p
}

/// The position of the first occurrence of `p` in `s`, at or after `from`.
pub open spec fn find_from(s: Seq<char>, p: Seq<char>, from: int) -> Option<int>
    decreases s.len() - from + 1,
{
    if from < 0 || from + p.len() > s.len() {
        None
    } else if s.subrange(from, from + p.len()) == p {
        Some(from)
    } else {
        find_from(s, p, from + 1)
    }
}

/// The position of the first occurrence of `p` in `s`.
pub open spec fn find(s: Seq<char>, p: Seq<char>) -> Option<int> {
    find_from(s, p, 0)
}

/// Whether `p` occurs in `s`.
pub open spec fn contains_text(s: Seq<char>, p: Seq<char>) -> bool {
    find(s, p) is Some
}

/// `find_from` gives the least occurrence not below `from`, and gives one
/// wherever there is one.
pub proof fn lemma_find_from(s: Seq<char>, p: Seq<char>, from: int)
    requires
        from >= 0,
    ensures
        match find_from(s, p, from) {
            Some(i) => from <= i && occurs_at(s, p, i) && forall|j: int|
                from <= j < i ==> !occurs_at(s, p, j),
            None => forall|j: int| from <= j ==> !occurs_at(s, p, j),
        },
    decreases s.len() - from + 1,
{
    if from + p.len() > s.len() {
    } else if s.subrange(from, from + p.len()) == p {
    } else {
        lemma_find_from(s, p, from + 1);
    }
}

/// Whether the characters of `v` from `at` on begin with those of `p`.
pub fn matches_at(v: &Vec<char>, at: usize, p: &Vec<char>) -> (r: bool)
    ensures
        r == occurs_at(v@, p@, at as int),
{
    if at > v.len() || p.len() > v.len() - at {
        return false;
    }
    let n: usize = v.len();
    let mut i: usize = 0;
    while i < p.len()
        invariant
            i <= p@.len(),
            n == v@.len(),
            at + p@.len() <= n,
            v@.subrange(at as int, at + i) == p@.take(i as int),
        decreases p@.len() - i,
    {
        if v[at + i] != p[i] {
            assert(v@.subrange(at as int, at + p@.len())[i as int] != p@[i as int]);
            return false;
        }
        i = i + 1;
        assert(v@.subrange(at as int, at + i) =~= v@.subrange(at as int, at + i - 1).push(v@[at + i - 1]));
        assert(p@.take(i as int) =~= p@.take(i - 1).push(p@[i - 1]));
    }
    assert(p@.take(i as int) =~= p@);
    true
}

/// Whether two texts have the same characters.
pub fn str_eq(a: &str, b: &str) -> (r: bool)
    ensures
        r == (a@ == b@),
{
    let v: Vec<char> = chars_of(a);
    let w: Vec<char> = chars_of(b);
    assert(a@.subrange(0, a@.len() as int) =~= a@);
    v.len() == w.len() && matches_at(&v, 0, &w)
}

/// Whether a text is among others.
pub fn contains_item(items: &Vec<String>, item: &str) -> (r: bool)
    ensures
        r == texts(items@).contains(item@),
{
    let mut i: usize = 0;
    while i < items.len()
        invariant
            i <= items@.len(),
            forall|k: int| 0 <= k < i ==> texts(items@)[k] != item@,
        decreases items@.len() - i,
    {
        if str_eq(items[i].as_str(), item) {
            assert(texts(items@)[i as int] == item@);
            return true;
        }
        i = i + 1;
    }
    false
}

pub fn starts_with(s: &str, p: &str) -> (r: bool)
    ensures
        r == has_prefix(s@, p@),
{
    let v: Vec<char> = chars_of(s);
    let q: Vec<char> = chars_of(p);
    proof {
        if p@.len() <= s@.len() {
            assert(s@.subrange(0, p@.len() as int) =~= s@.take(p@.len() as int));
        }
    }
    matches_at(&v, 0, &q)
}

pub fn ends_with(s: &str, p: &str) -> (r: bool)
    ensures
        r == has_suffix(s@, p@),
{
    let v: Vec<char> = chars_of(s);
    let q: Vec<char> = chars_of(p);
    if q.len() > v.len() {
        return false;
    }
    proof {
        assert(s@.subrange(s@.len() - p@.len(), s@.len() as int) =~= s@.skip(s@.len() - p@.len()));
    }
    matches_at(&v, v.len() - q.len(), &q)
}

/// `s` without the prefix `p`, when it has it.
pub fn strip_prefix(s: &str, p: &str) -> (r: Option<String>)
    ensures
        match r {
            Some(t) => has_prefix(s@, p@) && t@ == s@.skip(p@.len() as int),
            None => !has_prefix(s@, p@),
        },
{
    let v: Vec<char> = chars_of(s);
    let q: Vec<char> = chars_of(p);
    proof {
        if p@.len() <= s@.len() {
            assert(s@.subrange(0, p@.len() as int) =~= s@.take(p@.len() as int));
        }
    }
    if matches_at(&v, 0, &q) {
        let t: String = string_of(&v, q.len(), v.len());
        assert(s@.subrange(p@.len() as int, s@.len() as int) =~= s@.skip(p@.len() as int));
        Some(t)
    } else {
        None
    }
}

/// The position of the first occurrence of `p` in `v` at or after `from`.
pub fn find_in(v: &Vec<char>, p: &Vec<char>, from: usize) -> (r: Option<usize>)
    ensures
        match r {
            Some(i) => find_from(v@, p@, from as int) == Some(i as int),
            None => find_from(v@, p@, from as int) is None,
        },
{
    let mut i: usize = from;
    while i <= v.len() && p.len() <= v.len() - i
        invariant
            from <= i,
            find_from(v@, p@, from as int) == find_from(v@, p@, i as int),
        decreases v@.len() - i + 1,
    {
        if matches_at(v, i, p) {
            return Some(i);
        }
        assert(i < v.len()) by {
            if i == v.len() {
                assert(v@.subrange(i as int, i as int) =~= p@);
            }
        }
        i = i + 1;
    }
    None
}

pub fn contains_str(s: &str, p: &str) -> (r: bool)
    ensures
        r == contains_text(s@, p@),
{
    let v: Vec<char> = chars_of(s);
    let q: Vec<char> = chars_of(p);
    find_in(&v, &q, 0).is_some()
}

/// `s` with a space for each line break.
pub open spec fn one_line(s: Seq<char>) -> Seq<char> {
    s.map_values(
        |c: char|
            if c == '\n' {
                ' '
            } else {
                c
            },
    )
}

pub fn on_one_line(s: &str) -> (r: String)
    ensures
        r@ == one_line(s@),
        forall|i: int| 0 <= i < r@.len() ==> r@[i] != '\n',
{
    let v: Vec<char> = chars_of(s);
    let mut out: String = String::new();
    let mut i: usize = 0;
    while i < v.len()
        invariant
            i <= v@.len(),
            v@ == s@,
            out@ == one_line(s@).take(i as int),
        decreases v@.len() - i,
    {
        out.push(
            if v[i] == '\n' {
                ' '
            } else {
                v[i]
            },
        );
        i = i + 1;
        assert(out@ =~= one_line(s@).take(i as int));
    }
    assert(out@ =~= one_line(s@));
    out
}

/// `s` with every occurrence of `from` replaced by `to`, scanning from the
/// left and never rescanning what was replaced.
pub open spec fn replaced(s: Seq<char>, from: Seq<char>, to: Seq<char>) -> Seq<char>
    decreases s.len(),
{
    if from.len() == 0 || s.len() < from.len() {
        s
    } else if s.take(from.len() as int) == from {
        to + replaced(s.skip(from.len() as int), from, to)
    } else {
        seq![s[0]] + replaced(s.skip(1), from, to)
    }
}

/// `str::replace` for a pattern that is not empty.
pub fn replace(s: &str, from: &str, to: &str) -> (r: String)
    requires
        from@.len() > 0,
    ensures
        r@ == replaced(s@, from@, to@),
{
    let v: Vec<char> = chars_of(s);
    let f: Vec<char> = chars_of(from);
    let mut out: String = String::new();
    let mut i: usize = 0;
    assert(s@.skip(0) =~= s@);
    assert(Seq::<char>::empty() + replaced(s@, from@, to@) =~= replaced(s@, from@, to@));
    while f.len() <= v.len() - i
        invariant
            v@ == s@,
            f@ == from@,
            f@.len() > 0,
            i <= v@.len(),
            out@ + replaced(v@.skip(i as int), f@, to@) == replaced(s@, from@, to@),
        decreases v@.len() - i,
    {
        let ghost rest = v@.skip(i as int);
        assert(rest.take(f@.len() as int) =~= v@.subrange(i as int, i + f@.len()));
        if matches_at(&v, i, &f) {
            let ghost before = out@;
            out.append(to);
            i = i + f.len();
            assert(rest.skip(f@.len() as int) =~= v@.skip(i as int));
            assert(before + (to@ + replaced(v@.skip(i as int), f@, to@)) =~= out@ + replaced(v@.skip(i as int), f@, to@));
        } else {
            let ghost before = out@;
            out.push(v[i]);
            i = i + 1;
            assert(rest.skip(1) =~= v@.skip(i as int));
            assert(before + (seq![rest[0]] + replaced(v@.skip(i as int), f@, to@)) =~= out@ + replaced(v@.skip(i as int), f@, to@));
        }
    }
    let tail: String = string_of(&v, i, v.len());
    assert(v@.subrange(i as int, v@.len() as int) =~= v@.skip(i as int));
    out.append(tail.as_str());
    out
}

/// The characters with the Unicode property `White_Space`.
pub open spec fn is_space(c: char) -> bool {
    let n = c as u32;
    ||| 0x9 <= n <= 0xd
    ||| n == 0x20 || n == 0x85 || n == 0xa0 || n == 0x1680
    ||| 0x2000 <= n <= 0x200a
    ||| n == 0x2028 || n == 0x2029 || n == 0x202f || n == 0x205f || n == 0x3000
}

pub fn is_whitespace(c: char) -> (r: bool)
    ensures
        r == is_space(c),
{
    let n: u32 = c as u32;
    (0x9 <= n && n <= 0xd) || n == 0x20 || n == 0x85 || n == 0xa0 || n == 0x1680 || (0x2000 <= n && n
        <= 0x200a) || n == 0x2028 || n == 0x2029 || n == 0x202f || n == 0x205f || n == 0x3000
}

/// `s` without its leading whitespace.
pub open spec fn trimmed_start(s: Seq<char>) -> Seq<char>
    decreases s.len(),
{
    if s.len() > 0 && is_space(s[0]) {
        trimmed_start(s.skip(1))
    } else {
        s
    }
}

/// `s` without its trailing whitespace.
pub open spec fn trimmed_end(s: Seq<char>) -> Seq<char>
    decreases s.len(),
{
    if s.len() > 0 && is_space(s.last()) {
        trimmed_end(s.drop_last())
    } else {
        s
    }
}

/// `s` without the whitespace around it.
pub open spec fn trimmed(s: Seq<char>) -> Seq<char> {
    trimmed_end(trimmed_start(s))
}

/// `str::trim`.
pub fn trim(s: &str) -> (r: String)
    ensures
        r@ == trimmed(s@),
{
    let v: Vec<char> = chars_of(s);
    let mut i: usize = 0;
    assert(s@.skip(0) =~= s@);
    while i < v.len() && is_whitespace(v[i])
        invariant
            v@ == s@,
            i <= v@.len(),
            trimmed_start(v@.skip(i as int)) == trimmed_start(s@),
        decreases v@.len() - i,
    {
        assert(v@.skip(i as int).skip(1) =~= v@.skip(i + 1));
        i = i + 1;
    }
    let mut j: usize = v.len();
    assert(v@.subrange(i as int, j as int) =~= v@.skip(i as int));
    while i < j && is_whitespace(v[j - 1])
        invariant
            v@ == s@,
            i <= j <= v@.len(),
            trimmed_end(v@.subrange(i as int, j as int)) == trimmed(s@),
        decreases j - i,
    {
        assert(v@.subrange(i as int, j as int).drop_last() =~= v@.subrange(i as int, j - 1));
        j = j - 1;
    }
    string_of(&v, i, j)
}

/// The pieces of `s` between the characters for which `sep` holds. There is
/// always one piece more than there are separators.
pub open spec fn split_by(s: Seq<char>, sep: spec_fn(char) -> bool) -> Seq<Seq<char>>
    decreases s.len(),
{
    if s.len() == 0 {
        seq![Seq::<char>::empty()]
    } else {
        let before = split_by(s.drop_last(), sep);
        if sep(s.last()) {
            before.push(Seq::<char>::empty())
        } else {
            before.drop_last().push(before.last().push(s.last()))
        }
    }
}

/// The test for one character.
pub open spec fn equals_char(c: char) -> spec_fn(char) -> bool {
    |x: char| x == c
}

/// The pieces of `s` between the characters `c`.
pub open spec fn split_at_char(s: Seq<char>, c: char) -> Seq<Seq<char>> {
    split_by(s, equals_char(c))
}

proof fn lemma_split_by_len(s: Seq<char>, sep: spec_fn(char) -> bool)
    ensures
        split_by(s, sep).len() > 0,
    decreases s.len(),
{
    if s.len() > 0 {
        lemma_split_by_len(s.drop_last(), sep);
    }
}

/// `str::split` at one character.
pub fn split_char(s: &str, c: char) -> (r: Vec<String>)
    ensures
        texts(r@) == split_at_char(s@, c),
        r@.len() > 0,
{
    let ghost sep = equals_char(c);
    let v: Vec<char> = chars_of(s);
    let mut out: Vec<String> = Vec::new();
    let mut cur: String = String::new();
    let mut i: usize = 0;
    assert(texts(out@).push(cur@) =~= split_by(v@.take(0), sep));
    while i < v.len()
        invariant
            v@ == s@,
            i <= v@.len(),
            sep == equals_char(c),
            texts(out@).push(cur@) == split_by(v@.take(i as int), sep),
        decreases v@.len() - i,
    {
        assert(v@.take(i + 1).drop_last() =~= v@.take(i as int));
        let ghost before = texts(out@).push(cur@);
        assert(before.drop_last() =~= texts(out@));
        if v[i] == c {
            let ghost old_out = out@;
            out.push(cur);
            assert(texts(out@) =~= before);
            cur = String::new();
            assert(texts(out@).push(cur@) =~= split_by(v@.take(i + 1), sep));
        } else {
            cur.push(v[i]);
            assert(texts(out@).push(cur@) =~= split_by(v@.take(i + 1), sep));
        }
        i = i + 1;
    }
    assert(v@.take(v@.len() as int) =~= s@);
    let ghost done = texts(out@).push(cur@);
    out.push(cur);
    assert(texts(out@) =~= done);
    out
}

/// The words of `s`: its pieces between whitespace that are not empty.
pub open spec fn words(s: Seq<char>) -> Seq<Seq<char>> {
    split_by(s, |x: char| is_space(x)).filter(|w: Seq<char>| w.len() > 0)
}

/// `str::split_whitespace`.
pub fn split_words(s: &str) -> (r: Vec<String>)
    ensures
        texts(r@) == words(s@),
{
    let ghost sep = |x: char| is_space(x);
    let ghost full = |w: Seq<char>| w.len() > 0;
    let v: Vec<char> = chars_of(s);
    let mut out: Vec<String> = Vec::new();
    let mut cur: String = String::new();
    let mut i: usize = 0;
    proof {
        reveal_with_fuel(split_by, 2);
        assert(split_by(v@.take(0), sep).drop_last() =~= Seq::<Seq<char>>::empty());
        assert(texts(out@) =~= Seq::<Seq<char>>::empty().filter(full)) by {
            reveal(Seq::filter);
        }
    }
    while i < v.len()
        invariant
            v@ == s@,
            i <= v@.len(),
            sep == (|x: char| is_space(x)),
            full == (|w: Seq<char>| w.len() > 0),
            split_by(v@.take(i as int), sep).len() > 0,
            cur@ == split_by(v@.take(i as int), sep).last(),
            texts(out@) == split_by(v@.take(i as int), sep).drop_last().filter(full),
        decreases v@.len() - i,
    {
        assert(v@.take(i + 1).drop_last() =~= v@.take(i as int));
        let ghost before = split_by(v@.take(i as int), sep);
        let ghost after = split_by(v@.take(i + 1), sep);
        if is_whitespace(v[i]) {
            assert(after.drop_last() =~= before);
            proof {
                lemma_filter_last(before, full);
            }
            if cur.as_str().unicode_len() > 0 {
                let ghost had = texts(out@);
                let ghost word = cur@;
                out.push(cur);
                assert(texts(out@) =~= had.push(word));
            }
            cur = String::new();
        } else {
            cur.push(v[i]);
            assert(after.drop_last() =~= before.drop_last());
        }
        i = i + 1;
    }
    assert(v@.take(v@.len() as int) =~= s@);
    proof {
        lemma_filter_last(split_by(s@, sep), full);
    }
    if cur.as_str().unicode_len() > 0 {
        let ghost had = texts(out@);
        let ghost word = cur@;
        out.push(cur);
        assert(texts(out@) =~= had.push(word));
    }
    out
}

/// Filtering one element at a time, from the left.
pub proof fn lemma_filter_last<A>(s: Seq<A>, pred: spec_fn(A) -> bool)
    requires
        s.len() > 0,
    ensures
        s.filter(pred) == if pred(s.last()) {
            s.drop_last().filter(pred).push(s.last())
        } else {
            s.drop_last().filter(pred)
        },
{
    reveal(Seq::filter);
}

/// `l` without one trailing carriage return.
pub open spec fn strip_cr(l: Seq<char>) -> Seq<char> {
    if l.len() > 0 && l.last() == '\r' {
        l.drop_last()
    } else {
        l
    }
}

/// The lines of `s`: each ends at a line feed or at a carriage return and a
/// line feed; what follows the last line feed is a line unless it is empty.
pub open spec fn lines_of(s: Seq<char>) -> Seq<Seq<char>> {
    let parts = split_at_char(s, '\n');
    let ended = parts.drop_last().map_values(|l: Seq<char>| strip_cr(l));
    if parts.last().len() == 0 {
        ended
    } else {
        ended.push(parts.last())
    }
}

/// `str::lines`.
pub fn split_lines(s: &str) -> (r: Vec<String>)
    ensures
        texts(r@) == lines_of(s@),
{
    let mut parts: Vec<String> = split_char(s, '\n');
    let ghost all = texts(parts@);
    let n: usize = parts.len();
    let mut out: Vec<String> = Vec::new();
    let mut i: usize = 0;
    let ghost strip = |l: Seq<char>| strip_cr(l);
    assert(texts(out@) =~= all.take(0).map_values(strip));
    while i + 1 < n
        invariant
            n == parts@.len(),
            n > 0,
            i <= n - 1,
            all == texts(parts@),
            strip == (|l: Seq<char>| strip_cr(l)),
            texts(out@) == all.take(i as int).map_values(strip),
        decreases n - i,
    {
        let ghost had = texts(out@);
        let l: Vec<char> = chars_of(parts[i].as_str());
        let m: usize = l.len();
        let line: String = if m > 0 && l[m - 1] == '\r' {
            string_of(&l, 0, m - 1)
        } else {
            parts[i].clone()
        };
        assert(l@.drop_last() =~= l@.subrange(0, m - 1));
        assert(line@ == strip_cr(all[i as int]));
        out.push(line);
        i = i + 1;
        assert(texts(out@) =~= all.take(i as int).map_values(strip)) by {
            assert(texts(out@) =~= had.push(line@));
        }
    }
    assert(all.take(n - 1) =~= all.drop_last());
    let last: String = parts[n - 1].clone();
    if last.as_str().unicode_len() > 0 {
        let ghost had = texts(out@);
        out.push(last);
        assert(texts(out@) =~= had.push(last@));
    }
    out
}

/// `parts` with `sep` between each two of them.
pub open spec fn joined(parts: Seq<Seq<char>>, sep: Seq<char>) -> Seq<char>
    decreases parts.len(),
{
    if parts.len() == 0 {
        Seq::empty()
    } else if parts.len() == 1 {
        parts[0]
    } else {
        joined(parts.drop_last(), sep) + sep + parts.last()
    }
}

/// `[String]::join`.
pub fn join(parts: &Vec<String>, sep: &str) -> (r: String)
    ensures
        r@ == joined(texts(parts@), sep@),
{
    let mut out: String = String::new();
    let mut i: usize = 0;
    while i < parts.len()
        invariant
            i <= parts@.len(),
            out@ == joined(texts(parts@).take(i as int), sep@),
        decreases parts@.len() - i,
    {
        let ghost done = texts(parts@).take(i + 1);
        assert(done.drop_last() =~= texts(parts@).take(i as int));
        if i > 0 {
            out.append(sep);
        }
        out.append(parts[i].as_str());
        assert(out@ =~= joined(done, sep@));
        i = i + 1;
    }
    assert(texts(parts@).take(parts@.len() as int) =~= texts(parts@));
    out
}

/// A copy of a list of strings.
pub fn copy_texts(v: &Vec<String>) -> (r: Vec<String>)
    ensures
        texts(r@) == texts(v@),
{
    let mut out: Vec<String> = Vec::new();
    let mut i: usize = 0;
    while i < v.len()
        invariant
            i <= v@.len(),
            texts(out@) == texts(v@).take(i as int),
        decreases v@.len() - i,
    {
        let ghost had = texts(out@);
        out.push(v[i].clone());
        assert(texts(out@) =~= had.push(texts(v@)[i as int]));
        i = i + 1;
        assert(texts(out@) =~= texts(v@).take(i as int));
    }
    assert(texts(v@).take(v@.len() as int) =~= texts(v@));
    out
}

/// A copy of an optional string.
pub fn copy_opt(o: &Option<String>) -> (r: Option<String>)
    ensures
        opt_text(r) == opt_text(*o),
{
    match o {
        Some(t) => Some(t.clone()),
        None => None,
    }
}

/// A text, or another where there is none.
pub open spec fn or_text(o: Option<Seq<char>>, other: Seq<char>) -> Seq<char> {
    match o {
        Some(t) => t,
        None => other,
    }
}

/// A text, or another where there is none.
pub fn text_or(o: Option<String>, other: &str) -> (r: String)
    ensures
        r@ == or_text(opt_text(o), other@),
{
    match o {
        Some(t) => t,
        None => other.to_owned(),
    }
}

/// A character with `A` to `Z` in lower case.
pub open spec fn lowered_char(c: char) -> char {
    if 'A' <= c && c <= 'Z' {
        ((c as u8) + 32) as char
    } else {
        c
    }
}

/// A text with `A` to `Z` in lower case.
pub open spec fn lowered(s: Seq<char>) -> Seq<char> {
    s.map_values(|c: char| lowered_char(c))
}

/// `str::to_ascii_lowercase`.
pub fn lower(s: &str) -> (r: String)
    ensures
        r@ == lowered(s@),
{
    let n: usize = s.unicode_len();
    let mut out: String = String::new();
    let mut i: usize = 0;
    assert(out@ =~= lowered(s@).take(0));
    while i < n
        invariant
            i <= n,
            n == s@.len(),
            out@ == lowered(s@).take(i as int),
        decreases n - i,
    {
        let c: char = s.get_char(i);
        let d: char = if 'A' <= c && c <= 'Z' {
            ((c as u8) + 32) as char
        } else {
            c
        };
        out.push(d);
        i = i + 1;
        assert(out@ =~= lowered(s@).take(i as int));
    }
    assert(out@ =~= lowered(s@));
    out
}

/// No piece holds the character at which a text was split.
pub proof fn lemma_pieces_hold_no_separator(s: Seq<char>, c: char)
    ensures
        forall|i: int, j: int|
            0 <= i < split_at_char(s, c).len() && 0 <= j < split_at_char(s, c)[i].len()
                ==> #[trigger] split_at_char(s, c)[i][j] != c,
    decreases s.len(),
{
    let sep = equals_char(c);
    if s.len() > 0 {
        lemma_pieces_hold_no_separator(s.drop_last(), c);
        lemma_split_by_len(s.drop_last(), sep);
        let before = split_at_char(s.drop_last(), c);
        let now = split_at_char(s, c);
        assert forall|i: int, j: int| 0 <= i < now.len() && 0 <= j < now[i].len() implies #[trigger] now[i][j]
            != c by {
            if i < now.len() - 1 {
                assert(now[i] == before[i]);
                assert(split_at_char(s.drop_last(), c)[i][j] != c);
            } else if !sep(s.last()) {
                let last = before[before.len() - 1];
                if j < last.len() {
                    assert(now[i][j] == last[j]);
                    assert(split_at_char(s.drop_last(), c)[before.len() - 1][j] != c);
                }
            }
        }
    }
}

/// What trimming leaves is a stretch of the text.
pub proof fn lemma_trimmed_is_inside(s: Seq<char>, c: char)
    requires
        forall|i: int| 0 <= i < s.len() ==> #[trigger] s[i] != c,
    ensures
        forall|i: int| 0 <= i < trimmed(s).len() ==> #[trigger] trimmed(s)[i] != c,
{
    lemma_trimmed_start_is_inside(s, c);
    lemma_trimmed_end_is_inside(trimmed_start(s), c);
}

proof fn lemma_trimmed_start_is_inside(s: Seq<char>, c: char)
    requires
        forall|i: int| 0 <= i < s.len() ==> #[trigger] s[i] != c,
    ensures
        forall|i: int| 0 <= i < trimmed_start(s).len() ==> #[trigger] trimmed_start(s)[i] != c,
    decreases s.len(),
{
    if s.len() > 0 && is_space(s[0]) {
        assert forall|i: int| 0 <= i < s.skip(1).len() implies #[trigger] s.skip(1)[i] != c by {
            assert(s[i + 1] != c);
        }
        lemma_trimmed_start_is_inside(s.skip(1), c);
        assert(trimmed_start(s) == trimmed_start(s.skip(1)));
    }
}

proof fn lemma_trimmed_end_is_inside(s: Seq<char>, c: char)
    requires
        forall|i: int| 0 <= i < s.len() ==> #[trigger] s[i] != c,
    ensures
        forall|i: int| 0 <= i < trimmed_end(s).len() ==> #[trigger] trimmed_end(s)[i] != c,
    decreases s.len(),
{
    if s.len() > 0 && is_space(s.last()) {
        lemma_trimmed_end_is_inside(s.drop_last(), c);
        assert(trimmed_end(s) == trimmed_end(s.drop_last()));
    }
}

/// Splitting two texts with a separator between them gives the pieces of both.
pub proof fn lemma_split_append(a: Seq<char>, b: Seq<char>, c: char)
    ensures
        split_at_char(a + seq![c] + b, c) == split_at_char(a, c) + split_at_char(b, c),
    decreases b.len(),
{
    let sep = equals_char(c);
    let s = a + seq![c] + b;
    lemma_split_by_len(a, sep);
    if b.len() == 0 {
        assert(s.drop_last() =~= a);
        assert(split_at_char(s, c) =~= split_at_char(a, c) + split_at_char(b, c));
    } else {
        let init = b.drop_last();
        lemma_split_append(a, init, c);
        lemma_split_by_len(init, sep);
        assert(s.drop_last() =~= a + seq![c] + init);
        assert(s.last() == b.last());
        let before = split_at_char(a, c) + split_at_char(init, c);
        assert(before.drop_last() =~= split_at_char(a, c) + split_at_char(init, c).drop_last());
        assert(before.last() == split_at_char(init, c).last());
        assert(split_at_char(s, c) =~= split_at_char(a, c) + split_at_char(b, c));
    }
}

/// A text without the separator is its only piece.
pub proof fn lemma_split_plain(s: Seq<char>, c: char)
    requires
        forall|i: int| 0 <= i < s.len() ==> #[trigger] s[i] != c,
    ensures
        split_at_char(s, c) == seq![s],
    decreases s.len(),
{
    if s.len() > 0 {
        lemma_split_plain(s.drop_last(), c);
        assert(s.drop_last().push(s.last()) =~= s);
        assert(split_at_char(s, c) =~= seq![s]);
    } else {
        assert(s =~= Seq::<char>::empty());
    }
}

/// A filter that everything passes changes nothing.
pub proof fn lemma_filter_all<A>(s: Seq<A>, pred: spec_fn(A) -> bool)
    requires
        forall|i: int| 0 <= i < s.len() ==> pred(#[trigger] s[i]),
    ensures
        s.filter(pred) == s,
    decreases s.len(),
{
    reveal(Seq::filter);
    if s.len() > 0 {
        lemma_filter_all(s.drop_last(), pred);
        assert(pred(s[s.len() - 1]));
        assert(s.drop_last().push(s.last()) =~= s);
    }
}

/// Spaces, tabs and line breaks are whitespace; no visible ASCII character is.
pub proof fn law_whitespace(c: char, r: bool)
    requires
        call_ensures(is_whitespace, (c,), r),
    ensures
        c == ' ' || c == '\t' || c == '\n' || c == '\r' ==> r,
        0x21 <= c as u32 && c as u32 <= 0x7e ==> !r,
{
}

proof fn lemma_trimmed_start(s: Seq<char>) -> (k: int)
    ensures
        0 <= k <= s.len(),
        trimmed_start(s) == s.skip(k),
        forall|i: int| 0 <= i < k ==> is_space(#[trigger] s[i]),
        k < s.len() ==> !is_space(s[k]),
    decreases s.len(),
{
    if s.len() > 0 && is_space(s[0]) {
        let k = lemma_trimmed_start(s.skip(1));
        assert(s.skip(1).skip(k) =~= s.skip(k + 1));
        assert forall|i: int| 0 <= i < k + 1 implies is_space(#[trigger] s[i]) by {
            if i > 0 {
                assert(s.skip(1)[i - 1] == s[i]);
            }
        }
        k + 1
    } else {
        assert(s.skip(0) =~= s);
        0
    }
}

proof fn lemma_trimmed_end(s: Seq<char>) -> (k: int)
    ensures
        0 <= k <= s.len(),
        trimmed_end(s) == s.take(k),
        forall|i: int| k <= i < s.len() ==> is_space(#[trigger] s[i]),
        k > 0 ==> !is_space(s[k - 1]),
    decreases s.len(),
{
    if s.len() > 0 && is_space(s.last()) {
        let k = lemma_trimmed_end(s.drop_last());
        assert(s.drop_last().take(k) =~= s.take(k));
        assert forall|i: int| k <= i < s.len() implies is_space(#[trigger] s[i]) by {
            if i < s.len() - 1 {
                assert(s.drop_last()[i] == s[i]);
            }
        }
        k
    } else {
        assert(s.take(s.len() as int) =~= s);
        s.len() as int
    }
}

/// Trimming takes away whitespace at both ends, all of it, and nothing else.
pub proof fn law_trim(s: &str, r: String)
    requires
        call_ensures(trim, (s,), r),
    ensures
        exists|from: int, to: int|
            0 <= from <= to <= s@.len() && r@ == #[trigger] s@.subrange(from, to) && (forall|i: int|
                0 <= i < from || to <= i < s@.len() ==> is_space(#[trigger] s@[i])),
        r@.len() > 0 ==> !is_space(r@[0]) && !is_space(r@.last()),
{
    let from = lemma_trimmed_start(s@);
    let rest = trimmed_start(s@);
    let k = lemma_trimmed_end(rest);
    let to = from + k;
    assert(r@ =~= s@.subrange(from, to));
    assert forall|i: int| 0 <= i < from || to <= i < s@.len() implies is_space(#[trigger] s@[i]) by {
        if i >= to {
            assert(rest[i - from] == s@[i]);
        }
    }
    if k > 0 {
        assert(rest[k - 1] == s@[to - 1]);
        assert(rest[0] == s@[from]);
    }
}

/// A text without a line break is its only line, unless it is empty.
pub proof fn law_one_line(s: &str, r: Vec<String>)
    requires
        call_ensures(split_lines, (s,), r),
        forall|i: int| 0 <= i < s@.len() ==> #[trigger] s@[i] != '\n',
    ensures
        texts(r@) == if s@.len() == 0 {
            Seq::empty()
        } else {
            seq![s@]
        },
{
    lemma_split_plain(s@, '\n');
    assert(seq![s@].drop_last() =~= Seq::<Seq<char>>::empty());
    assert(texts(r@) =~= if s@.len() == 0 {
        Seq::empty()
    } else {
        seq![s@]
    });
}

/// What stands before the first line break is the first line, without the
/// carriage return before the break, and the lines behind it follow.
pub proof fn law_lines_follow(line: Seq<char>, rest: &str, s: &str, r: Vec<String>, t: Vec<String>)
    requires
        call_ensures(split_lines, (s,), r),
        call_ensures(split_lines, (rest,), t),
        forall|i: int| 0 <= i < line.len() ==> #[trigger] line[i] != '\n',
        s@ == line + seq!['\n'] + rest@,
    ensures
        texts(r@) == seq![
            if line.len() > 0 && line.last() == '\r' {
                line.drop_last()
            } else {
                line
            },
        ] + texts(t@),
{
    lemma_lines_follow(line, rest@);
}

pub proof fn lemma_lines_follow(line: Seq<char>, rest: Seq<char>)
    requires
        forall|i: int| 0 <= i < line.len() ==> #[trigger] line[i] != '\n',
    ensures
        lines_of(line + seq!['\n'] + rest) == seq![strip_cr(line)] + lines_of(rest),
{
    let s = line + seq!['\n'] + rest;
    lemma_split_plain(line, '\n');
    lemma_split_append(line, rest, '\n');
    let more = split_at_char(rest, '\n');
    lemma_split_by_len(rest, equals_char('\n'));
    let parts = split_at_char(s, '\n');
    assert(parts =~= seq![line] + more);
    assert(parts.drop_last() =~= seq![line] + more.drop_last());
    assert(parts.last() == more.last());
    assert(lines_of(s) =~= seq![strip_cr(line)] + lines_of(rest));
}

/// Joining puts the separator between each two parts and nowhere else.
pub proof fn law_join(parts: &Vec<String>, more: &Vec<String>, sep: &str, r: String, s: String)
    requires
        call_ensures(join, (parts, sep), r),
        call_ensures(join, (more, sep), s),
        more@.len() == parts@.len() + 1,
        more@.drop_last() == parts@,
    ensures
        parts@.len() == 0 ==> r@.len() == 0 && s@ == more@.last()@,
        parts@.len() > 0 ==> s@ == r@ + sep@ + more@.last()@,
{
    assert(texts(more@).drop_last() =~= texts(parts@));
    assert(texts(more@).last() == more@.last()@);
}

/// A text without the pattern is left as it is.
pub proof fn law_replace_nothing(s: &str, from: &str, to: &str, r: String)
    requires
        call_ensures(replace, (s, from, to), r),
        from@.len() > 0,
        forall|i: int|
            0 <= i && i + from@.len() <= s@.len() ==> #[trigger] s@.subrange(i, i + from@.len())
                != from@,
    ensures
        r@ == s@,
{
    lemma_replaced_free(s@, from@, to@, s@.len() as int);
    assert(s@.take(s@.len() as int) =~= s@);
    assert(s@.skip(s@.len() as int) =~= Seq::<char>::empty());
}

proof fn lemma_replaced_free(s: Seq<char>, from: Seq<char>, to: Seq<char>, k: int)
    requires
        from.len() > 0,
        0 <= k <= s.len(),
        forall|i: int|
            0 <= i < k && i + from.len() <= s.len() ==> #[trigger] s.subrange(i, i + from.len())
                != from,
    ensures
        replaced(s, from, to) == s.take(k) + replaced(s.skip(k), from, to),
    decreases k,
{
    if k == 0 {
        assert(s.skip(0) =~= s);
        assert(s.take(0) + replaced(s, from, to) =~= replaced(s, from, to));
    } else {
        let t = s.skip(1);
        if s.len() >= from.len() {
            assert(s.subrange(0, 0int + from.len()) =~= s.take(from.len() as int));
        }
        assert forall|i: int| 0 <= i < k - 1 && i + from.len() <= t.len() implies
            #[trigger] t.subrange(i, i + from.len()) != from by {
            assert(t.subrange(i, i + from.len()) =~= s.subrange(i + 1, i + 1 + from.len()));
        }
        lemma_replaced_free(t, from, to, k - 1);
        assert(t.skip(k - 1) =~= s.skip(k));
        assert(seq![s[0]] + t.take(k - 1) =~= s.take(k));
        if s.len() < from.len() {
            assert(s.take(k) + s.skip(k) =~= s);
        } else {
            assert(seq![s[0]] + (t.take(k - 1) + replaced(t.skip(k - 1), from, to))
                =~= s.take(k) + replaced(s.skip(k), from, to));
        }
    }
}

/// The first occurrence of a pattern is replaced, and so is what follows it.
pub proof fn law_replace_the_first(
    head: Seq<char>,
    rest: &str,
    s: &str,
    from: &str,
    to: &str,
    r: String,
    t: String,
)
    requires
        call_ensures(replace, (s, from, to), r),
        call_ensures(replace, (rest, from, to), t),
        from@.len() > 0,
        s@ == head + from@ + rest@,
        forall|i: int|
            0 <= i < head.len() ==> #[trigger] s@.subrange(i, i + from@.len()) != from@,
    ensures
        r@ == head + to@ + t@,
{
    let n = head.len() as int;
    lemma_replaced_free(s@, from@, to@, n);
    assert(s@.take(n) =~= head);
    assert(s@.skip(n) =~= from@ + rest@);
    assert((from@ + rest@).take(from@.len() as int) =~= from@);
    assert((from@ + rest@).skip(from@.len() as int) =~= rest@);
    assert(head + (to@ + t@) =~= head + to@ + t@);
}

/// Lower case changes the letters from A to Z and nothing else.
pub proof fn law_lower(s: &str, r: String, i: int)
    requires
        call_ensures(lower, (s,), r),
        0 <= i < s@.len(),
    ensures
        r@.len() == s@.len(),
        0x41 <= s@[i] as u32 && s@[i] as u32 <= 0x5a ==> r@[i] as u32 == s@[i] as u32 + 32,
        !(0x41 <= s@[i] as u32 && s@[i] as u32 <= 0x5a) ==> r@[i] == s@[i],
{
}

/// A text begins with what it is put together from, ends with it, and is
/// found in the whole.
pub proof fn law_parts_of_a_text(
    a: &str,
    b: &str,
    s: &str,
    begins: bool,
    ends: bool,
    rest: Option<String>,
    found: bool,
)
    requires
        call_ensures(starts_with, (s, a), begins),
        call_ensures(ends_with, (s, b), ends),
        call_ensures(strip_prefix, (s, a), rest),
        call_ensures(contains_str, (s, b), found),
        s@ == a@ + b@,
    ensures
        begins,
        ends,
        rest matches Some(t) && t@ == b@,
        found,
{
    assert(s@.take(a@.len() as int) =~= a@);
    assert(s@.skip(s@.len() - b@.len()) =~= b@);
    assert(s@.skip(a@.len() as int) =~= b@);
    lemma_find_from(s@, b@, 0);
    assert(s@.subrange(a@.len() as int, a@.len() as int + b@.len()) =~= b@);
    assert(occurs_at(s@, b@, a@.len() as int));
}

/// What begins a text, ends it or is found in it stands there.
pub proof fn law_found_parts(
    s: &str,
    p: &str,
    begins: bool,
    ends: bool,
    rest: Option<String>,
    found: bool,
    same: bool,
)
    requires
        call_ensures(starts_with, (s, p), begins),
        call_ensures(ends_with, (s, p), ends),
        call_ensures(strip_prefix, (s, p), rest),
        call_ensures(contains_str, (s, p), found),
        call_ensures(str_eq, (s, p), same),
    ensures
        same == (s@ == p@),
        begins ==> exists|t: Seq<char>| s@ == #[trigger] (p@ + t),
        ends ==> exists|t: Seq<char>| s@ == #[trigger] (t + p@),
        rest is Some == begins,
        rest matches Some(t) ==> s@ == p@ + t@,
        found ==> exists|i: int|
            0 <= i && i + p@.len() <= s@.len() && #[trigger] s@.subrange(i, i + p@.len()) == p@,
{
    if begins {
        assert(s@ =~= p@ + s@.skip(p@.len() as int));
    }
    if ends {
        assert(s@ =~= s@.take(s@.len() - p@.len()) + p@);
    }
    lemma_find_from(s@, p@, 0);
    if found {
        let i = find_from(s@, p@, 0).unwrap();
        assert(s@.subrange(i, i + p@.len()) == p@);
    }
}

proof fn lemma_split_by_append(a: Seq<char>, c: char, b: Seq<char>, sep: spec_fn(char) -> bool)
    requires
        sep(c),
    ensures
        split_by(a + seq![c] + b, sep) == split_by(a, sep) + split_by(b, sep),
    decreases b.len(),
{
    let s = a + seq![c] + b;
    lemma_split_by_len(a, sep);
    if b.len() == 0 {
        assert(s.drop_last() =~= a);
        assert(split_by(s, sep) =~= split_by(a, sep) + split_by(b, sep));
    } else {
        let init = b.drop_last();
        lemma_split_by_append(a, c, init, sep);
        lemma_split_by_len(init, sep);
        assert(s.drop_last() =~= a + seq![c] + init);
        let before = split_by(a, sep) + split_by(init, sep);
        assert(before.drop_last() =~= split_by(a, sep) + split_by(init, sep).drop_last());
        assert(before.last() == split_by(init, sep).last());
        assert(split_by(s, sep) =~= split_by(a, sep) + split_by(b, sep));
    }
}

proof fn lemma_split_by_plain(s: Seq<char>, sep: spec_fn(char) -> bool)
    requires
        forall|i: int| 0 <= i < s.len() ==> !sep(#[trigger] s[i]),
    ensures
        split_by(s, sep) == seq![s],
    decreases s.len(),
{
    if s.len() > 0 {
        lemma_split_by_plain(s.drop_last(), sep);
        assert(s.drop_last().push(s.last()) =~= s);
        assert(split_by(s, sep) =~= seq![s]);
    } else {
        assert(s =~= Seq::<char>::empty());
    }
}

/// What stands before the first whitespace is the first word, unless it is
/// empty, and the words behind it follow.
pub proof fn law_words_follow(word: Seq<char>, c: char, rest: &str, s: &str, r: Vec<String>, t: Vec<String>)
    requires
        call_ensures(split_words, (s,), r),
        call_ensures(split_words, (rest,), t),
        forall|i: int| 0 <= i < word.len() ==> !is_space(#[trigger] word[i]),
        is_space(c),
        s@ == word + seq![c] + rest@,
    ensures
        texts(r@) == if word.len() > 0 {
            seq![word] + texts(t@)
        } else {
            texts(t@)
        },
{
    let sep = |x: char| is_space(x);
    let full = |w: Seq<char>| w.len() > 0;
    lemma_split_by_plain(word, sep);
    lemma_split_by_append(word, c, rest@, sep);
    Seq::filter_distributes_over_add(seq![word], split_by(rest@, sep), full);
    reveal(Seq::filter);
    assert(seq![word].drop_last() =~= Seq::<Seq<char>>::empty());
    assert(seq![word].drop_last().filter(full) =~= Seq::<Seq<char>>::empty());
    assert(seq![word].filter(full) =~= if word.len() > 0 {
        seq![word]
    } else {
        Seq::empty()
    });
    assert(Seq::<Seq<char>>::empty() + texts(t@) =~= texts(t@));
}

/// A text without whitespace is its only word, unless it is empty.
pub proof fn law_one_word(s: &str, r: Vec<String>)
    requires
        call_ensures(split_words, (s,), r),
        forall|i: int| 0 <= i < s@.len() ==> !is_space(#[trigger] s@[i]),
    ensures
        texts(r@) == if s@.len() > 0 {
            seq![s@]
        } else {
            Seq::empty()
        },
{
    let sep = |x: char| is_space(x);
    let full = |w: Seq<char>| w.len() > 0;
    lemma_split_by_plain(s@, sep);
    reveal(Seq::filter);
    assert(seq![s@].drop_last() =~= Seq::<Seq<char>>::empty());
    assert(seq![s@].drop_last().filter(full) =~= Seq::<Seq<char>>::empty());
    assert(seq![s@].filter(full) =~= if s@.len() > 0 {
        seq![s@]
    } else {
        Seq::empty()
    });
}

/// A text put on one line has a space where it had a line break, and is
/// otherwise the same.
pub proof fn law_line_breaks_become_spaces(s: &str, r: String, i: int)
    requires
        call_ensures(on_one_line, (s,), r),
        0 <= i < s@.len(),
    ensures
        r@.len() == s@.len(),
        r@[i] == if s@[i] == '\n' {
            ' '
        } else {
            s@[i]
        },
{
}

/// A list holds a text exactly where one of its items is that text.
pub proof fn law_items_of_a_list(items: &Vec<String>, item: &str, r: bool, o: Option<String>, other: &str, t: String)
    requires
        call_ensures(contains_item, (items, item), r),
        call_ensures(text_or, (o, other), t),
    ensures
        r <==> exists|i: int| 0 <= i < items@.len() && (#[trigger] items@[i])@ == item@,
        o matches Some(x) ==> t@ == x@,
        o is None ==> t@ == other@,
{
    let all = texts(items@);
    assert forall|i: int| 0 <= i < items@.len() implies all[i] == (#[trigger] items@[i])@ by {}
    if r {
        let k = all.index_of(item@);
        assert(items@[k]@ == item@);
    }
    if exists|i: int| 0 <= i < items@.len() && (#[trigger] items@[i])@ == item@ {
        let i = choose|i: int| 0 <= i < items@.len() && (#[trigger] items@[i])@ == item@;
        assert(all[i] == item@);
    }
}

/// Splitting at a character: what holds none is one piece, and a piece, the
/// character and more text give the piece and the pieces of the rest.
pub proof fn law_split_texts(s: &str, rest: &str, c: char, piece: Seq<char>, r: Vec<String>, t: Vec<String>)
    requires
        call_ensures(split_char, (s, c), r),
        call_ensures(split_char, (rest, c), t),
        forall|i: int| 0 <= i < piece.len() ==> #[trigger] piece[i] != c,
    ensures
        s@ == piece ==> texts(r@) == seq![piece],
        s@ == piece + seq![c] + rest@ ==> texts(r@) == seq![piece] + texts(t@),
{
    lemma_split_plain(piece, c);
    lemma_split_append(piece, rest@, c);
}

} // verus!
