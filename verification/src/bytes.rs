//! Lengths of text in UTF-8 bytes, and cutting text at a byte position.
use vstd::prelude::*;
use vstd::utf8::{encode_scalar, encode_utf8};

use crate::text::{chars_of, string_of};

verus! {

broadcast use vstd::seq_lib::group_seq_properties;

/// How many bytes UTF-8 takes for one character.
pub open spec fn char_bytes(c: char) -> nat {
    let n = c as u32;
    if n < 0x80 {
        1
    } else if n < 0x800 {
        2
    } else if n < 0x10000 {
        3
    } else {
        4
    }
}

/// How many bytes UTF-8 takes for a text.
pub open spec fn text_bytes(s: Seq<char>) -> nat
    decreases s.len(),
{
    if s.len() == 0 {
        0
    } else {
        text_bytes(s.drop_last()) + char_bytes(s.last())
    }
}

pub proof fn lemma_text_bytes_concat(a: Seq<char>, b: Seq<char>)
    ensures
        text_bytes(a + b) == text_bytes(a) + text_bytes(b),
    decreases b.len(),
{
    if b.len() == 0 {
        assert(a + b =~= a);
    } else {
        lemma_text_bytes_concat(a, b.drop_last());
        assert((a + b).drop_last() =~= a + b.drop_last());
    }
}

proof fn lemma_encode_scalar_len(c: char)
    ensures
        encode_scalar(c as u32).len() == char_bytes(c),
{
}

#[verifier::spinoff_prover]
#[verifier::rlimit(40)]
proof fn lemma_encode_len(s: Seq<char>)
    ensures
        encode_utf8(s).len() == text_bytes(s),
    decreases s.len(),
{
    if s.len() > 0 {
        lemma_encode_len(s.drop_first());
        lemma_encode_scalar_len(s[0]);
        lemma_text_bytes_concat(seq![s[0]], s.drop_first());
        assert(seq![s[0]] + s.drop_first() =~= s);
        assert(seq![s[0]].drop_last() =~= Seq::<char>::empty());
        assert(text_bytes(Seq::<char>::empty()) == 0);
        assert(text_bytes(seq![s[0]]) == char_bytes(s[0]));
    }
}

/// `str::len`.
pub fn byte_len(s: &str) -> (n: usize)
    ensures
        n == text_bytes(s@),
{
    proof {
        lemma_encode_len(s@);
    }
    s.as_bytes().len()
}

/// Whether a text can be cut after `n` bytes without splitting a character.
pub open spec fn cuts_at(s: Seq<char>, n: int) -> bool {
    exists|k: int| 0 <= k <= s.len() && #[trigger] text_bytes(s.take(k)) == n
}

/// How many characters the first `n` bytes of a text hold.
pub open spec fn chars_within(s: Seq<char>, n: int) -> int
    recommends
        cuts_at(s, n),
{
    choose|k: int| 0 <= k <= s.len() && #[trigger] text_bytes(s.take(k)) == n
}

/// How many characters of a text fit in `n` bytes.
pub open spec fn chars_fitting(s: Seq<char>, n: int) -> int
    decreases s.len(),
{
    if s.len() == 0 || text_bytes(s) <= n {
        s.len() as int
    } else {
        chars_fitting(s.drop_last(), n)
    }
}

/// The longest beginning of a text that fits in `n` bytes.
pub open spec fn byte_prefix(s: Seq<char>, n: int) -> Seq<char> {
    s.take(chars_fitting(s, n))
}

proof fn lemma_text_bytes_strict(s: Seq<char>, i: int, j: int)
    requires
        0 <= i < j <= s.len(),
    ensures
        text_bytes(s.take(i)) < text_bytes(s.take(j)),
    decreases j - i,
{
    assert(s.take(j).drop_last() =~= s.take(j - 1));
    if i < j - 1 {
        lemma_text_bytes_strict(s, i, j - 1);
    }
}

/// At most one prefix of a text takes `n` bytes.
pub proof fn lemma_cut_unique(s: Seq<char>, k: int)
    requires
        0 <= k <= s.len(),
    ensures
        cuts_at(s, text_bytes(s.take(k)) as int),
        chars_within(s, text_bytes(s.take(k)) as int) == k,
{
    let n = text_bytes(s.take(k)) as int;
    let m = chars_within(s, n);
    if m < k {
        lemma_text_bytes_strict(s, m, k);
    } else if k < m {
        lemma_text_bytes_strict(s, k, m);
    }
}

/// What is cut at `n` bytes fits in them, and the next character would not.
pub proof fn lemma_chars_fitting(s: Seq<char>, n: int)
    requires
        0 <= n,
    ensures
        0 <= chars_fitting(s, n) <= s.len(),
        text_bytes(byte_prefix(s, n)) <= n,
        chars_fitting(s, n) < s.len() ==> text_bytes(s.take(chars_fitting(s, n) + 1)) > n,
    decreases s.len(),
{
    if s.len() == 0 || text_bytes(s) <= n {
        assert(s.take(s.len() as int) =~= s);
    } else {
        let k = chars_fitting(s, n);
        lemma_chars_fitting(s.drop_last(), n);
        assert(s.drop_last().take(k) =~= s.take(k));
        if k < s.len() - 1 {
            assert(s.drop_last().take(k + 1) =~= s.take(k + 1));
        } else {
            assert(s.take(k + 1) =~= s);
        }
    }
}

/// The longest beginning of a text that fits in `n` bytes.
pub fn cut_to(s: &str, n: usize) -> (r: String)
    ensures
        r@ == byte_prefix(s@, n as int),
        text_bytes(r@) <= n,
{
    let v: Vec<char> = chars_of(s);
    let mut i: usize = 0;
    let mut used: usize = 0;
    assert(v@.take(0) =~= Seq::<char>::empty());
    proof {
        lemma_chars_fitting(s@, n as int);
    }
    while i < v.len()
        invariant
            v@ == s@,
            i <= v@.len(),
            used == text_bytes(v@.take(i as int)),
            used <= n,
        ensures
            i < v@.len() ==> text_bytes(v@.take(i + 1)) > n,
        decreases v@.len() - i,
    {
        let w: usize = width_of(v[i]);
        assert(v@.take(i + 1).drop_last() =~= v@.take(i as int));
        if w > n - used {
            break;
        }
        used = used + w;
        i = i + 1;
    }
    proof {
        let k = chars_fitting(s@, n as int);
        if k < i {
            if k + 1 < i {
                lemma_text_bytes_strict(s@, k + 1, i as int);
            }
        } else if i < k {
            if i + 1 < k {
                lemma_text_bytes_strict(s@, i + 1, k);
            }
        }
        assert(v@.subrange(0, i as int) =~= s@.take(i as int));
    }
    string_of(&v, 0, i)
}

/// The text between two byte positions, where it can be cut at both.
pub open spec fn byte_slice(s: Seq<char>, from: int, to: int) -> Option<Seq<char>> {
    if from <= to && cuts_at(s, from) && cuts_at(s, to) {
        Some(s.subrange(chars_within(s, from), chars_within(s, to)))
    } else {
        None
    }
}

/// How many characters the first `n` bytes hold, where the text can be cut
/// there.
fn chars_before(v: &Vec<char>, n: usize) -> (r: Option<usize>)
    ensures
        match r {
            Some(k) => cuts_at(v@, n as int) && chars_within(v@, n as int) == k && k <= v@.len(),
            None => !cuts_at(v@, n as int),
        },
{
    let mut i: usize = 0;
    let mut used: usize = 0;
    assert(v@.take(0) =~= Seq::<char>::empty());
    while i < v.len() && used < n
        invariant
            i <= v@.len(),
            used <= n,
            used == text_bytes(v@.take(i as int)),
            forall|k: int| 0 <= k < i ==> text_bytes(#[trigger] v@.take(k)) < n,
        decreases v@.len() - i,
    {
        let w: usize = width_of(v[i]);
        assert(v@.take(i + 1).drop_last() =~= v@.take(i as int));
        i = i + 1;
        if w > n - used {
            proof {
                assert forall|k: int| 0 <= k <= v@.len() implies #[trigger] text_bytes(v@.take(k))
                    != n by {
                    if k > i {
                        lemma_text_bytes_strict(v@, i as int, k);
                    }
                }
            }
            return None;
        }
        used = used + w;
    }
    if used == n {
        proof {
            lemma_cut_unique(v@, i as int);
        }
        Some(i)
    } else {
        proof {
            assert forall|k: int| 0 <= k <= v@.len() implies #[trigger] text_bytes(v@.take(k))
                != n by {
                if k < i {
                    assert(text_bytes(v@.take(k)) < n);
                } else {
                    assert(k == i);
                }
            }
        }
        None
    }
}

fn width_of(c: char) -> (w: usize)
    ensures
        w == char_bytes(c),
{
    let n: u32 = c as u32;
    if n < 0x80 {
        1
    } else if n < 0x800 {
        2
    } else if n < 0x10000 {
        3
    } else {
        4
    }
}

/// `str::get(from..to)`.
pub fn get_range(s: &str, from: usize, to: usize) -> (r: Option<String>)
    ensures
        crate::text::opt_text(r) == byte_slice(s@, from as int, to as int),
{
    if from > to {
        return None;
    }
    let v: Vec<char> = chars_of(s);
    match (chars_before(&v, from), chars_before(&v, to)) {
        (Some(a), Some(b)) => {
            proof {
                if b < a {
                    lemma_text_bytes_strict(s@, b as int, a as int);
                }
                lemma_chars_within(s@, from as int);
                lemma_chars_within(s@, to as int);
            }
            Some(string_of(&v, a, b))
        },
        _ => None,
    }
}

proof fn lemma_chars_within(s: Seq<char>, n: int)
    requires
        cuts_at(s, n),
    ensures
        0 <= chars_within(s, n) <= s.len(),
        text_bytes(s.take(chars_within(s, n))) == n,
{
}

/// Whether `r` is the longest beginning of a text that fits in `n` bytes.
pub open spec fn is_longest_within(r: Seq<char>, s: Seq<char>, n: int) -> bool {
    exists|m: int|
        0 <= m <= s.len() && r == #[trigger] s.take(m) && text_bytes(r) <= n && (m < s.len()
            ==> text_bytes(s.take(m + 1)) > n)
}

/// What fits in a number of bytes: the longest beginning that does.
pub proof fn lemma_byte_prefix(s: Seq<char>, n: int)
    requires
        0 <= n,
    ensures
        is_longest_within(byte_prefix(s, n), s, n),
        text_bytes(s) <= n ==> byte_prefix(s, n) == s,
{
    lemma_chars_fitting(s, n);
    if text_bytes(s) <= n {
        assert(s.take(s.len() as int) =~= s);
    }
}

/// The length of a text is that of its UTF-8 form.
pub proof fn law_byte_length(s: &str, n: usize)
    requires
        call_ensures(byte_len, (s,), n),
    ensures
        n == encode_utf8(s@).len(),
{
    lemma_encode_len(s@);
}

/// Cutting a text to a number of bytes gives the longest beginning that fits.
pub proof fn law_cut_texts(s: &str, n: usize, r: String)
    requires
        call_ensures(cut_to, (s, n), r),
    ensures
        is_longest_within(r@, s@, n as int),
        encode_utf8(r@).len() <= n,
        encode_utf8(s@).len() <= n ==> r@ == s@,
{
    lemma_byte_prefix(s@, n as int);
    lemma_encode_len(r@);
    lemma_encode_len(s@);
}

/// Only one beginning is the longest that fits.
pub proof fn lemma_one_longest(a: Seq<char>, b: Seq<char>, s: Seq<char>, n: int)
    requires
        is_longest_within(a, s, n),
        is_longest_within(b, s, n),
    ensures
        a == b,
{
    let i = choose|m: int|
        0 <= m <= s.len() && a == #[trigger] s.take(m) && text_bytes(a) <= n && (m < s.len()
            ==> text_bytes(s.take(m + 1)) > n);
    let j = choose|m: int|
        0 <= m <= s.len() && b == #[trigger] s.take(m) && text_bytes(b) <= n && (m < s.len()
            ==> text_bytes(s.take(m + 1)) > n);
    if i < j {
        if i + 1 < j {
            lemma_text_bytes_strict(s, i + 1, j);
        }
    } else if j < i {
        if j + 1 < i {
            lemma_text_bytes_strict(s, j + 1, i);
        }
    }
}

/// A part of a text between two byte positions is there exactly where both fall
/// between characters, and is the characters between them.
pub proof fn law_byte_ranges(s: &str, from: usize, to: usize, r: Option<String>, a: int, b: int)
    requires
        call_ensures(get_range, (s, from, to), r),
        0 <= a <= b <= s@.len(),
    ensures
        text_bytes(s@.take(a)) == from && text_bytes(s@.take(b)) == to ==> r is Some
            && r->Some_0@ == s@.subrange(a, b),
        r matches Some(t) ==> from <= to && encode_utf8(t@).len() == to - from,
        from > to ==> r is None,
{
    if text_bytes(s@.take(a)) == from && text_bytes(s@.take(b)) == to {
        lemma_cut_unique(s@, a);
        lemma_cut_unique(s@, b);
        if a < b {
            lemma_text_bytes_strict(s@, a, b);
        }
    }
    if r is Some {
        let x = chars_within(s@, from as int);
        let y = chars_within(s@, to as int);
        lemma_chars_within(s@, from as int);
        lemma_chars_within(s@, to as int);
        if y < x {
            lemma_text_bytes_strict(s@, y, x);
        }
        let t = s@.subrange(x, y);
        assert(s@.take(y) =~= s@.take(x) + t);
        lemma_text_bytes_concat(s@.take(x), t);
        lemma_encode_len(t);
    }
}

} // verus!
