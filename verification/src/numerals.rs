//! Decimal numerals: writing integers, padding them, and reading them back.
use vstd::prelude::*;

use crate::text::{chars_of, lemma_filter_all, lemma_filter_last};

verus! {

broadcast use vstd::seq_lib::group_seq_properties;

/// The character for a digit below ten.
pub open spec fn digit_char(d: nat) -> char {
    (48 + d) as char
}

/// The decimal numeral of a natural number, without leading zeros.
pub open spec fn decimal_nat(n: nat) -> Seq<char>
    decreases n,
{
    if n < 10 {
        seq![digit_char(n)]
    } else {
        decimal_nat(n / 10).push(digit_char(n % 10))
    }
}

/// The decimal numeral of an integer.
pub open spec fn decimal(n: int) -> Seq<char> {
    if n < 0 {
        seq!['-'] + decimal_nat((-n) as nat)
    } else {
        decimal_nat(n as nat)
    }
}

/// `n` spaces.
pub open spec fn spaces(n: nat) -> Seq<char> {
    Seq::new(n, |i: int| ' ')
}

/// `s` padded with spaces on the left to at least `width` characters.
pub open spec fn pad_left(s: Seq<char>, width: nat) -> Seq<char> {
    if s.len() < width {
        spaces((width - s.len()) as nat) + s
    } else {
        s
    }
}

/// `s` repeated `n` times.
pub open spec fn repeated(s: Seq<char>, n: nat) -> Seq<char>
    decreases n,
{
    if n == 0 {
        Seq::empty()
    } else {
        repeated(s, (n - 1) as nat) + s
    }
}

fn digit(d: u64) -> (c: char)
    requires
        d < 10,
    ensures
        c == digit_char(d as nat),
{
    let b: u8 = 48 + d as u8;
    b as char
}

/// The numeral of an unsigned number.
pub fn u64_text(n: u64) -> (s: String)
    ensures
        s@ == decimal_nat(n as nat),
    decreases n,
{
    if n < 10 {
        let mut s: String = String::new();
        s.push(digit(n));
        assert(s@ =~= seq![digit_char(n as nat)]);
        s
    } else {
        let mut s: String = u64_text(n / 10);
        s.push(digit(n % 10));
        s
    }
}

pub fn usize_text(n: usize) -> (s: String)
    ensures
        s@ == decimal_nat(n as nat),
{
    u64_text(n as u64)
}

/// The numeral of a natural number with a comma before each group of three
/// digits.
pub open spec fn grouped(n: nat) -> Seq<char>
    decreases n,
{
    if n < 1000 {
        decimal_nat(n)
    } else {
        grouped(n / 1000) + seq![
            ',',
            digit_char(n / 100 % 10),
            digit_char(n / 10 % 10),
            digit_char(n % 10),
        ]
    }
}

/// The numeral with a comma before each group of three digits.
pub fn grouped_text(n: u64) -> (s: String)
    ensures
        s@ == grouped(n as nat),
    decreases n,
{
    if n < 1000 {
        u64_text(n)
    } else {
        let mut s: String = grouped_text(n / 1000);
        let ghost had = s@;
        s.push(',');
        s.push(digit(n / 100 % 10));
        s.push(digit(n / 10 % 10));
        s.push(digit(n % 10));
        assert(s@ =~= grouped(n as nat));
        s
    }
}

/// The numeral of a signed number.
pub fn i64_text(n: i64) -> (s: String)
    ensures
        s@ == decimal(n as int),
{
    if n < 0 {
        let m: u64 = if n == i64::MIN {
            9223372036854775808
        } else {
            (-n) as u64
        };
        let mut s: String = String::new();
        s.push('-');
        assert(s@ =~= seq!['-']);
        let t: String = u64_text(m);
        s.append(t.as_str());
        s
    } else {
        u64_text(n as u64)
    }
}

/// `{:>width$}`.
pub fn padded(s: &str, width: usize) -> (r: String)
    ensures
        r@ == pad_left(s@, width as nat),
{
    let n: usize = s.unicode_len();
    let mut out: String = String::new();
    let mut i: usize = n;
    while i < width
        invariant
            n == s@.len(),
            n <= i,
            n < width ==> i <= width,
            n >= width ==> i == n,
            out@ == spaces((i - n) as nat),
        decreases width - i,
    {
        out.push(' ');
        i = i + 1;
        assert(out@ =~= spaces((i - n) as nat));
    }
    proof {
        if n >= width {
            assert(out@ =~= Seq::<char>::empty());
            assert(out@ + s@ =~= s@);
        } else {
            assert(i == width);
        }
    }
    out.append(s);
    out
}

/// `str::repeat`.
pub fn repeat(s: &str, n: usize) -> (r: String)
    ensures
        r@ == repeated(s@, n as nat),
{
    let mut out: String = String::new();
    let mut i: usize = 0;
    while i < n
        invariant
            i <= n,
            out@ == repeated(s@, i as nat),
        decreases n - i,
    {
        out.append(s);
        i = i + 1;
    }
    out
}

/// Whether `c` is one of the ten ASCII digits.
pub open spec fn is_digit(c: char) -> bool {
    '0' <= c && c <= '9'
}

/// The number that a string of digits denotes.
pub open spec fn digits_value(s: Seq<char>) -> nat
    decreases s.len(),
{
    if s.len() == 0 {
        0
    } else {
        digits_value(s.drop_last()) * 10 + (s.last() as nat - 48) as nat
    }
}

/// Whether `s` is made of digits, at least one.
pub open spec fn all_digits(s: Seq<char>) -> bool {
    s.len() > 0 && forall|i: int| 0 <= i < s.len() ==> is_digit(#[trigger] s[i])
}

/// The number in the range of `i64` that `s` denotes: digits after an
/// optional sign.
pub open spec fn parsed_i64(s: Seq<char>) -> Option<int> {
    let signed = s.len() > 0 && (s[0] == '+' || s[0] == '-');
    let body = if signed {
        s.skip(1)
    } else {
        s
    };
    let value = if signed && s[0] == '-' {
        -(digits_value(body) as int)
    } else {
        digits_value(body) as int
    };
    if all_digits(body) && i64::MIN <= value <= i64::MAX {
        Some(value)
    } else {
        None
    }
}

/// The number in the range of `u32` that `s` denotes: digits after an optional
/// plus sign.
pub open spec fn parsed_u32(s: Seq<char>) -> Option<int> {
    let body = if s.len() > 0 && s[0] == '+' {
        s.skip(1)
    } else {
        s
    };
    if all_digits(body) && digits_value(body) <= u32::MAX {
        Some(digits_value(body) as int)
    } else {
        None
    }
}

proof fn lemma_digits_value_grows(s: Seq<char>, k: int)
    requires
        0 <= k <= s.len(),
    ensures
        digits_value(s.take(k)) <= digits_value(s),
    decreases s.len() - k,
{
    if k < s.len() {
        lemma_digits_value_grows(s, k + 1);
        assert(s.take(k + 1).drop_last() =~= s.take(k));
    } else {
        assert(s.take(k) =~= s);
    }
}

/// The digits of `v` from `from` on as a number no larger than `limit`.
fn read_digits(v: &Vec<char>, from: usize, limit: u64) -> (r: Option<u64>)
    requires
        from <= v@.len(),
    ensures
        match r {
            Some(n) => all_digits(v@.skip(from as int)) && n == digits_value(v@.skip(from as int)) && n
                <= limit,
            None => !all_digits(v@.skip(from as int)) || digits_value(v@.skip(from as int)) > limit,
        },
{
    let ghost body = v@.skip(from as int);
    if from == v.len() {
        return None;
    }
    let mut n: u64 = 0;
    let mut i: usize = from;
    assert(body.take(0) =~= Seq::<char>::empty());
    while i < v.len()
        invariant
            from <= i <= v@.len(),
            from < v@.len(),
            body == v@.skip(from as int),
            forall|j: int| 0 <= j < i - from ==> is_digit(#[trigger] body[j]),
            n == digits_value(body.take(i - from)),
            n <= limit,
        decreases v@.len() - i,
    {
        let c: char = v[i];
        assert(c == body[i - from]);
        if !('0' <= c && c <= '9') {
            return None;
        }
        assert(body.take(i - from + 1).drop_last() =~= body.take(i - from));
        let d: u64 = (c as u32 - 48) as u64;
        proof {
            lemma_digits_value_grows(body, i - from + 1);
        }
        if n > limit / 10 || d > limit - n * 10 {
            return None;
        }
        n = n * 10 + d;
        i = i + 1;
    }
    assert(body.take(body.len() as int) =~= body);
    Some(n)
}

/// `str::parse::<i64>`.
pub fn parse_i64(s: &str) -> (r: Option<i64>)
    ensures
        match r {
            Some(n) => parsed_i64(s@) == Some(n as int),
            None => parsed_i64(s@) is None,
        },
{
    let v: Vec<char> = chars_of(s);
    if v.len() > 0 && v[0] == '-' {
        match read_digits(&v, 1, 9223372036854775808) {
            Some(n) => {
                if n == 9223372036854775808 {
                    Some(i64::MIN)
                } else {
                    Some(-(n as i64))
                }
            },
            None => None,
        }
    } else if v.len() > 0 && v[0] == '+' {
        match read_digits(&v, 1, 9223372036854775807) {
            Some(n) => Some(n as i64),
            None => None,
        }
    } else {
        assert(v@.skip(0) =~= v@);
        match read_digits(&v, 0, 9223372036854775807) {
            Some(n) => Some(n as i64),
            None => None,
        }
    }
}

/// A string of digits, without a sign, as a number in the range of `u64`.
pub fn parse_digits(s: &str) -> (r: Option<u64>)
    ensures
        match r {
            Some(n) => all_digits(s@) && digits_value(s@) == n,
            None => !all_digits(s@) || digits_value(s@) > u64::MAX,
        },
{
    let v: Vec<char> = chars_of(s);
    assert(v@.skip(0) =~= v@);
    read_digits(&v, 0, u64::MAX)
}

/// `str::parse::<u32>`.
pub fn parse_u32(s: &str) -> (r: Option<u32>)
    ensures
        match r {
            Some(n) => parsed_u32(s@) == Some(n as int),
            None => parsed_u32(s@) is None,
        },
{
    let v: Vec<char> = chars_of(s);
    let from: usize = if v.len() > 0 && v[0] == '+' {
        1
    } else {
        0
    };
    assert(v@.skip(0) =~= v@);
    match read_digits(&v, from, u32::MAX as u64) {
        Some(n) => Some(n as u32),
        None => None,
    }
}

/// The numeral of a natural number is made of digits and denotes it.
pub proof fn lemma_decimal_nat_value(n: nat)
    ensures
        all_digits(decimal_nat(n)),
        digits_value(decimal_nat(n)) == n,
    decreases n,
{
    if n < 10 {
        assert(decimal_nat(n).drop_last() =~= Seq::<char>::empty());
        assert(digits_value(Seq::<char>::empty()) == 0);
        assert(decimal_nat(n).last() as nat == 48 + n);
    } else {
        lemma_decimal_nat_value(n / 10);
        let s = decimal_nat(n);
        assert(s.drop_last() =~= decimal_nat(n / 10));
        assert(s.last() as nat == 48 + n % 10);
        assert forall|i: int| 0 <= i < s.len() implies is_digit(#[trigger] s[i]) by {
            if i < s.len() - 1 {
                assert(s[i] == decimal_nat(n / 10)[i]);
            }
        }
    }
}

/// Reading back the numeral of a number in range gives the number.
pub proof fn law_decimal_round_trip(n: int)
    requires
        i64::MIN <= n <= i64::MAX,
    ensures
        parsed_i64(decimal(n)) == Some(n),
{
    if n < 0 {
        lemma_decimal_nat_value((-n) as nat);
        assert(decimal(n).skip(1) =~= decimal_nat((-n) as nat));
    } else {
        lemma_decimal_nat_value(n as nat);
        assert(is_digit(decimal(n)[0]));
    }
}

/// The commas of a grouped numeral stand before its last three digits, the
/// three before them and so on; without them it is the plain numeral.
pub proof fn law_grouped(n: u64, r: String, plain: String, rest: String)
    requires
        call_ensures(grouped_text, (n,), r),
        call_ensures(u64_text, (n,), plain),
        call_ensures(grouped_text, (n / 1000,), rest),
    ensures
        r@.filter(|c: char| c != ',') == plain@,
        n < 1000 ==> r@ == plain@,
        n >= 1000 ==> r@.len() > 4 && r@[r@.len() - 4] == ',' && r@.take(r@.len() - 4) == rest@,
{
    lemma_grouped(n as nat);
    if n >= 1000 {
        assert(r@.take(r@.len() - 4) =~= rest@);
        lemma_grouped_len(n as nat / 1000);
    }
}

proof fn lemma_grouped_len(n: nat)
    ensures
        grouped(n).len() > 0,
    decreases n,
{
    lemma_decimal_nat_value(n);
    if n >= 1000 {
        lemma_grouped_len(n / 1000);
    }
}

proof fn lemma_grouped(n: nat)
    ensures
        grouped(n).filter(|c: char| c != ',') == decimal_nat(n),
    decreases n,
{
    let keep = |c: char| c != ',';
    lemma_decimal_nat_value(n);
    if n < 1000 {
        assert forall|i: int| 0 <= i < decimal_nat(n).len() implies keep(#[trigger] decimal_nat(n)[i]) by {
            assert(is_digit(decimal_nat(n)[i]));
        }
        lemma_filter_all(decimal_nat(n), keep);
    } else {
        lemma_grouped(n / 1000);
        let tail = seq![
            ',',
            digit_char(n / 100 % 10),
            digit_char(n / 10 % 10),
            digit_char(n % 10),
        ];
        let digits = seq![
            digit_char(n / 100 % 10),
            digit_char(n / 10 % 10),
            digit_char(n % 10),
        ];
        Seq::filter_distributes_over_add(grouped(n / 1000), tail, keep);
        assert(tail =~= seq![','] + digits);
        Seq::filter_distributes_over_add(seq![','], digits, keep);
        assert(seq![','].filter(keep) =~= Seq::<char>::empty()) by {
            lemma_filter_last(seq![','], keep);
            reveal(Seq::filter);
            assert(seq![','].drop_last() =~= Seq::<char>::empty());
            assert(seq![','].drop_last().filter(keep) =~= Seq::<char>::empty());
        }
        assert forall|i: int| 0 <= i < 3 implies keep(#[trigger] digits[i]) by {
            lemma_decimal_nat_value(n / 100 % 10);
            lemma_decimal_nat_value(n / 10 % 10);
            lemma_decimal_nat_value(n % 10);
            assert(digits[0] == decimal_nat(n / 100 % 10)[0]);
            assert(digits[1] == decimal_nat(n / 10 % 10)[0]);
            assert(digits[2] == decimal_nat(n % 10)[0]);
            assert(is_digit(digits[i]));
        }
        lemma_filter_all(digits, keep);
        assert(n / 10 / 10 == n / 100 && n / 100 / 10 == n / 1000);
        assert(decimal_nat(n) == decimal_nat(n / 10).push(digit_char(n % 10)));
        assert(decimal_nat(n / 10) == decimal_nat(n / 100).push(digit_char(n / 10 % 10)));
        assert(decimal_nat(n / 100) == decimal_nat(n / 1000).push(digit_char(n / 100 % 10)));
        assert(grouped(n).filter(keep) =~= decimal_nat(n));
    }
}

/// A number is written in digits that denote it, without needless zeros.
pub proof fn law_numerals(n: u64, r: String)
    requires
        call_ensures(u64_text, (n,), r),
    ensures
        all_digits(r@),
        digits_value(r@) == n,
        n > 0 ==> r@[0] != '0',
{
    lemma_decimal_nat_value(n as nat);
    lemma_no_leading_zero(n as nat);
}

proof fn lemma_no_leading_zero(n: nat)
    ensures
        decimal_nat(n).len() > 0,
        n > 0 ==> decimal_nat(n)[0] != '0',
    decreases n,
{
    if n >= 10 {
        lemma_no_leading_zero(n / 10);
    } else if n > 0 {
        assert(decimal_nat(n)[0] as nat == 48 + n);
    }
}

/// Padding puts spaces in front of a text until it has the width.
pub proof fn law_padded(s: &str, width: usize, r: String)
    requires
        call_ensures(padded, (s, width), r),
    ensures
        s@.len() >= width ==> r@ == s@,
        s@.len() < width ==> r@.len() == width && r@.skip(width - s@.len()) == s@ && forall|i: int|
            0 <= i < width - s@.len() ==> #[trigger] r@[i] == ' ',
{
    if s@.len() < width {
        assert(r@.skip(width - s@.len()) =~= s@);
    }
}

/// What the numerals denote is what parsing gives back.
pub proof fn law_parse(n: i64, t: String, s: &str, r: Option<i64>)
    requires
        call_ensures(i64_text, (n,), t),
        call_ensures(parse_i64, (s,), r),
        s@ == t@,
    ensures
        r == Some(n),
{
    law_decimal_round_trip(n as int);
}

/// Repeating a text once more puts it behind itself once more.
pub proof fn law_repeated(s: &str, n: usize, r: String, more: String, m: usize)
    requires
        call_ensures(repeat, (s, n), r),
        call_ensures(repeat, (s, m), more),
        m == n + 1,
    ensures
        n == 0 ==> r@.len() == 0,
        more@ == r@ + s@,
{
}

/// Only digits are read as a number, behind a sign where one may stand; they
/// are read as the number that is written with them.
pub proof fn law_what_is_a_number(s: &str, i: int, a: Option<i64>, b: Option<u64>, c: Option<u32>, n: u32)
    requires
        call_ensures(parse_i64, (s,), a),
        call_ensures(parse_digits, (s,), b),
        call_ensures(parse_u32, (s,), c),
    ensures
        s@.len() == 0 ==> a is None && b is None && c is None,
        0 <= i < s@.len() && !('0' <= s@[i] && s@[i] <= '9') ==> b is None && (i > 0 ==> a is None && c
            is None),
        0 < s@.len() && !('0' <= s@[0] && s@[0] <= '9') && s@[0] != '+' ==> c is None && (s@[0]
            != '-' ==> a is None),
        s@ == decimal_nat(n as nat) ==> a == Some(n as i64) && b == Some(n as u64) && c == Some(n),
{
    if 0 < i < s@.len() && !is_digit(s@[i]) {
        let body = s@.skip(1);
        assert(body[i - 1] == s@[i]);
        assert(!is_digit(body[i - 1]));
    }
    if i == 0 && s@.len() > 0 && !is_digit(s@[0]) {
        assert(!all_digits(s@));
    }
    if s@.len() > 0 && !is_digit(s@[0]) {
        assert(!all_digits(s@));
    }
    if s@ == decimal_nat(n as nat) {
        lemma_decimal_nat_value(n as nat);
        law_decimal_round_trip(n as int);
        assert(is_digit(s@[0]));
    }
}

} // verus!
