//! Stable sorting, and sorted lists of texts.
use vstd::prelude::*;

use crate::text::{chars_of, texts};

verus! {

broadcast use vstd::seq_lib::group_seq_properties;

/// `s`, sorted, with `x` put behind the last element not above it.
pub open spec fn inserted<A>(s: Seq<A>, x: A, le: spec_fn(A, A) -> bool) -> Seq<A>
    decreases s.len(),
{
    if s.len() == 0 {
        seq![x]
    } else if le(s.last(), x) {
        s.push(x)
    } else {
        inserted(s.drop_last(), x, le).push(s.last())
    }
}

/// `s` sorted by `le`, elements that tie kept in their order.
pub open spec fn stable_sorted<A>(s: Seq<A>, le: spec_fn(A, A) -> bool) -> Seq<A>
    decreases s.len(),
{
    if s.len() == 0 {
        s
    } else {
        inserted(stable_sorted(s.drop_last(), le), s.last(), le)
    }
}

/// Whether each element is `le` every later one.
pub open spec fn is_sorted<A>(s: Seq<A>, le: spec_fn(A, A) -> bool) -> bool {
    forall|i: int, j: int| 0 <= i <= j < s.len() ==> le(#[trigger] s[i], #[trigger] s[j])
}

/// Whether `le` orders all elements, ties allowed.
pub open spec fn is_total_preorder<A>(le: spec_fn(A, A) -> bool) -> bool {
    &&& forall|a: A| #[trigger] le(a, a)
    &&& forall|a: A, b: A| #[trigger] le(a, b) || le(b, a)
    &&& forall|a: A, b: A, c: A| #[trigger] le(a, b) && #[trigger] le(b, c) ==> le(a, c)
}

proof fn lemma_inserted_members<A>(s: Seq<A>, x: A, le: spec_fn(A, A) -> bool)
    ensures
        inserted(s, x, le).len() == s.len() + 1,
        inserted(s, x, le).to_multiset() == s.to_multiset().insert(x),
        forall|i: int|
            0 <= i < inserted(s, x, le).len() ==> inserted(s, x, le)[i] == x || s.contains(
                #[trigger] inserted(s, x, le)[i],
            ),
    decreases s.len(),
{
    broadcast use vstd::seq_lib::group_to_multiset_ensures;

    let t = inserted(s, x, le);
    if s.len() == 0 {
        assert(seq![x] =~= Seq::<A>::empty().push(x));
        assert(s =~= Seq::<A>::empty());
    } else if le(s.last(), x) {
        assert forall|i: int| 0 <= i < t.len() implies t[i] == x || s.contains(#[trigger] t[i]) by {
            if i < s.len() {
                assert(t[i] == s[i]);
            }
        }
    } else {
        let init = s.drop_last();
        lemma_inserted_members(init, x, le);
        let u = inserted(init, x, le);
        assert(init.push(s.last()) =~= s);
        assert forall|i: int| 0 <= i < t.len() implies t[i] == x || s.contains(#[trigger] t[i]) by {
            if i < u.len() {
                assert(t[i] == u[i]);
                if u[i] != x {
                    let k = init.index_of(u[i]);
                    assert(s[k] == u[i]);
                }
            } else {
                assert(t[i] == s[s.len() - 1]);
            }
        }
    }
}

proof fn lemma_inserted_sorted<A>(s: Seq<A>, x: A, le: spec_fn(A, A) -> bool)
    requires
        is_total_preorder(le),
        is_sorted(s, le),
    ensures
        is_sorted(inserted(s, x, le), le),
    decreases s.len(),
{
    let t = inserted(s, x, le);
    if s.len() == 0 {
    } else if le(s.last(), x) {
        assert forall|i: int, j: int| 0 <= i <= j < t.len() implies le(
            #[trigger] t[i],
            #[trigger] t[j],
        ) by {
            if i < s.len() && j == s.len() {
                assert(le(s[i], s[s.len() - 1]));
            }
        }
    } else {
        let init = s.drop_last();
        assert(is_sorted(init, le)) by {
            assert forall|i: int, j: int| 0 <= i <= j < init.len() implies le(
                #[trigger] init[i],
                #[trigger] init[j],
            ) by {
                assert(init[i] == s[i] && init[j] == s[j]);
            }
        }
        lemma_inserted_sorted(init, x, le);
        lemma_inserted_members(init, x, le);
        let u = inserted(init, x, le);
        assert(le(x, s.last()));
        assert forall|i: int, j: int| 0 <= i <= j < t.len() implies le(
            #[trigger] t[i],
            #[trigger] t[j],
        ) by {
            if j < u.len() {
                assert(t[i] == u[i] && t[j] == u[j]);
            } else if i < u.len() {
                assert(t[i] == u[i] && t[j] == s.last());
                if u[i] != x {
                    let k = init.index_of(u[i]);
                    assert(s[k] == u[i]);
                    assert(le(s[k], s[s.len() - 1]));
                }
            }
        }
    }
}

/// Stable sorting by a total preorder gives a sorted list with the same
/// elements.
pub proof fn law_stable_sorted<A>(s: Seq<A>, le: spec_fn(A, A) -> bool)
    requires
        is_total_preorder(le),
    ensures
        is_sorted(stable_sorted(s, le), le),
        stable_sorted(s, le).to_multiset() == s.to_multiset(),
        stable_sorted(s, le).len() == s.len(),
    decreases s.len(),
{
    broadcast use vstd::seq_lib::group_to_multiset_ensures;

    if s.len() > 0 {
        law_stable_sorted(s.drop_last(), le);
        lemma_inserted_sorted(stable_sorted(s.drop_last(), le), s.last(), le);
        lemma_inserted_members(stable_sorted(s.drop_last(), le), s.last(), le);
        assert(s.drop_last().push(s.last()) =~= s);
    }
}

proof fn lemma_inserted_class<A>(s: Seq<A>, x: A, le: spec_fn(A, A) -> bool, class: spec_fn(A) -> bool)
    requires
        is_total_preorder(le),
        is_sorted(s, le),
        forall|a: A, b: A| #[trigger] class(a) && #[trigger] class(b) ==> le(a, b),
        forall|a: A, b: A| #[trigger] class(a) && #[trigger] le(a, b) && le(b, a) ==> class(b),
    ensures
        inserted(s, x, le).filter(class) == if class(x) {
            s.filter(class).push(x)
        } else {
            s.filter(class)
        },
    decreases s.len(),
{
    let t = inserted(s, x, le);
    if s.len() == 0 {
        reveal(Seq::filter);
        assert(seq![x].drop_last() =~= Seq::<A>::empty());
        assert(s =~= Seq::<A>::empty());
    } else if le(s.last(), x) {
        crate::text::lemma_filter_last(t, class);
        assert(t.drop_last() =~= s);
    } else {
        let init = s.drop_last();
        assert(is_sorted(init, le)) by {
            assert forall|i: int, j: int| 0 <= i <= j < init.len() implies le(
                #[trigger] init[i],
                #[trigger] init[j],
            ) by {
                assert(init[i] == s[i] && init[j] == s[j]);
            }
        }
        lemma_inserted_class(init, x, le, class);
        crate::text::lemma_filter_last(t, class);
        crate::text::lemma_filter_last(s, class);
        assert(t.drop_last() =~= inserted(init, x, le));
        // The last element is above `x`, so not both are in the class.
        if class(x) && class(s.last()) {
            assert(le(s.last(), x));
        }
    }
}

/// Stable sorting keeps elements that tie in the order they had: the members
/// of any class of ties come out as they went in.
pub proof fn law_stable_sorted_keeps_ties<A>(
    s: Seq<A>,
    le: spec_fn(A, A) -> bool,
    class: spec_fn(A) -> bool,
)
    requires
        is_total_preorder(le),
        forall|a: A, b: A| #[trigger] class(a) && #[trigger] class(b) ==> le(a, b),
        forall|a: A, b: A| #[trigger] class(a) && #[trigger] le(a, b) && le(b, a) ==> class(b),
    ensures
        stable_sorted(s, le).filter(class) == s.filter(class),
    decreases s.len(),
{
    if s.len() > 0 {
        law_stable_sorted_keeps_ties(s.drop_last(), le, class);
        law_stable_sorted(s.drop_last(), le);
        lemma_inserted_class(stable_sorted(s.drop_last(), le), s.last(), le, class);
        crate::text::lemma_filter_last(s, class);
    }
}

/// Lexicographic order of texts by their characters.
pub open spec fn text_le(a: Seq<char>, b: Seq<char>) -> bool
    decreases a.len(),
{
    if a.len() == 0 {
        true
    } else if b.len() == 0 {
        false
    } else if a[0] == b[0] {
        text_le(a.skip(1), b.skip(1))
    } else {
        a[0] < b[0]
    }
}

/// The order of texts as a function.
pub open spec fn by_text() -> spec_fn(Seq<char>, Seq<char>) -> bool {
    |a: Seq<char>, b: Seq<char>| text_le(a, b)
}

proof fn lemma_text_le_reflexive(a: Seq<char>)
    ensures
        text_le(a, a),
    decreases a.len(),
{
    if a.len() > 0 {
        lemma_text_le_reflexive(a.skip(1));
    }
}

proof fn lemma_text_le_total(a: Seq<char>, b: Seq<char>)
    ensures
        text_le(a, b) || text_le(b, a),
        text_le(a, b) && text_le(b, a) ==> a == b,
    decreases a.len(),
{
    if a.len() > 0 && b.len() > 0 && a[0] == b[0] {
        lemma_text_le_total(a.skip(1), b.skip(1));
        if text_le(a, b) && text_le(b, a) {
            assert(a =~= seq![a[0]] + a.skip(1));
            assert(b =~= seq![b[0]] + b.skip(1));
        }
    } else if a.len() == 0 && b.len() == 0 {
        assert(a =~= b);
    }
}

proof fn lemma_text_le_transitive(a: Seq<char>, b: Seq<char>, c: Seq<char>)
    requires
        text_le(a, b),
        text_le(b, c),
    ensures
        text_le(a, c),
    decreases a.len(),
{
    if a.len() > 0 && a[0] == b[0] && b[0] == c[0] {
        lemma_text_le_transitive(a.skip(1), b.skip(1), c.skip(1));
    }
}

/// Texts are totally ordered.
pub proof fn law_text_order()
    ensures
        is_total_preorder(by_text()),
        forall|a: Seq<char>, b: Seq<char>| #[trigger] text_le(a, b) && text_le(b, a) ==> a == b,
{
    let le = by_text();
    assert forall|a: Seq<char>| #[trigger] le(a, a) by {
        lemma_text_le_reflexive(a);
    }
    assert forall|a: Seq<char>, b: Seq<char>| #[trigger] le(a, b) || le(b, a) by {
        lemma_text_le_total(a, b);
    }
    assert forall|a: Seq<char>, b: Seq<char>, c: Seq<char>|
        #[trigger] le(a, b) && #[trigger] le(b, c) implies le(a, c) by {
        lemma_text_le_transitive(a, b, c);
    }
    assert forall|a: Seq<char>, b: Seq<char>| #[trigger] text_le(a, b) && text_le(b, a) implies a
        == b by {
        lemma_text_le_total(a, b);
    }
}

/// Whether one text is not after another.
pub fn text_not_after(a: &str, b: &str) -> (r: bool)
    ensures
        r == text_le(a@, b@),
{
    let x: Vec<char> = chars_of(a);
    let y: Vec<char> = chars_of(b);
    let mut i: usize = 0;
    assert(x@.skip(0) =~= x@);
    assert(y@.skip(0) =~= y@);
    while i < x.len() && i < y.len()
        invariant
            x@ == a@,
            y@ == b@,
            i <= x@.len(),
            i <= y@.len(),
            text_le(x@, y@) == text_le(x@.skip(i as int), y@.skip(i as int)),
        decreases x@.len() - i,
    {
        assert(x@.skip(i as int)[0] == x@[i as int]);
        assert(y@.skip(i as int)[0] == y@[i as int]);
        if x[i] != y[i] {
            return x[i] < y[i];
        }
        assert(x@.skip(i as int).skip(1) =~= x@.skip(i + 1));
        assert(y@.skip(i as int).skip(1) =~= y@.skip(i + 1));
        i = i + 1;
    }
    i == x.len()
}

/// Where the last element not above `x` is known, so is the insertion.
pub proof fn lemma_inserted_at<A>(s: Seq<A>, x: A, le: spec_fn(A, A) -> bool, k: int)
    requires
        0 <= k <= s.len(),
        forall|j: int| k <= j < s.len() ==> !le(#[trigger] s[j], x),
        k > 0 ==> le(s[k - 1], x),
    ensures
        inserted(s, x, le) == s.insert(k, x),
    decreases s.len(),
{
    if s.len() == 0 {
        assert(s.insert(k, x) =~= seq![x]);
    } else if k == s.len() {
        assert(s.last() == s[k - 1]);
        assert(s.insert(k, x) =~= s.push(x));
    } else {
        let init = s.drop_last();
        assert(!le(s[s.len() - 1], x));
        assert forall|j: int| k <= j < init.len() implies !le(#[trigger] init[j], x) by {
            assert(init[j] == s[j]);
        }
        lemma_inserted_at(init, x, le, k);
        assert(init.insert(k, x).push(s.last()) =~= s.insert(k, x));
    }
}

/// Puts a text into a sorted list, behind the last one not above it.
fn insert_text(v: &mut Vec<String>, x: String)
    ensures
        texts(final(v)@) == inserted(texts(old(v)@), x@, by_text()),
{
    let n: usize = v.len();
    let ghost all = texts(v@);
    let ghost le = by_text();
    let mut k: usize = n;
    while k > 0 && !text_not_after(v[k - 1].as_str(), x.as_str())
        invariant
            k <= n,
            n == v@.len(),
            all == texts(v@),
            *v == *old(v),
            le == by_text(),
            forall|j: int| k <= j < n ==> !le(#[trigger] all[j], x@),
        decreases k,
    {
        assert(all[k - 1] == v@[k - 1]@);
        k = k - 1;
    }
    proof {
        if k > 0 {
            assert(all[k - 1] == v@[k - 1]@);
        }
        lemma_inserted_at(all, x@, le, k as int);
    }
    v.insert(k, x);
    assert(texts(v@) =~= all.insert(k as int, x@));
}

/// `[String]::sort`.
pub fn sort_texts(v: Vec<String>) -> (r: Vec<String>)
    ensures
        texts(r@) == stable_sorted(texts(v@), by_text()),
{
    let ghost all = texts(v@);
    let mut out: Vec<String> = Vec::new();
    let mut i: usize = 0;
    assert(texts(out@) =~= stable_sorted(all.take(0), by_text()));
    while i < v.len()
        invariant
            i <= v@.len(),
            all == texts(v@),
            texts(out@) == stable_sorted(all.take(i as int), by_text()),
        decreases v@.len() - i,
    {
        assert(all.take(i + 1).drop_last() =~= all.take(i as int));
        insert_text(&mut out, v[i].clone());
        i = i + 1;
    }
    assert(all.take(all.len() as int) =~= all);
    out
}

/// `s` with each run of equal elements reduced to one.
pub open spec fn deduped<A>(s: Seq<A>) -> Seq<A>
    decreases s.len(),
{
    if s.len() <= 1 {
        s
    } else if s[s.len() - 2] == s.last() {
        deduped(s.drop_last())
    } else {
        deduped(s.drop_last()).push(s.last())
    }
}

/// `Vec::dedup`.
pub fn dedup_texts(v: Vec<String>) -> (r: Vec<String>)
    ensures
        texts(r@) == deduped(texts(v@)),
{
    let ghost all = texts(v@);
    let mut out: Vec<String> = Vec::new();
    let mut i: usize = 0;
    assert(texts(out@) =~= deduped(all.take(0)));
    while i < v.len()
        invariant
            i <= v@.len(),
            all == texts(v@),
            texts(out@) == deduped(all.take(i as int)),
        decreases v@.len() - i,
    {
        let ghost had = texts(out@);
        assert(all.take(i + 1).drop_last() =~= all.take(i as int));
        if i > 0 {
            assert(all.take(i + 1)[i - 1] == all[i - 1]);
        } else {
            assert(all.take(1) =~= Seq::<Seq<char>>::empty().push(all[0]));
            assert(had =~= Seq::<Seq<char>>::empty());
        }
        if i == 0 || v[i - 1] != v[i] {
            out.push(v[i].clone());
            assert(texts(out@) =~= had.push(all[i as int]));
        }
        i = i + 1;
    }
    assert(all.take(all.len() as int) =~= all);
    out
}

proof fn lemma_text_le(a: Seq<char>, b: Seq<char>)
    ensures
        text_le(a, b) <==> (a.len() <= b.len() && b.take(a.len() as int) == a) || exists|k: int|
            0 <= k < a.len() && k < b.len() && #[trigger] a.take(k) == b.take(k) && a[k] < b[k],
    decreases a.len(),
{
    if a.len() == 0 {
        assert(b.take(0) =~= a);
    } else if b.len() == 0 {
    } else if a[0] == b[0] {
        let x = a.skip(1);
        let y = b.skip(1);
        lemma_text_le(x, y);
        if x.len() <= y.len() && y.take(x.len() as int) == x {
            assert forall|i: int| 0 <= i < a.len() implies b[i] == a[i] by {
                if i > 0 {
                    assert(y.take(x.len() as int)[i - 1] == x[i - 1]);
                }
            }
            assert(b.take(a.len() as int) =~= a);
        }
        if a.len() <= b.len() && b.take(a.len() as int) == a {
            assert forall|i: int| 0 <= i < x.len() implies y[i] == x[i] by {
                assert(b.take(a.len() as int)[i + 1] == a[i + 1]);
            }
            assert(y.take(x.len() as int) =~= x);
        }
        if exists|k: int|
            0 <= k < x.len() && k < y.len() && #[trigger] x.take(k) == y.take(k) && x[k] < y[k] {
            let k = choose|k: int|
                0 <= k < x.len() && k < y.len() && #[trigger] x.take(k) == y.take(k) && x[k] < y[k];
            assert forall|i: int| 0 <= i < k + 1 implies a[i] == b[i] by {
                if i > 0 {
                    assert(x.take(k)[i - 1] == y.take(k)[i - 1]);
                }
            }
            assert(a.take(k + 1) =~= b.take(k + 1));
        }
        if exists|k: int|
            0 <= k < a.len() && k < b.len() && #[trigger] a.take(k) == b.take(k) && a[k] < b[k] {
            let k = choose|k: int|
                0 <= k < a.len() && k < b.len() && #[trigger] a.take(k) == b.take(k) && a[k] < b[k];
            assert forall|i: int| 0 <= i < k - 1 implies x[i] == y[i] by {
                assert(a.take(k)[i + 1] == b.take(k)[i + 1]);
            }
            assert(x.take(k - 1) =~= y.take(k - 1));
        }
    } else {
        assert(a.take(0) =~= b.take(0));
        if a.len() <= b.len() && b.take(a.len() as int) == a {
            assert(b.take(a.len() as int)[0] == a[0]);
        }
        if exists|k: int|
            0 <= k < a.len() && k < b.len() && #[trigger] a.take(k) == b.take(k) && a[k] < b[k] {
            let k = choose|k: int|
                0 <= k < a.len() && k < b.len() && #[trigger] a.take(k) == b.take(k) && a[k] < b[k];
            if k > 0 {
                assert(a.take(k)[0] == b.take(k)[0]);
            }
        }
    }
}

/// The order of texts: a text is not after another exactly where it begins the
/// other, or has the smaller character where the two first differ.
pub proof fn law_order_of_texts(a: &str, b: &str, r: bool)
    requires
        call_ensures(text_not_after, (a, b), r),
    ensures
        r <==> (a@.len() <= b@.len() && b@.take(a@.len() as int) == a@) || exists|k: int|
            0 <= k < a@.len() && k < b@.len() && #[trigger] a@.take(k) == b@.take(k) && a@[k]
                < b@[k],
{
    lemma_text_le(a@, b@);
}

/// Sorting texts puts the same texts, as often as each occurred, into their
/// order.
pub proof fn law_sorted_texts(v: Vec<String>, r: Vec<String>, i: int, j: int, a: &str, b: &str, le: bool)
    requires
        call_ensures(sort_texts, (v,), r),
        0 <= i < j < r@.len(),
        a@ == r@[i]@,
        b@ == r@[j]@,
        call_ensures(text_not_after, (a, b), le),
    ensures
        le,
        texts(r@).to_multiset() == texts(v@).to_multiset(),
        r@.len() == v@.len(),
{
    law_text_order();
    law_stable_sorted(texts(v@), by_text());
    let s = texts(r@);
    assert(s.len() == texts(v@).len());
    assert(by_text()(s[i], s[j]));
}

/// What is left without repetitions.
pub proof fn lemma_deduped(s: Seq<Seq<char>>)
    ensures
        forall|x: Seq<char>| #[trigger] deduped(s).contains(x) == s.contains(x),
        s.len() > 0 ==> deduped(s).len() > 0 && deduped(s).last() == s.last(),
        deduped(s).len() <= s.len(),
        forall|i: int| 0 < i < deduped(s).len() ==> deduped(s)[i - 1] != #[trigger] deduped(s)[i],
    decreases s.len(),
{
    if s.len() > 1 {
        let t = s.drop_last();
        lemma_deduped(t);
        assert(t.last() == s[s.len() - 2]);
        assert forall|x: Seq<char>| #[trigger] deduped(s).contains(x) == s.contains(x) by {
            assert(deduped(t).contains(x) == t.contains(x));
            if s.contains(x) && x != s.last() {
                let k = s.index_of(x);
                assert(t[k] == x);
            }
            if t.contains(x) {
                let k = t.index_of(x);
                assert(s[k] == x);
            }
            assert(s[s.len() - 1] == s.last());
            if s[s.len() - 2] == s.last() {
                assert(t.contains(t.last()));
            } else {
                let d = deduped(t);
                if d.contains(x) {
                    let k = d.index_of(x);
                    assert(deduped(s)[k] == x);
                }
                assert(deduped(s)[d.len() as int] == s.last());
                if deduped(s).contains(x) && x != s.last() {
                    let k = deduped(s).index_of(x);
                    assert(d[k] == x);
                }
            }
        }
    }
}

/// Removing repetitions keeps every text that occurs and leaves no two equal
/// ones beside each other.
pub proof fn law_deduped_texts(v: Vec<String>, r: Vec<String>, x: Seq<char>, i: int)
    requires
        call_ensures(dedup_texts, (v,), r),
        0 < i < r@.len(),
    ensures
        texts(r@).contains(x) == texts(v@).contains(x),
        r@[i - 1]@ != r@[i]@,
{
    lemma_deduped(texts(v@));
    assert(texts(r@)[i] == r@[i]@ && texts(r@)[i - 1] == r@[i - 1]@);
    assert(deduped(texts(v@)).contains(x) == texts(v@).contains(x));
}

} // verus!
