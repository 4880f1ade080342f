//! A table of values by name, in the order in which the names came.
use vstd::prelude::*;

use crate::text::{str_eq, texts};

verus! {

/// Values by name. No name stands in it twice.
pub struct NameTable<V> {
    names: Vec<String>,
    values: Vec<V>,
}

/// The names of a table with their values.
pub open spec fn paired<V>(names: Seq<Seq<char>>, values: Seq<V>) -> Map<Seq<char>, V> {
    Map::new(|k: Seq<char>| names.contains(k), |k: Seq<char>| values[names.index_of(k)])
}

impl<V> NameTable<V> {
    /// The names, in order.
    pub closed spec fn order(&self) -> Seq<Seq<char>> {
        texts(self.names@)
    }

    pub closed spec fn wf(&self) -> bool {
        &&& self.names@.len() == self.values@.len()
        &&& self.order().no_duplicates()
    }

    pub fn new() -> (r: NameTable<V>)
        ensures
            r.wf(),
            r@ == Map::<Seq<char>, V>::empty(),
            r.order() == Seq::<Seq<char>>::empty(),
    {
        let r: NameTable<V> = NameTable { names: Vec::new(), values: Vec::new() };
        assert(r.order() =~= Seq::empty());
        assert(r@ =~= Map::empty());
        r
    }

    pub fn len(&self) -> (n: usize)
        requires
            self.wf(),
        ensures
            n == self.order().len(),
    {
        self.names.len()
    }

    /// The name and the value at an index.
    pub fn at(&self, i: usize) -> (r: (&String, &V))
        requires
            self.wf(),
            i < self.order().len(),
        ensures
            r.0@ == self.order()[i as int],
            self@.contains_key(r.0@),
            *r.1 == self@[r.0@],
    {
        proof {
            lemma_index_of(self.order(), i as int);
        }
        (&self.names[i], &self.values[i])
    }

    fn position(&self, name: &str) -> (r: Option<usize>)
        requires
            self.wf(),
        ensures
            match r {
                Some(i) => i < self.order().len() && self.order()[i as int] == name@,
                None => !self.order().contains(name@),
            },
    {
        let ghost all = self.order();
        let mut i: usize = 0;
        while i < self.names.len()
            invariant
                i <= self.names@.len(),
                all == texts(self.names@),
                forall|j: int| 0 <= j < i ==> #[trigger] all[j] != name@,
            decreases self.names@.len() - i,
        {
            if str_eq(self.names[i].as_str(), name) {
                return Some(i);
            }
            i = i + 1;
        }
        None
    }

    /// The value of a name.
    pub fn get(&self, name: &str) -> (r: Option<&V>)
        requires
            self.wf(),
        ensures
            match r {
                Some(v) => self@.contains_key(name@) && *v == self@[name@],
                None => !self@.contains_key(name@),
            },
    {
        match self.position(name) {
            Some(i) => {
                proof {
                    lemma_index_of(self.order(), i as int);
                }
                Some(&self.values[i])
            },
            None => None,
        }
    }

    /// Gives a name a value, in place of the one that it had.
    pub fn insert(&mut self, name: String, value: V)
        requires
            old(self).wf(),
        ensures
            final(self).wf(),
            final(self)@ == old(self)@.insert(name@, value),
            final(self).order() == if old(self)@.contains_key(name@) {
                old(self).order()
            } else {
                old(self).order().push(name@)
            },
    {
        let ghost order = self.order();
        let ghost had = self@;
        let ghost stored = self.values@;
        match self.position(name.as_str()) {
            Some(i) => {
                self.values.set(i, value);
                proof {
                    lemma_index_of(order, i as int);
                    assert forall|k: Seq<char>| order.contains(k) && k != name@ implies order.index_of(k)
                        != i by {
                        lemma_contained(order, k);
                    }
                    assert(self.order() == order);
                    assert(self@ =~= had.insert(name@, value));
                }
            },
            None => {
                self.names.push(name);
                self.values.push(value);
                proof {
                    assert(self.order() =~= order.push(name@));
                    lemma_index_of(self.order(), order.len() as int);
                    assert(!had.contains_key(name@));
                    assert forall|k: Seq<char>| order.contains(k) implies {
                        &&& self.order().contains(k)
                        &&& self.values@[self.order().index_of(k)] == stored[order.index_of(k)]
                    } by {
                        lemma_contained(order, k);
                        let i = order.index_of(k);
                        assert(self.order()[i] == k);
                        lemma_index_of(self.order(), i);
                    }
                    assert forall|k: Seq<char>| self.order().contains(k) implies order.contains(k)
                        || k == name@ by {
                        let i = choose|i: int|
                            0 <= i < self.order().len() && self.order()[i] == k;
                        if i < order.len() {
                            assert(order[i] == k);
                        }
                    }
                    assert(self.order()[order.len() as int] == name@);
                    assert(self@ =~= had.insert(name@, value));
                }
            },
        }
    }

    /// Takes a name out, if it is there.
    pub fn remove(&mut self, name: &str)
        requires
            old(self).wf(),
        ensures
            final(self).wf(),
            final(self)@ == old(self)@.remove(name@),
            final(self).order() == old(self).order().remove_value(name@),
    {
        let ghost order = self.order();
        let ghost had = self@;
        let ghost stored = self.values@;
        match self.position(name) {
            Some(i) => {
                self.names.remove(i);
                self.values.remove(i);
                proof {
                    lemma_index_of(order, i as int);
                    assert(self.order() =~= order.remove(i as int));
                    lemma_index_of_first(order, name@);
                    assert(order.remove_value(name@) == order.remove(i as int));
                    let now = self.order();
                    assert forall|k: Seq<char>| order.contains(k) && k != name@ implies {
                        &&& now.contains(k)
                        &&& self.values@[now.index_of(k)] == stored[order.index_of(k)]
                    } by {
                        lemma_contained(order, k);
                        let at = order.index_of(k);
                        let new_at = if at < i {
                            at
                        } else {
                            at - 1
                        };
                        assert(now[new_at] == k);
                        lemma_index_of(now, new_at);
                    }
                    assert forall|k: Seq<char>| now.contains(k) implies order.contains(k) && k
                        != name@ by {
                        let at = choose|j: int| 0 <= j < now.len() && now[j] == k;
                        let old_at = if at < i {
                            at
                        } else {
                            at + 1
                        };
                        assert(order[old_at] == k);
                    }
                    assert(self@ =~= had.remove(name@));
                }
            },
            None => {
                proof {
                    lemma_index_of_first(order, name@);
                    assert(order.remove_value(name@) == order);
                    assert(self@ =~= had.remove(name@));
                }
            },
        }
    }
}

impl<V> View for NameTable<V> {
    type V = Map<Seq<char>, V>;

    closed spec fn view(&self) -> Map<Seq<char>, V> {
        paired(texts(self.names@), self.values@)
    }
}

proof fn lemma_contained(s: Seq<Seq<char>>, k: Seq<char>)
    requires
        s.contains(k),
    ensures
        0 <= s.index_of(k) < s.len(),
        s[s.index_of(k)] == k,
{
    let i = choose|i: int| 0 <= i < s.len() && s[i] == k;
    assert(s[i] == k);
}

proof fn lemma_index_of(s: Seq<Seq<char>>, i: int)
    requires
        s.no_duplicates(),
        0 <= i < s.len(),
    ensures
        s.contains(s[i]),
        s.index_of(s[i]) == i,
{
    lemma_contained(s, s[i]);
}

proof fn lemma_index_of_first(s: Seq<Seq<char>>, k: Seq<char>)
    requires
        s.no_duplicates(),
    ensures
        s.index_of_first(k) == if s.contains(k) {
            Some(s.index_of(k))
        } else {
            None::<int>
        },
{
    s.index_of_first_ensures(k);
    if s.contains(k) {
        lemma_contained(s, k);
        let i = s.index_of_first(k).unwrap();
        lemma_index_of(s, i);
    }
}

/// What is put under a name is found there until it is removed, and nothing
/// else changes.
pub proof fn law_names_hold_values<V>(
    t: &mut NameTable<V>,
    u: &mut NameTable<V>,
    name: String,
    value: V,
    key: &str,
    other: &str,
    r: Option<&V>,
    before: Option<&V>,
    after: Option<&V>,
)
    requires
        call_ensures(NameTable::<V>::insert, (t, name, value), ()),
        call_ensures(NameTable::<V>::remove, (u, key), ()),
        call_ensures(NameTable::<V>::get, (&*final(t), other), r),
        call_ensures(NameTable::<V>::get, (&*old(t), other), before),
        call_ensures(NameTable::<V>::get, (&*final(u), other), after),
        *old(t) == *old(u),
    ensures
        other@ == name@ ==> r is Some && *r->Some_0 == value,
        other@ != name@ ==> (r is Some <==> before is Some) && (r is Some ==> *r->Some_0
            == *before->Some_0),
        other@ == key@ ==> after is None,
        other@ != key@ ==> (after is Some <==> before is Some) && (after is Some ==> *after->Some_0
            == *before->Some_0),
{
}

} // verus!
