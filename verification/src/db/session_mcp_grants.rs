//! Which MCP servers a session may use.
use vstd::prelude::*;

use crate::text::{contains_item, texts};

verus! {

/// The grants with one more, which is ignored where it is there already.
pub open spec fn granted(grants: Seq<Seq<char>>, name: Seq<char>) -> Seq<Seq<char>> {
    if grants.contains(name) {
        grants
    } else {
        grants.push(name)
    }
}

/// The grants with several more, one after the other.
pub open spec fn all_granted(grants: Seq<Seq<char>>, names: Seq<Seq<char>>) -> Seq<Seq<char>>
    decreases names.len(),
{
    if names.len() == 0 {
        grants
    } else {
        granted(all_granted(grants, names.drop_last()), names.last())
    }
}

/// Grants access to an MCP server. A second grant changes nothing.
pub fn grant(grants: &mut Vec<String>, name: &str)
    ensures
        texts(final(grants)@) == granted(texts(old(grants)@), name@),
{
    let ghost had = texts(grants@);
    if !contains_item(grants, name) {
        grants.push(name.to_owned());
        assert(texts(grants@) =~= had.push(name@));
    }
}

/// Grants access to several MCP servers.
pub fn grant_all(grants: &mut Vec<String>, names: &Vec<String>)
    ensures
        texts(final(grants)@) == all_granted(texts(old(grants)@), texts(names@)),
{
    let ghost had = texts(grants@);
    let ghost all = texts(names@);
    let mut i: usize = 0;
    while i < names.len()
        invariant
            i <= names@.len(),
            all == texts(names@),
            texts(grants@) == all_granted(had, all.take(i as int)),
        decreases names@.len() - i,
    {
        assert(all.take(i + 1).drop_last() =~= all.take(i as int));
        grant(grants, names[i].as_str());
        i = i + 1;
    }
    assert(all.take(all.len() as int) =~= all);
}

/// Takes all grants back.
pub fn revoke_all(grants: &mut Vec<String>)
    ensures
        texts(final(grants)@) == Seq::<Seq<char>>::empty(),
{
    grants.clear();
    assert(texts(grants@) =~= Seq::empty());
}

/// Granting twice is the same as granting once.
pub proof fn law_grant_is_idempotent(grants: Seq<Seq<char>>, name: Seq<char>)
    ensures
        granted(granted(grants, name), name) == granted(grants, name),
{
    let once = granted(grants, name);
    if !grants.contains(name) {
        assert(once[grants.len() as int] == name);
    }
}

/// After several grants, what was granted before and what was named is
/// granted, and nothing else; what was granted before comes first, in its
/// order.
pub proof fn law_grants_add_up(grants: Seq<Seq<char>>, names: Seq<Seq<char>>)
    ensures
        grants.is_prefix_of(all_granted(grants, names)),
        forall|n: Seq<char>| #[trigger]
            all_granted(grants, names).contains(n) <==> grants.contains(n) || names.contains(n),
        grants.no_duplicates() ==> all_granted(grants, names).no_duplicates(),
    decreases names.len(),
{
    if names.len() > 0 {
        let last = names.last();
        let before = all_granted(grants, names.drop_last());
        law_grants_add_up(grants, names.drop_last());
        let now = all_granted(grants, names);
        assert forall|n: Seq<char>| #[trigger] now.contains(n) <==> grants.contains(n)
            || names.contains(n) by {
            assert(names.contains(n) <==> names.drop_last().contains(n) || n == last) by {
                if names.contains(n) {
                    let i = choose|i: int| 0 <= i < names.len() && names[i] == n;
                    if i < names.len() - 1 {
                        assert(names.drop_last()[i] == n);
                    }
                }
                if names.drop_last().contains(n) {
                    let i = choose|i: int|
                        0 <= i < names.drop_last().len() && names.drop_last()[i] == n;
                    assert(names[i] == n);
                }
                assert(names[names.len() - 1] == last);
            }
            assert(now.contains(n) <==> before.contains(n) || n == last) by {
                if !before.contains(last) {
                    assert(now[before.len() as int] == last);
                    if before.contains(n) {
                        let i = choose|i: int| 0 <= i < before.len() && before[i] == n;
                        assert(now[i] == n);
                    }
                    if now.contains(n) {
                        let i = choose|i: int| 0 <= i < now.len() && now[i] == n;
                        if i < before.len() {
                            assert(before[i] == n);
                        }
                    }
                }
            }
        }
    }
}

/// What is granted stays granted, once, and nothing else is; revoking takes
/// everything.
pub proof fn law_grants(
    a: &mut Vec<String>,
    b: &mut Vec<String>,
    c: &mut Vec<String>,
    name: &str,
    names: &Vec<String>,
    x: Seq<char>,
)
    requires
        call_ensures(grant, (a, name), ()),
        call_ensures(grant_all, (b, names), ()),
        call_ensures(revoke_all, (c,), ()),
    ensures
        texts(final(a)@).contains(x) <==> texts(old(a)@).contains(x) || x == name@,
        texts(final(b)@).contains(x) <==> texts(old(b)@).contains(x) || texts(names@).contains(x),
        texts(old(a)@).contains(name@) ==> texts(final(a)@) == texts(old(a)@),
        texts(old(b)@).no_duplicates() ==> texts(final(b)@).no_duplicates(),
        final(c)@.len() == 0,
{
    law_grants_add_up(texts(old(b)@), texts(names@));
    let had = texts(old(a)@);
    if !had.contains(name@) {
        let now = had.push(name@);
        if had.contains(x) {
            assert(now[had.index_of(x)] == x);
        }
        assert(now[had.len() as int] == name@);
        if now.contains(x) && x != name@ {
            let k = now.index_of(x);
            assert(had[k] == x);
        }
    }
    assert(texts(final(b)@).contains(x) == all_granted(texts(old(b)@), texts(names@)).contains(x));
    assert(texts(final(c)@).len() == final(c)@.len());
}

} // verus!
