//! Which rules count for a permission group, and in which order.
use vstd::prelude::*;

use crate::approval::rules::{first_action, first_tool_action, ApprovalRule, GateCall};
use crate::sorting::{inserted, law_stable_sorted, lemma_inserted_at, stable_sorted};
use crate::text::{lemma_filter_last, str_eq};

verus! {

/// Which rules belong to a group; those without one belong to `default`.
pub open spec fn of_group(group: Seq<char>) -> spec_fn(ApprovalRule) -> bool {
    |r: ApprovalRule|
        match r.group_id {
            Some(g) => g@ == group,
            None => group == "default"@,
        }
}

/// The order in which the rules of a group are evaluated.
pub open spec fn by_priority() -> spec_fn(ApprovalRule, ApprovalRule) -> bool {
    |a: ApprovalRule, b: ApprovalRule| a.priority <= b.priority
}

/// The rules of a group in order of evaluation.
pub open spec fn group_rules(rules: Seq<ApprovalRule>, group: Seq<char>) -> Seq<ApprovalRule> {
    stable_sorted(rules.filter(of_group(group)), by_priority())
}

/// The group whose rules count: the default one where none is named.
pub open spec fn named_group(group: Option<Seq<char>>) -> Seq<char> {
    match group {
        Some(g) => g,
        None => "default"@,
    }
}

/// The rules that count for a group, in order of evaluation: its own first,
/// then those of the default group.
pub open spec fn rules_in_order(rules: Seq<ApprovalRule>, group: Option<Seq<char>>) -> Seq<
    ApprovalRule,
> {
    let g = named_group(group);
    if g == "default"@ {
        group_rules(rules, g)
    } else {
        group_rules(rules, g) + group_rules(rules, "default"@)
    }
}

fn belongs(rule: &ApprovalRule, group: &str) -> (r: bool)
    ensures
        r == of_group(group@)(*rule),
{
    match &rule.group_id {
        Some(g) => str_eq(g.as_str(), group),
        None => str_eq(group, "default"),
    }
}

fn insert_rule(v: &mut Vec<ApprovalRule>, x: ApprovalRule)
    ensures
        final(v)@ == inserted(old(v)@, x, by_priority()),
{
    let ghost le = by_priority();
    let mut k: usize = v.len();
    while k > 0 && v[k - 1].priority > x.priority
        invariant
            k <= v@.len(),
            *v == *old(v),
            le == by_priority(),
            forall|j: int| k <= j < v@.len() ==> !le(#[trigger] v@[j], x),
        decreases k,
    {
        k = k - 1;
    }
    proof {
        lemma_inserted_at(v@, x, le, k as int);
    }
    v.insert(k, x);
}

/// The rules that count for a group, in order of evaluation.
pub fn list_for_group(rules: Vec<ApprovalRule>, group: Option<&str>) -> (r: Vec<ApprovalRule>)
    ensures
        r@ == rules_in_order(
            rules@,
            match group {
                Some(g) => Some(g@),
                None => None,
            },
        ),
{
    let g: &str = match group {
        Some(g) => g,
        None => "default",
    };
    let is_default: bool = str_eq(g, "default");
    let ghost all = rules@;
    let ghost own_pred = of_group(g@);
    let ghost other_pred = of_group("default"@);
    let ghost le = by_priority();
    let mut rest: Vec<ApprovalRule> = rules;
    let mut own: Vec<ApprovalRule> = Vec::new();
    let mut fallback: Vec<ApprovalRule> = Vec::new();
    let ghost mut n: int = 0;
    proof {
        reveal(Seq::filter);
        assert(all.skip(0) =~= all);
        assert(all.take(0).filter(own_pred) =~= Seq::<ApprovalRule>::empty());
        assert(all.take(0).filter(other_pred) =~= Seq::<ApprovalRule>::empty());
    }
    while rest.len() > 0
        invariant
            0 <= n <= all.len(),
            rest@ == all.skip(n),
            own_pred == of_group(g@),
            other_pred == of_group("default"@),
            is_default == (g@ == "default"@),
            le == by_priority(),
            own@ == stable_sorted(all.take(n).filter(own_pred), le),
            !is_default ==> fallback@ == stable_sorted(all.take(n).filter(other_pred), le),
        decreases rest@.len(),
    {
        let x: ApprovalRule = rest.remove(0);
        let ghost own_had = all.take(n).filter(own_pred);
        let ghost other_had = all.take(n).filter(other_pred);
        proof {
            assert(x == all[n]);
            assert(all.skip(n).remove(0) =~= all.skip(n + 1));
            assert(all.take(n + 1).drop_last() =~= all.take(n));
            lemma_filter_last(all.take(n + 1), own_pred);
            lemma_filter_last(all.take(n + 1), other_pred);
            assert(own_had.push(x).drop_last() =~= own_had);
            assert(other_had.push(x).drop_last() =~= other_had);
            n = n + 1;
        }
        if belongs(&x, g) {
            insert_rule(&mut own, x);
        } else if !is_default && belongs(&x, "default") {
            insert_rule(&mut fallback, x);
        }
    }
    assert(all.take(n) =~= all);
    if !is_default {
        own.append(&mut fallback);
    }
    own
}

/// The rules of a group come before those of the default group: where one of
/// them applies to a call, the default group has no say.
pub proof fn law_group_rules_come_first(
    rules: Seq<ApprovalRule>,
    group: Seq<char>,
    call: GateCall,
)
    requires
        first_action(group_rules(rules, group), call) is Some,
    ensures
        first_action(rules_in_order(rules, Some(group)), call) == first_action(
            group_rules(rules, group),
            call,
        ),
{
    lemma_first_action_append(group_rules(rules, group), group_rules(rules, "default"@), call);
}

pub proof fn lemma_first_action_append(a: Seq<ApprovalRule>, b: Seq<ApprovalRule>, call: GateCall)
    ensures
        first_action(a + b, call) == match first_action(a, call) {
            Some(action) => Some(action),
            None => first_action(b, call),
        },
    decreases a.len(),
{
    if a.len() == 0 {
        assert(a + b =~= b);
    } else {
        assert((a + b).skip(1) =~= a.skip(1) + b);
        lemma_first_action_append(a.skip(1), b, call);
    }
}

pub proof fn lemma_first_tool_action_append(a: Seq<ApprovalRule>, b: Seq<ApprovalRule>, tool: Seq<char>)
    ensures
        first_tool_action(a + b, tool) == match first_tool_action(a, tool) {
            Some(action) => Some(action),
            None => first_tool_action(b, tool),
        },
    decreases a.len(),
{
    if a.len() == 0 {
        assert(a + b =~= b);
    } else {
        assert((a + b).skip(1) =~= a.skip(1) + b);
        lemma_first_tool_action_append(a.skip(1), b, tool);
    }
}

/// Where no rule of a group says anything of a call or a tool, the default
/// group decides.
pub proof fn law_default_group_is_the_fallback(
    rules: Seq<ApprovalRule>,
    group: Seq<char>,
    call: GateCall,
    tool: Seq<char>,
)
    ensures
        first_action(group_rules(rules, group), call) is None ==> first_action(
            rules_in_order(rules, Some(group)),
            call,
        ) == first_action(rules_in_order(rules, None), call),
        first_tool_action(rules_in_order(rules, Some(group)), tool) == match first_tool_action(
            group_rules(rules, group),
            tool,
        ) {
            Some(action) => Some(action),
            None => first_tool_action(rules_in_order(rules, None), tool),
        },
{
    let own = group_rules(rules, group);
    let fallback = group_rules(rules, "default"@);
    lemma_first_action_append(own, fallback, call);
    lemma_first_tool_action_append(own, fallback, tool);
}

proof fn lemma_group_rules(rules: Seq<ApprovalRule>, group: Seq<char>)
    ensures
        forall|x: ApprovalRule| #[trigger]
            group_rules(rules, group).contains(x) == (rules.contains(x) && of_group(group)(x)),
        forall|i: int, j: int|
            0 <= i <= j < group_rules(rules, group).len() ==> (#[trigger] group_rules(
                rules,
                group,
            )[i]).priority <= (#[trigger] group_rules(rules, group)[j]).priority,
{
    broadcast use {
        vstd::seq_lib::group_to_multiset_ensures,
        vstd::seq_lib::group_filter_ensures,
    };

    let le = by_priority();
    let pred = of_group(group);
    let own = rules.filter(pred);
    law_stable_sorted(own, le);
    let sorted = stable_sorted(own, le);
    assert forall|x: ApprovalRule| #[trigger] sorted.contains(x) == (rules.contains(x) && pred(x)) by {
        assert(sorted.contains(x) == (sorted.to_multiset().count(x) > 0));
        assert(own.contains(x) == (own.to_multiset().count(x) > 0));
        if own.contains(x) {
            rules.lemma_filter_contains_rev(pred, x);
        }
    }
    assert forall|i: int, j: int| 0 <= i <= j < sorted.len() implies (#[trigger] sorted[i]).priority
        <= (#[trigger] sorted[j]).priority by {
        assert(le(sorted[i], sorted[j]));
    }
}

/// Exactly the rules of a group and of the default group count for it. Those
/// of the group itself come first, and within each of the two a lower priority
/// number comes before a higher one.
pub proof fn law_rules_of_a_group(
    rules: Vec<ApprovalRule>,
    group: Option<&str>,
    r: Vec<ApprovalRule>,
    named: Seq<char>,
    x: ApprovalRule,
    i: int,
    j: int,
)
    requires
        call_ensures(list_for_group, (rules, group), r),
        named == match group {
            Some(g) => g@,
            None => "default"@,
        },
        0 <= i < j < r@.len(),
    ensures
        ({
            let own = |q: ApprovalRule|
                match q.group_id {
                    Some(g) => g@ == named,
                    None => named == "default"@,
                };
            let built_in = |q: ApprovalRule| q.group_id is None || q.group_id->Some_0@ == "default"@;
            &&& r@.contains(x) <==> rules@.contains(x) && (own(x) || built_in(x))
            &&& own(r@[j]) ==> own(r@[i])
            &&& own(r@[i]) == own(r@[j]) ==> r@[i].priority <= r@[j].priority
        }),
{
    let a = group_rules(rules@, named);
    let b = group_rules(rules@, "default"@);
    lemma_group_rules(rules@, named);
    lemma_group_rules(rules@, "default"@);
    assert forall|k: int| 0 <= k < a.len() implies of_group(named)(#[trigger] a[k]) by {
        assert(a.contains(a[k]));
    }
    assert forall|k: int| 0 <= k < b.len() implies of_group("default"@)(#[trigger] b[k]) by {
        assert(b.contains(b[k]));
    }
    if named == "default"@ {
        assert(r@ == a);
        assert(a.contains(x) == (rules@.contains(x) && of_group(named)(x)));
        assert(of_group(named)(a[i]) && of_group(named)(a[j]));
    } else {
        assert(r@ == a + b);
        assert(r@.contains(x) == (a.contains(x) || b.contains(x))) by {
            if a.contains(x) {
                let k = a.index_of(x);
                assert(r@[k] == x);
            }
            if b.contains(x) {
                let k = b.index_of(x);
                assert(r@[a.len() + k] == x);
            }
            if r@.contains(x) {
                let k = r@.index_of(x);
                if k < a.len() {
                    assert(a[k] == x);
                } else {
                    assert(b[k - a.len()] == x);
                }
            }
        }
        if i < a.len() {
            assert(of_group(named)(a[i]));
        } else {
            assert(r@[i] == b[i - a.len()]);
            assert(of_group("default"@)(b[i - a.len()]));
        }
        if j < a.len() {
            assert(r@[j] == a[j]);
        } else {
            assert(r@[j] == b[j - a.len()]);
            assert(of_group("default"@)(b[j - a.len()]));
        }
    }
}

} // verus!
