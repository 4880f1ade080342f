//! Run contexts and permission groups: the built-in ones, and what may be
//! done to them.
use vstd::prelude::*;

use crate::approval::order::{
    by_priority, group_rules, lemma_first_action_append, lemma_first_tool_action_append, list_for_group,
    of_group, rules_in_order,
};
use crate::approval::rules::{
    applies, first_action, first_tool_action, ApprovalRule, GateCall, RuleAction,
};
use crate::sorting::{inserted, stable_sorted};
use crate::text::{copy_opt, lemma_filter_all, lemma_filter_last, opt_text, or_text, str_eq};

verus! {

/// The id of the built-in group and context.
pub const DEFAULT_ID: &'static str = "default";

/// A group of approval rules.
#[derive(Debug)]
pub struct ToolPermissionGroup {
    pub id: String,
    pub name: String,
    pub description: Option<String>,
}

/// A run context: the permission group under which a session runs.
#[derive(Debug)]
pub struct RunContextRow {
    pub id: String,
    pub name: String,
    pub description: Option<String>,
    pub tool_group_id: Option<String>,
}

/// The built-in group, which is stored where there is none yet.
pub fn default_group() -> (r: ToolPermissionGroup)
    ensures
        r.id@ == "default"@,
        r.name@ == "Default"@,
        opt_text(r.description) == Some("Built-in default permission group"@),
{
    ToolPermissionGroup {
        id: "default".to_owned(),
        name: "Default".to_owned(),
        description: Some("Built-in default permission group".to_owned()),
    }
}

/// The built-in context, which is stored where there is none yet.
pub fn default_context() -> (r: RunContextRow)
    ensures
        r.id@ == "default"@,
        r.name@ == "Default"@,
        opt_text(r.description) == Some("Built-in default run context"@),
        opt_text(r.tool_group_id) == Some("default"@),
{
    RunContextRow {
        id: "default".to_owned(),
        name: "Default".to_owned(),
        description: Some("Built-in default run context".to_owned()),
        tool_group_id: Some("default".to_owned()),
    }
}

/// The group of a rule after the rules without one were moved to the built-in
/// group.
pub open spec fn seeded_group(group: Option<Seq<char>>) -> Option<Seq<char>> {
    match group {
        Some(g) => Some(g),
        None => Some("default"@),
    }
}

/// Moves the rules without a group to the built-in group, and counts them.
pub fn seed_rules(rules: &mut Vec<ApprovalRule>) -> (moved: usize)
    ensures
        final(rules)@.len() == old(rules)@.len(),
        forall|i: int|
            0 <= i < old(rules)@.len() ==> {
                &&& opt_text((#[trigger] final(rules)@[i]).group_id) == seeded_group(
                    opt_text(old(rules)@[i].group_id),
                )
                &&& final(rules)@[i] == (ApprovalRule {
                    group_id: final(rules)@[i].group_id,
                    ..old(rules)@[i]
                })
            },
        moved == old(rules)@.filter(|r: ApprovalRule| r.group_id is None).len(),
{
    let n: usize = rules.len();
    let ghost all = rules@;
    let ghost pred = |r: ApprovalRule| r.group_id is None;
    let mut moved: usize = 0;
    let mut i: usize = 0;
    assert(all.take(0).filter(pred).len() == 0) by {
        reveal(Seq::filter);
    }
    while i < n
        invariant
            i <= n,
            n == rules@.len(),
            n == all.len(),
            pred == (|r: ApprovalRule| r.group_id is None),
            moved <= i,
            moved == all.take(i as int).filter(pred).len(),
            forall|k: int| i <= k < n ==> rules@[k] == all[k],
            forall|k: int|
                0 <= k < i ==> {
                    &&& opt_text((#[trigger] rules@[k]).group_id) == seeded_group(
                        opt_text(all[k].group_id),
                    )
                    &&& rules@[k] == (ApprovalRule { group_id: rules@[k].group_id, ..all[k] })
                },
        decreases n - i,
    {
        proof {
            assert(all.take(i + 1).drop_last() =~= all.take(i as int));
            lemma_filter_last(all.take(i + 1), pred);
        }
        if rules[i].group_id.is_none() {
            rules[i].group_id = Some("default".to_owned());
            moved = moved + 1;
        }
        i = i + 1;
    }
    assert(all.take(n as int) =~= all);
    moved
}

/// Whether a context of that id may be created.
pub fn create_context(id: &str) -> (r: Result<(), String>)
    ensures
        match r {
            Ok(_) => id@ != "default"@,
            Err(e) => id@ == "default"@ && e@
                == "cannot create a run_context with reserved id 'default'"@,
        },
{
    if str_eq(id, "default") {
        Err("cannot create a run_context with reserved id 'default'".to_owned())
    } else {
        Ok(())
    }
}

/// Whether a context of that id may be deleted.
pub fn delete_context(id: &str) -> (r: Result<(), String>)
    ensures
        match r {
            Ok(_) => id@ != "default"@,
            Err(e) => id@ == "default"@ && e@
                == "cannot delete the built-in 'default' run_context"@,
        },
{
    if str_eq(id, "default") {
        Err("cannot delete the built-in 'default' run_context".to_owned())
    } else {
        Ok(())
    }
}

/// Whether a group of that id may be created.
pub fn create_group(id: &str) -> (r: Result<(), String>)
    ensures
        match r {
            Ok(_) => id@ != "default"@,
            Err(e) => id@ == "default"@ && e@
                == "cannot create a permission group with reserved id 'default'"@,
        },
{
    if str_eq(id, "default") {
        Err("cannot create a permission group with reserved id 'default'".to_owned())
    } else {
        Ok(())
    }
}

/// Whether a group of that id may be deleted.
pub fn delete_group(id: &str) -> (r: Result<(), String>)
    ensures
        match r {
            Ok(_) => id@ != "default"@,
            Err(e) => id@ == "default"@ && e@
                == "cannot delete the built-in 'default' permission group"@,
        },
{
    if str_eq(id, "default") {
        Err("cannot delete the built-in 'default' permission group".to_owned())
    } else {
        Ok(())
    }
}

/// Which rules belong to a group.
pub open spec fn in_group(group: Seq<char>) -> spec_fn(ApprovalRule) -> bool {
    |r: ApprovalRule| opt_text(r.group_id) == Some(group)
}

/// Whether one rule is a copy of another for a group. It gets an id when it is
/// stored.
pub open spec fn is_copy(copy: ApprovalRule, rule: ApprovalRule, group: Seq<char>) -> bool {
    &&& copy.id == 0
    &&& opt_text(copy.agent_id) == opt_text(rule.agent_id)
    &&& opt_text(copy.source) == opt_text(rule.source)
    &&& copy.tool_pattern@ == rule.tool_pattern@
    &&& opt_text(copy.path_pattern) == opt_text(rule.path_pattern)
    &&& copy.action == rule.action
    &&& opt_text(copy.note) == opt_text(rule.note)
    &&& copy.priority == rule.priority
    &&& opt_text(copy.group_id) == Some(group)
}

/// Whether rules are copies of others for a group, one by one.
pub open spec fn are_copies(
    copies: Seq<ApprovalRule>,
    rules: Seq<ApprovalRule>,
    group: Seq<char>,
) -> bool {
    copies.len() == rules.len() && forall|i: int|
        0 <= i < rules.len() ==> is_copy(#[trigger] copies[i], rules[i], group)
}

fn copy_rule(r: &ApprovalRule, group: &str) -> (copy: ApprovalRule)
    ensures
        is_copy(copy, *r, group@),
{
    ApprovalRule {
        id: 0,
        agent_id: copy_opt(&r.agent_id),
        source: copy_opt(&r.source),
        tool_pattern: r.tool_pattern.clone(),
        path_pattern: copy_opt(&r.path_pattern),
        action: r.action,
        note: copy_opt(&r.note),
        priority: r.priority,
        group_id: Some(group.to_owned()),
    }
}

/// A copy of a group and of all its rules.
#[derive(Debug)]
pub struct GroupCopy {
    pub group: ToolPermissionGroup,
    pub rules: Vec<ApprovalRule>,
}

/// Copies a group and all its rules under a new id and name.
pub fn duplicate_group(
    source: &Option<ToolPermissionGroup>,
    source_id: &str,
    new_id: &str,
    new_name: &str,
    rules: &Vec<ApprovalRule>,
) -> (r: Result<GroupCopy, String>)
    ensures
        match r {
            Ok(c) => {
                &&& new_id@ != "default"@
                &&& source is Some
                &&& c.group.id@ == new_id@
                &&& c.group.name@ == new_name@
                &&& opt_text(c.group.description) == opt_text(source->Some_0.description)
                &&& are_copies(c.rules@, rules@.filter(in_group(source_id@)), new_id@)
            },
            Err(e) => if new_id@ == "default"@ {
                e@ == "cannot create a permission group with reserved id 'default'"@
            } else {
                source is None && e@ == "source group '"@ + source_id@ + "' not found"@
            },
        },
{
    if str_eq(new_id, "default") {
        return Err("cannot create a permission group with reserved id 'default'".to_owned());
    }
    let description: Option<String> = match source {
        Some(g) => copy_opt(&g.description),
        None => {
            let mut t: String = "source group '".to_owned();
            t.append(source_id);
            t.append("' not found");
            return Err(t);
        },
    };
    let ghost pred = in_group(source_id@);
    let mut copies: Vec<ApprovalRule> = Vec::new();
    let mut i: usize = 0;
    assert(rules@.take(0).filter(pred).len() == 0) by {
        reveal(Seq::filter);
    }
    while i < rules.len()
        invariant
            i <= rules@.len(),
            pred == in_group(source_id@),
            are_copies(copies@, rules@.take(i as int).filter(pred), new_id@),
        decreases rules@.len() - i,
    {
        let ghost had = rules@.take(i as int).filter(pred);
        proof {
            assert(rules@.take(i + 1).drop_last() =~= rules@.take(i as int));
            lemma_filter_last(rules@.take(i + 1), pred);
        }
        let belongs: bool = match &rules[i].group_id {
            Some(g) => str_eq(g.as_str(), source_id),
            None => false,
        };
        if belongs {
            copies.push(copy_rule(&rules[i], new_id));
            assert(rules@.take(i + 1).filter(pred) == had.push(rules@[i as int]));
        }
        i = i + 1;
    }
    assert(rules@.take(rules@.len() as int) =~= rules@);
    Ok(
        GroupCopy {
            group: ToolPermissionGroup {
                id: new_id.to_owned(),
                name: new_name.to_owned(),
                description,
            },
            rules: copies,
        },
    )
}

proof fn lemma_copies_decide_alike(
    copies: Seq<ApprovalRule>,
    rules: Seq<ApprovalRule>,
    group: Seq<char>,
    call: GateCall,
    tool: Seq<char>,
)
    requires
        are_copies(copies, rules, group),
    ensures
        first_action(copies, call) == first_action(rules, call),
        first_tool_action(copies, tool) == first_tool_action(rules, tool),
    decreases rules.len(),
{
    if rules.len() > 0 {
        assert(is_copy(copies[0], rules[0], group));
        assert(applies(copies[0], call) == applies(rules[0], call));
        assert forall|i: int| 0 <= i < rules.skip(1).len() implies is_copy(
            #[trigger] copies.skip(1)[i],
            rules.skip(1)[i],
            group,
        ) by {
            assert(is_copy(copies[i + 1], rules[i + 1], group));
        }
        lemma_copies_decide_alike(copies.skip(1), rules.skip(1), group, call, tool);
    }
}

proof fn lemma_copies_inserted(
    copies: Seq<ApprovalRule>,
    rules: Seq<ApprovalRule>,
    group: Seq<char>,
    copy: ApprovalRule,
    rule: ApprovalRule,
)
    requires
        are_copies(copies, rules, group),
        is_copy(copy, rule, group),
    ensures
        are_copies(
            inserted(copies, copy, by_priority()),
            inserted(rules, rule, by_priority()),
            group,
        ),
    decreases rules.len(),
{
    let le = by_priority();
    if rules.len() > 0 {
        let n = rules.len() - 1;
        assert(is_copy(copies[n], rules[n], group));
        assert(le(copies.last(), copy) == le(rules.last(), rule));
        if !le(rules.last(), rule) {
            assert forall|i: int| 0 <= i < n implies is_copy(
                #[trigger] copies.drop_last()[i],
                rules.drop_last()[i],
                group,
            ) by {
                assert(is_copy(copies[i], rules[i], group));
            }
            lemma_copies_inserted(copies.drop_last(), rules.drop_last(), group, copy, rule);
        } else {
            assert forall|i: int| 0 <= i < n + 2 implies is_copy(
                #[trigger] copies.push(copy)[i],
                rules.push(rule)[i],
                group,
            ) by {
                if i <= n {
                    assert(is_copy(copies[i], rules[i], group));
                }
            }
        }
        let a = inserted(copies.drop_last(), copy, le).push(copies.last());
        let b = inserted(rules.drop_last(), rule, le).push(rules.last());
        if !le(rules.last(), rule) {
            let init_a = inserted(copies.drop_last(), copy, le);
            let init_b = inserted(rules.drop_last(), rule, le);
            assert forall|i: int| 0 <= i < b.len() implies is_copy(#[trigger] a[i], b[i], group) by {
                if i < init_b.len() {
                    assert(is_copy(init_a[i], init_b[i], group));
                }
            }
        }
    }
}

proof fn lemma_copies_sorted(copies: Seq<ApprovalRule>, rules: Seq<ApprovalRule>, group: Seq<char>)
    requires
        are_copies(copies, rules, group),
    ensures
        are_copies(
            stable_sorted(copies, by_priority()),
            stable_sorted(rules, by_priority()),
            group,
        ),
    decreases rules.len(),
{
    if rules.len() > 0 {
        let n = rules.len() - 1;
        assert forall|i: int| 0 <= i < n implies is_copy(
            #[trigger] copies.drop_last()[i],
            rules.drop_last()[i],
            group,
        ) by {
            assert(is_copy(copies[i], rules[i], group));
        }
        assert(is_copy(copies[n], rules[n], group));
        lemma_copies_sorted(copies.drop_last(), rules.drop_last(), group);
        lemma_copies_inserted(
            stable_sorted(copies.drop_last(), by_priority()),
            stable_sorted(rules.drop_last(), by_priority()),
            group,
            copies.last(),
            rules.last(),
        );
    }
}

proof fn lemma_filter_none(rules: Seq<ApprovalRule>, pred: spec_fn(ApprovalRule) -> bool)
    requires
        forall|i: int| 0 <= i < rules.len() ==> !pred(#[trigger] rules[i]),
    ensures
        rules.filter(pred) == Seq::<ApprovalRule>::empty(),
    decreases rules.len(),
{
    reveal(Seq::filter);
    if rules.len() > 0 {
        assert forall|i: int| 0 <= i < rules.drop_last().len() implies !pred(
            #[trigger] rules.drop_last()[i],
        ) by {
            assert(!pred(rules[i]));
        }
        lemma_filter_none(rules.drop_last(), pred);
    }
}

/// A copied group decides every call, and shows every tool, as the group that
/// it was copied from. Rules without a group are left aside: they are moved to
/// the default group at the start.
pub proof fn law_copied_groups_decide_alike(
    rules: Seq<ApprovalRule>,
    copies: Seq<ApprovalRule>,
    source: Seq<char>,
    group: Seq<char>,
    call: GateCall,
    tool: Seq<char>,
)
    requires
        forall|i: int| 0 <= i < rules.len() ==> (#[trigger] rules[i]).group_id is Some,
        forall|i: int| 0 <= i < rules.len() ==> !in_group(group)(#[trigger] rules[i]),
        group != "default"@,
        are_copies(copies, rules.filter(in_group(source)), group),
    ensures
        first_action(rules_in_order(rules + copies, Some(group)), call) == first_action(
            rules_in_order(rules, Some(source)),
            call,
        ),
        first_tool_action(rules_in_order(rules + copies, Some(group)), tool) == first_tool_action(
            rules_in_order(rules, Some(source)),
            tool,
        ),
{
    let all = rules + copies;
    let new = of_group(group);
    let built_in = of_group("default"@);
    let from = of_group(source);
    let own = rules.filter(in_group(source));
    Seq::filter_distributes_over_add(rules, copies, new);
    Seq::filter_distributes_over_add(rules, copies, built_in);
    assert forall|i: int| 0 <= i < rules.len() implies !new(#[trigger] rules[i]) by {
        assert(!in_group(group)(rules[i]));
        assert(rules[i].group_id is Some);
    }
    lemma_filter_none(rules, new);
    assert forall|i: int| 0 <= i < copies.len() implies new(#[trigger] copies[i]) && !built_in(
        copies[i],
    ) by {
        assert(is_copy(copies[i], own[i], group));
    }
    lemma_filter_all(copies, new);
    lemma_filter_none(copies, built_in);
    assert(all.filter(new) =~= copies);
    assert(all.filter(built_in) =~= rules.filter(built_in));
    lemma_same_filter(rules, in_group(source), from);
    lemma_copies_sorted(copies, own, group);
    let a = group_rules(all, group);
    let b = group_rules(rules, source);
    let d = group_rules(rules, "default"@);
    lemma_copies_decide_alike(a, b, group, call, tool);
    lemma_first_action_append(a, d, call);
    lemma_first_tool_action_append(a, d, tool);
    lemma_first_action_append(b, d, call);
    lemma_first_tool_action_append(b, d, tool);
}

proof fn lemma_same_filter(
    rules: Seq<ApprovalRule>,
    p: spec_fn(ApprovalRule) -> bool,
    q: spec_fn(ApprovalRule) -> bool,
)
    requires
        forall|i: int| 0 <= i < rules.len() ==> p(#[trigger] rules[i]) == q(rules[i]),
    ensures
        rules.filter(p) == rules.filter(q),
    decreases rules.len(),
{
    reveal(Seq::filter);
    if rules.len() > 0 {
        assert forall|i: int| 0 <= i < rules.drop_last().len() implies p(
            #[trigger] rules.drop_last()[i],
        ) == q(rules.drop_last()[i]) by {
            assert(p(rules[i]) == q(rules[i]));
        }
        lemma_same_filter(rules.drop_last(), p, q);
    }
}

/// The group whose rules count in a context: the built-in one where there is
/// no context, or the context names none.
pub open spec fn group_in_force(context: Option<RunContextRow>) -> Seq<char> {
    match context {
        Some(c) => or_text(opt_text(c.tool_group_id), "default"@),
        None => "default"@,
    }
}

/// The group whose rules count in a context.
pub fn visibility_group(context: &Option<RunContextRow>) -> (r: String)
    ensures
        r@ == group_in_force(*context),
{
    match context {
        Some(c) => match &c.tool_group_id {
            Some(g) => g.clone(),
            None => "default".to_owned(),
        },
        None => "default".to_owned(),
    }
}

/// The action of the first rule whose pattern matches a tool, among the rules
/// that count in a context, in order of evaluation: those of its group, then
/// those of the default group. None where the tool is visible by default.
/// `rules` holds all rules there are.
pub fn check_tool_visibility(
    context: &Option<RunContextRow>,
    rules: Vec<ApprovalRule>,
    tool_name: &str,
) -> (r: Option<RuleAction>)
    ensures
        r == first_tool_action(
            rules_in_order(rules@, Some(group_in_force(*context))),
            tool_name@,
        ),
{
    let group: String = visibility_group(context);
    let ordered: Vec<ApprovalRule> = list_for_group(rules, Some(group.as_str()));
    crate::approval::rules::check_tool_visibility(&ordered, tool_name)
}

/// Rules without a group become the default group's; every rule is otherwise
/// unchanged.
pub proof fn law_rules_get_a_group(rules: &mut Vec<ApprovalRule>, moved: usize, i: int)
    requires
        call_ensures(seed_rules, (rules,), moved),
        0 <= i < old(rules)@.len(),
    ensures
        final(rules)@.len() == old(rules)@.len(),
        final(rules)@[i].group_id is Some,
        final(rules)@[i].group_id->Some_0@ == match old(rules)@[i].group_id {
            Some(g) => g@,
            None => "default"@,
        },
        final(rules)@[i].action == old(rules)@[i].action && final(rules)@[i].priority == old(
            rules)@[i].priority && final(rules)@[i].tool_pattern == old(rules)@[i].tool_pattern,
        moved <= old(rules)@.len(),
        moved == 0 ==> old(rules)@[i].group_id is Some,
{
    broadcast use vstd::seq_lib::group_filter_ensures;

    let bare = |r: ApprovalRule| r.group_id is None;
    let all = old(rules)@;
    assert(opt_text(final(rules)@[i].group_id) == seeded_group(opt_text(all[i].group_id)));
    if all[i].group_id is None {
        assert(all.contains(all[i]) && bare(all[i]));
        assert(all.filter(bare).contains(all[i]));
        assert(all.filter(bare).len() > 0);
    }
}

/// The built-in context and group cannot be made again nor deleted; others can.
pub proof fn law_reserved_ids(id: &str, r: Seq<Result<(), String>>)
    requires
        r.len() == 4,
        call_ensures(create_context, (id,), r[0]),
        call_ensures(delete_context, (id,), r[1]),
        call_ensures(create_group, (id,), r[2]),
        call_ensures(delete_group, (id,), r[3]),
    ensures
        r[0] is Ok <==> id@ != "default"@,
        r[1] is Ok <==> id@ != "default"@,
        r[2] is Ok <==> id@ != "default"@,
        r[3] is Ok <==> id@ != "default"@,
{
}

/// Duplicating a group copies exactly its rules, in their order, into the new
/// one.
pub proof fn law_duplicated_groups(
    source: &Option<ToolPermissionGroup>,
    source_id: &str,
    new_id: &str,
    new_name: &str,
    rules: &Vec<ApprovalRule>,
    r: Result<GroupCopy, String>,
    i: int,
)
    requires
        call_ensures(duplicate_group, (source, source_id, new_id, new_name, rules), r),
    ensures
        r is Ok <==> new_id@ != "default"@ && source is Some,
        r matches Ok(c) ==> {
            let own = rules@.filter(
                |q: ApprovalRule| q.group_id is Some && q.group_id->Some_0@ == source_id@,
            );
            &&& c.group.id@ == new_id@ && c.group.name@ == new_name@
            &&& c.rules@.len() == own.len()
            &&& 0 <= i < own.len() ==> {
                let copy = c.rules@[i];
                &&& copy.group_id is Some && copy.group_id->Some_0@ == new_id@
                &&& copy.action == own[i].action && copy.priority == own[i].priority
                &&& copy.tool_pattern@ == own[i].tool_pattern@
                &&& opt_text(copy.agent_id) == opt_text(own[i].agent_id)
                &&& opt_text(copy.source) == opt_text(own[i].source)
                &&& opt_text(copy.path_pattern) == opt_text(own[i].path_pattern)
            }
        },
{
    let raw = |q: ApprovalRule| q.group_id is Some && q.group_id->Some_0@ == source_id@;
    assert(raw =~= in_group(source_id@));
    if r is Ok {
        let own = rules@.filter(in_group(source_id@));
        if 0 <= i < own.len() {
            assert(is_copy(r->Ok_0.rules@[i], own[i], new_id@));
        }
    }
}

/// What is visible in a context is what the rules of its group say, in their
/// order; without a context, or a group, those of the default group.
pub proof fn law_visibility_in_a_context(
    context: &Option<RunContextRow>,
    rules: Vec<ApprovalRule>,
    tool: &str,
    r: Option<RuleAction>,
    group: String,
    name: &str,
    listed: Vec<ApprovalRule>,
    s: Option<RuleAction>,
)
    requires
        call_ensures(check_tool_visibility, (context, rules, tool), r),
        call_ensures(visibility_group, (context,), group),
        name@ == group@,
        call_ensures(list_for_group, (rules, Some(name)), listed),
        call_ensures(crate::approval::rules::check_tool_visibility, (&listed, tool), s),
    ensures
        r == s,
        group@ == match *context {
            Some(c) => match c.tool_group_id {
                Some(g) => g@,
                None => "default"@,
            },
            None => "default"@,
        },
{
}

/// The built-in group and context.
pub proof fn law_built_in(g: ToolPermissionGroup, c: RunContextRow)
    requires
        call_ensures(default_group, (), g),
        call_ensures(default_context, (), c),
    ensures
        g.id@ == "default"@ && g.name@ == "Default"@,
        c.id@ == "default"@ && c.name@ == "Default"@,
        c.tool_group_id is Some && c.tool_group_id->Some_0@ == g.id@,
{
}

} // verus!
