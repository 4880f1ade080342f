//! The rules a fresh installation starts with, and what they amount to.
use vstd::prelude::*;

use crate::approval::manager::{gate_decision, ApprovalBypass};
use crate::approval::order::{by_priority, of_group, rules_in_order};
use crate::approval::rules::{
    applies, first_action, law_first_match_wins, matches_pattern, ruling, ApprovalRule, GateCall,
    GateResult, NewApprovalRule, RuleAction,
};
use crate::paths::{
    components, first_answer, has_no_slash, holds_no_steps, is_absolute, is_named, is_plain,
    law_detours_are_seen_through, rule_path,
};
use crate::sorting::{lemma_inserted_at, stable_sorted};
use crate::text::{has_prefix, lemma_filter_all, opt_text};
use crate::tools::{
    file_read_tools, file_write_tools, law_write_and_read_tools_differ, ToolCategory,
};

verus! {

broadcast use vstd::seq_lib::group_seq_properties;

/// The tools for which the default rules require an approval.
pub open spec fn guarded_tools() -> Seq<Seq<char>> {
    seq![
        "execute_cmd"@,
        "restart"@,
        "write_file"@,
        "edit_file"@,
        "insert_at_line"@,
        "replace_lines"@,
        "mobile_start_pairing"@,
    ]
}

/// Whether a rule of the default group is this seed.
pub open spec fn is_seed(
    r: NewApprovalRule,
    tool: Seq<char>,
    path: Option<Seq<char>>,
    action: RuleAction,
    note: Seq<char>,
    priority: i64,
) -> bool {
    &&& r.agent_id is None
    &&& r.source is None
    &&& r.tool_pattern@ == tool
    &&& opt_text(r.path_pattern) == path
    &&& r.action == action
    &&& opt_text(r.note) == Some(note)
    &&& r.priority == Some(priority)
    &&& opt_text(r.group_id) == Some("default"@)
}

fn seed(tool: &str, path: Option<&str>, action: RuleAction, note: &str, priority: i64) -> (r:
    NewApprovalRule)
    ensures
        is_seed(
            r,
            tool@,
            match path {
                Some(p) => Some(p@),
                None => None,
            },
            action,
            note@,
            priority,
        ),
{
    NewApprovalRule {
        agent_id: None,
        source: None,
        tool_pattern: tool.to_owned(),
        path_pattern: match path {
            Some(p) => Some(p.to_owned()),
            None => None,
        },
        action,
        note: Some(note.to_owned()),
        priority: Some(priority),
        group_id: Some("default".to_owned()),
    }
}

/// Whether a rule is the catch-all of the default group.
pub open spec fn is_catch_all(r: NewApprovalRule) -> bool {
    is_seed(r, "*"@, None, RuleAction::Allow, "Allow all tools by default (catch-all)"@, 9999)
}

fn catch_all() -> (r: NewApprovalRule)
    ensures
        is_catch_all(r),
{
    seed("*", None, RuleAction::Allow, "Allow all tools by default (catch-all)", 9999)
}

/// The default rules, to be inserted where the table holds no rule: an
/// approval for each guarded tool, then the catch-all.
pub fn seed_defaults(count: i64) -> (r: Vec<NewApprovalRule>)
    ensures
        count > 0 ==> r@.len() == 0,
        count <= 0 ==> {
            &&& r@.len() == guarded_tools().len() + 1
            &&& forall|i: int|
                0 <= i < guarded_tools().len() ==> is_seed(
                    #[trigger] r@[i],
                    guarded_tools()[i],
                    None,
                    RuleAction::Require,
                    "default rule"@,
                    10,
                )
            &&& is_catch_all(r@.last())
        },
{
    let mut r: Vec<NewApprovalRule> = Vec::new();
    if count > 0 {
        return r;
    }
    r.push(seed("execute_cmd", None, RuleAction::Require, "default rule", 10));
    r.push(seed("restart", None, RuleAction::Require, "default rule", 10));
    r.push(seed("write_file", None, RuleAction::Require, "default rule", 10));
    r.push(seed("edit_file", None, RuleAction::Require, "default rule", 10));
    r.push(seed("insert_at_line", None, RuleAction::Require, "default rule", 10));
    r.push(seed("replace_lines", None, RuleAction::Require, "default rule", 10));
    // Opening a pairing window puts a secret into the chat: it is for a human to decide.
    r.push(seed("mobile_start_pairing", None, RuleAction::Require, "default rule", 10));
    r.push(catch_all());
    r
}

/// The catch-all, to be inserted where the default group lacks one.
pub fn seed_allow_all_default(count: i64) -> (r: Option<NewApprovalRule>)
    ensures
        match r {
            Some(rule) => count <= 0 && is_catch_all(rule),
            None => count > 0,
        },
{
    if count > 0 {
        None
    } else {
        Some(catch_all())
    }
}

/// The rules that allow writes under `data/`, to be inserted where there is
/// none of them.
pub fn seed_data_path_rules(count: i64) -> (r: Vec<NewApprovalRule>)
    ensures
        count > 0 ==> r@.len() == 0,
        count <= 0 ==> {
            &&& r@.len() == file_write_tools().len()
            &&& forall|i: int|
                0 <= i < r@.len() ==> is_seed(
                    #[trigger] r@[i],
                    file_write_tools()[i],
                    Some("data/*"@),
                    RuleAction::Allow,
                    "auto-allow data/ writes"@,
                    5,
                )
        },
{
    let mut r: Vec<NewApprovalRule> = Vec::new();
    if count > 0 {
        return r;
    }
    r.push(seed("write_file", Some("data/*"), RuleAction::Allow, "auto-allow data/ writes", 5));
    r.push(seed("edit_file", Some("data/*"), RuleAction::Allow, "auto-allow data/ writes", 5));
    r.push(seed("insert_at_line", Some("data/*"), RuleAction::Allow, "auto-allow data/ writes", 5));
    r.push(seed("replace_lines", Some("data/*"), RuleAction::Allow, "auto-allow data/ writes", 5));
    r
}

/// The patterns that a denial of `secrets/` needs: the directory and what is
/// in it.
pub open spec fn secret_patterns() -> Seq<Seq<char>> {
    seq!["secrets"@, "secrets/*"@]
}

fn push_secret_rules(r: &mut Vec<NewApprovalRule>, tool: &str)
    ensures
        final(r)@.len() == old(r)@.len() + 2,
        final(r)@.take(old(r)@.len() as int) == old(r)@,
        forall|j: int|
            0 <= j < 2 ==> is_seed(
                #[trigger] final(r)@[old(r)@.len() + j],
                tool@,
                Some(secret_patterns()[j]),
                RuleAction::Deny,
                "deny reading secrets/"@,
                5,
            ),
{
    r.push(seed(tool, Some("secrets"), RuleAction::Deny, "deny reading secrets/", 5));
    r.push(seed(tool, Some("secrets/*"), RuleAction::Deny, "deny reading secrets/", 5));
    assert(r@.take(old(r)@.len() as int) =~= old(r)@);
}

/// Whether a list of rules begins with the denials for the first `n` tools
/// that read.
pub open spec fn denies_secrets(r: Seq<NewApprovalRule>, n: int) -> bool {
    &&& r.len() == 2 * n
    &&& forall|i: int|
        0 <= i < r.len() ==> is_seed(
            #[trigger] r[i],
            file_read_tools()[i / 2],
            Some(secret_patterns()[i % 2]),
            RuleAction::Deny,
            "deny reading secrets/"@,
            5,
        )
}

proof fn lemma_denies_one_more(before: Seq<NewApprovalRule>, after: Seq<NewApprovalRule>, n: int)
    requires
        n >= 0,
        denies_secrets(before, n),
        after.len() == before.len() + 2,
        after.take(before.len() as int) == before,
        forall|j: int|
            0 <= j < 2 ==> is_seed(
                #[trigger] after[before.len() + j],
                file_read_tools()[n],
                Some(secret_patterns()[j]),
                RuleAction::Deny,
                "deny reading secrets/"@,
                5,
            ),
    ensures
        denies_secrets(after, n + 1),
{
    assert forall|i: int| 0 <= i < after.len() implies is_seed(
        #[trigger] after[i],
        file_read_tools()[i / 2],
        Some(secret_patterns()[i % 2]),
        RuleAction::Deny,
        "deny reading secrets/"@,
        5,
    ) by {
        if i < before.len() {
            assert(after.take(before.len() as int)[i] == after[i]);
        } else {
            let j = i - before.len();
            assert(i / 2 == n && i % 2 == j);
            assert(is_seed(
                after[before.len() + j],
                file_read_tools()[n],
                Some(secret_patterns()[j]),
                RuleAction::Deny,
                "deny reading secrets/"@,
                5,
            ));
        }
    }
}

/// The rules that keep the read tools out of `secrets/`, to be inserted where
/// there is none of them. A denial cannot be bypassed.
pub fn seed_secrets_deny_rules(count: i64) -> (r: Vec<NewApprovalRule>)
    ensures
        count > 0 ==> r@.len() == 0,
        count <= 0 ==> denies_secrets(r@, file_read_tools().len() as int),
{
    let mut r: Vec<NewApprovalRule> = Vec::new();
    if count > 0 {
        return r;
    }
    let ghost r0 = r@;
    push_secret_rules(&mut r, "read_file");
    let ghost r1 = r@;
    push_secret_rules(&mut r, "grep_files");
    let ghost r2 = r@;
    push_secret_rules(&mut r, "list_files");
    let ghost r3 = r@;
    push_secret_rules(&mut r, "search_file");
    let ghost r4 = r@;
    push_secret_rules(&mut r, "get_ast_outline");
    proof {
        lemma_denies_one_more(r0, r1, 0);
        lemma_denies_one_more(r1, r2, 1);
        lemma_denies_one_more(r2, r3, 2);
        lemma_denies_one_more(r3, r4, 3);
        lemma_denies_one_more(r4, r@, 4);
    }
    r
}

/// Whether a stored rule came from a seed, as far as matching goes.
pub open spec fn stored_as(rule: ApprovalRule, tool: Seq<char>, path: Option<Seq<char>>, action: RuleAction) -> bool {
    &&& rule.agent_id is None
    &&& rule.source is None
    &&& rule.tool_pattern@ == tool
    &&& opt_text(rule.path_pattern) == path
    &&& rule.action == action
}

/// Whether a list of rules is that of a fresh installation in order of
/// priority: the rules on `data/` and `secrets/`, the guarded tools, the
/// catch-all.
pub open spec fn is_fresh_policy(rules: Seq<ApprovalRule>) -> bool {
    &&& rules.len() == 22
    &&& forall|i: int|
        0 <= i < 4 ==> stored_as(
            #[trigger] rules[i],
            file_write_tools()[i],
            Some("data/*"@),
            RuleAction::Allow,
        )
    &&& forall|i: int|
        4 <= i < 14 ==> stored_as(
            #[trigger] rules[i],
            file_read_tools()[(i - 4) / 2],
            Some(secret_patterns()[(i - 4) % 2]),
            RuleAction::Deny,
        )
    &&& forall|i: int|
        14 <= i < 21 ==> stored_as(
            #[trigger] rules[i],
            guarded_tools()[i - 14],
            None,
            RuleAction::Require,
        )
    &&& stored_as(rules[21], "*"@, None, RuleAction::Allow)
}

/// Whether a path is `secrets` or lies in it.
pub open spec fn is_secret_path(path: Seq<char>) -> bool {
    path == "secrets"@ || has_prefix(path, "secrets/"@)
}

/// What a fresh installation does with a call: reading `secrets` is denied,
/// writing under `data/` is allowed, any other call of a guarded tool needs an
/// approval, everything else is allowed.
pub open spec fn fresh_action(tool: Seq<char>, path: Seq<char>) -> RuleAction {
    if file_read_tools().contains(tool) && is_secret_path(path) {
        RuleAction::Deny
    } else if file_write_tools().contains(tool) && has_prefix(path, "data/"@) {
        RuleAction::Allow
    } else if guarded_tools().contains(tool) {
        RuleAction::Require
    } else {
        RuleAction::Allow
    }
}

proof fn lemma_first_at(rules: Seq<ApprovalRule>, call: GateCall, k: int)
    requires
        0 <= k < rules.len(),
        forall|i: int| 0 <= i < k ==> !applies(#[trigger] rules[i], call),
        applies(rules[k], call),
    ensures
        first_action(rules, call) == Some(rules[k].action),
{
    let before = rules.take(k);
    assert forall|i: int| 0 <= i < before.len() implies !applies(#[trigger] before[i], call) by {
        assert(before[i] == rules[i]);
    }
    law_first_match_wins(before, rules[k], rules.skip(k + 1), call);
    assert(before.push(rules[k]) + rules.skip(k + 1) =~= rules);
}

proof fn lemma_plain_pattern(p: Seq<char>, name: Seq<char>)
    requires
        p.len() == 0 || p.last() != '*',
    ensures
        matches_pattern(p, name) == (p == name),
{
}

proof fn lemma_tool_names_plain()
    ensures
        forall|i: int|
            0 <= i < file_write_tools().len() ==> (#[trigger] file_write_tools()[i]).len() > 0
                && file_write_tools()[i].last() != '*',
        forall|i: int|
            0 <= i < file_read_tools().len() ==> (#[trigger] file_read_tools()[i]).len() > 0
                && file_read_tools()[i].last() != '*',
        forall|i: int|
            0 <= i < guarded_tools().len() ==> (#[trigger] guarded_tools()[i]).len() > 0
                && guarded_tools()[i].last() != '*',
{
    reveal_strlit("write_file");
    reveal_strlit("edit_file");
    reveal_strlit("insert_at_line");
    reveal_strlit("replace_lines");
    reveal_strlit("read_file");
    reveal_strlit("grep_files");
    reveal_strlit("list_files");
    reveal_strlit("search_file");
    reveal_strlit("get_ast_outline");
    reveal_strlit("execute_cmd");
    reveal_strlit("restart");
    reveal_strlit("mobile_start_pairing");
}

/// The rules of a fresh installation decide every call as `fresh_action` says.
pub proof fn law_fresh_policy_decides(rules: Seq<ApprovalRule>, call: GateCall)
    requires
        is_fresh_policy(rules),
    ensures
        first_action(rules, call) == Some(fresh_action(call.tool_name@, call.path@)),
{
    let tool = call.tool_name@;
    let path = call.path@;
    lemma_tool_names_plain();
    law_write_and_read_tools_differ(tool);
    reveal_strlit("data/*");
    reveal_strlit("data/");
    reveal_strlit("secrets");
    reveal_strlit("secrets/*");
    reveal_strlit("secrets/");
    reveal_strlit("*");
    assert("data/*"@.drop_last() =~= "data/"@);
    assert("secrets/*"@.drop_last() =~= "secrets/"@);
    let in_data = has_prefix(path, "data/"@);
    let in_secrets = is_secret_path(path);
    assert(matches_pattern("data/*"@, path) == in_data);
    assert(matches_pattern("secrets/*"@, path) == has_prefix(path, "secrets/"@));
    assert(matches_pattern("secrets"@, path) == (path == "secrets"@));
    assert forall|i: int| 0 <= i < 4 implies applies(#[trigger] rules[i], call) == (tool
        == file_write_tools()[i] && in_data) by {
        lemma_plain_pattern(file_write_tools()[i], tool);
    }
    assert forall|i: int| 4 <= i < 14 implies applies(#[trigger] rules[i], call) == (tool
        == file_read_tools()[(i - 4) / 2] && matches_pattern(
        secret_patterns()[(i - 4) % 2],
        path,
    )) by {
        lemma_plain_pattern(file_read_tools()[(i - 4) / 2], tool);
    }
    assert forall|i: int| 14 <= i < 21 implies applies(#[trigger] rules[i], call) == (tool
        == guarded_tools()[i - 14]) by {
        lemma_plain_pattern(guarded_tools()[i - 14], tool);
    }
    assert("*"@.drop_last() =~= Seq::<char>::empty());
    assert(tool.take(0) =~= Seq::<char>::empty());
    assert(applies(rules[21], call));
    if file_read_tools().contains(tool) && in_secrets {
        let t = file_read_tools().index_of(tool);
        let k = if path == "secrets"@ {
            4 + 2 * t
        } else {
            4 + 2 * t + 1
        };
        assert((k - 4) / 2 == t);
        lemma_names_distinct(tool, t);
        assert(applies(rules[k], call));
        assert forall|i: int| 0 <= i < k implies !applies(#[trigger] rules[i], call) by {
            if i < 4 {
                if tool == file_write_tools()[i] {
                    assert(file_write_tools().contains(tool));
                }
            } else if (i - 4) / 2 == t {
                assert(i == k - 1 && (i - 4) % 2 == 0);
            }
        }
        lemma_first_at(rules, call, k);
    } else {
        assert forall|i: int| 4 <= i < 14 implies !applies(#[trigger] rules[i], call) by {
            if tool == file_read_tools()[(i - 4) / 2] {
                assert(file_read_tools().contains(tool));
                assert((i - 4) % 2 == 0 || (i - 4) % 2 == 1);
            }
        }
        if file_write_tools().contains(tool) && in_data {
            let t = file_write_tools().index_of(tool);
            lemma_write_names_distinct(tool, t);
            lemma_first_at(rules, call, t);
        } else {
            assert forall|i: int| 0 <= i < 4 implies !applies(#[trigger] rules[i], call) by {
                if tool == file_write_tools()[i] {
                    assert(file_write_tools().contains(tool));
                }
            }
            if guarded_tools().contains(tool) {
                let t = guarded_tools().index_of(tool);
                lemma_guarded_names_distinct(tool, t);
                lemma_first_at(rules, call, 14 + t);
            } else {
                assert forall|i: int| 14 <= i < 21 implies !applies(#[trigger] rules[i], call) by {
                    if tool == guarded_tools()[i - 14] {
                        assert(guarded_tools().contains(tool));
                    }
                }
                lemma_first_at(rules, call, 21);
            }
        }
    }
}

proof fn lemma_names_distinct(tool: Seq<char>, t: int)
    requires
        0 <= t < file_read_tools().len(),
        file_read_tools()[t] == tool,
    ensures
        forall|i: int| 0 <= i < file_read_tools().len() && i != t ==> #[trigger] file_read_tools()[i] != tool,
{
    reveal_strlit("read_file");
    reveal_strlit("grep_files");
    reveal_strlit("list_files");
    reveal_strlit("search_file");
    reveal_strlit("get_ast_outline");
    assert forall|i: int| 0 <= i < file_read_tools().len() && i != t implies #[trigger] file_read_tools()[i]
        != tool by {
        assert(file_read_tools()[i].len() != tool.len() || file_read_tools()[i][0] != tool[0]);
    }
}

proof fn lemma_write_names_distinct(tool: Seq<char>, t: int)
    requires
        0 <= t < file_write_tools().len(),
        file_write_tools()[t] == tool,
    ensures
        forall|i: int| 0 <= i < file_write_tools().len() && i != t ==> #[trigger] file_write_tools()[i]
            != tool,
{
    reveal_strlit("write_file");
    reveal_strlit("edit_file");
    reveal_strlit("insert_at_line");
    reveal_strlit("replace_lines");
    assert forall|i: int| 0 <= i < file_write_tools().len() && i != t implies #[trigger] file_write_tools()[i]
        != tool by {
        assert(file_write_tools()[i].len() != tool.len());
    }
}

proof fn lemma_guarded_names_distinct(tool: Seq<char>, t: int)
    requires
        0 <= t < guarded_tools().len(),
        guarded_tools()[t] == tool,
    ensures
        forall|i: int| 0 <= i < guarded_tools().len() && i != t ==> #[trigger] guarded_tools()[i] != tool,
{
    reveal_strlit("execute_cmd");
    reveal_strlit("restart");
    reveal_strlit("write_file");
    reveal_strlit("edit_file");
    reveal_strlit("insert_at_line");
    reveal_strlit("replace_lines");
    reveal_strlit("mobile_start_pairing");
    assert forall|i: int| 0 <= i < guarded_tools().len() && i != t implies #[trigger] guarded_tools()[i]
        != tool by {
        assert(guarded_tools()[i].len() != tool.len());
    }
}

/// Whether a stored rule is that of an input.
pub open spec fn is_stored(rule: ApprovalRule, input: NewApprovalRule) -> bool {
    &&& opt_text(rule.agent_id) == opt_text(input.agent_id)
    &&& opt_text(rule.source) == opt_text(input.source)
    &&& rule.tool_pattern@ == input.tool_pattern@
    &&& opt_text(rule.path_pattern) == opt_text(input.path_pattern)
    &&& rule.action == input.action
    &&& input.priority == Some(rule.priority)
    &&& opt_text(rule.group_id) == opt_text(input.group_id)
}

proof fn lemma_seeds_sorted(rules: Seq<ApprovalRule>, n: int)
    requires
        0 <= n <= rules.len(),
        rules.len() >= 8,
        forall|i: int| 0 <= i < 7 ==> (#[trigger] rules[i]).priority == 10,
        rules[7].priority == 9999,
        forall|i: int| 8 <= i < rules.len() ==> (#[trigger] rules[i]).priority == 5,
    ensures
        stable_sorted(rules.take(n), by_priority()) == if n <= 8 {
            rules.take(n)
        } else {
            rules.subrange(8, n) + rules.take(8)
        },
    decreases n,
{
    let le = by_priority();
    if n > 0 {
        lemma_seeds_sorted(rules, n - 1);
        let before = stable_sorted(rules.take(n - 1), le);
        let x = rules[n - 1];
        assert(rules.take(n).drop_last() =~= rules.take(n - 1));
        if n <= 8 {
            lemma_inserted_at(before, x, le, n - 1);
            assert(before.insert(n - 1, x) =~= rules.take(n));
        } else {
            if n == 9 {
                assert(before =~= rules.subrange(8, 8) + rules.take(8));
            }
            assert forall|j: int| n - 9 <= j < before.len() implies !le(#[trigger] before[j], x) by {
                assert(before[j] == rules[j - (n - 9)]);
            }
            if n > 9 {
                assert(before[n - 10] == rules[n - 2]);
            }
            lemma_inserted_at(before, x, le, n - 9);
            assert(before.insert(n - 9, x) =~= rules.subrange(8, n) + rules.take(8));
        }
    }
}

/// The rules that the seeds store in an empty table are, in order of
/// evaluation, those of a fresh installation.
pub proof fn law_seeds_make_a_fresh_policy(
    rules: Seq<ApprovalRule>,
    defaults: Seq<NewApprovalRule>,
    data: Seq<NewApprovalRule>,
    secrets: Seq<NewApprovalRule>,
)
    requires
        defaults.len() == guarded_tools().len() + 1,
        forall|i: int|
            0 <= i < guarded_tools().len() ==> is_seed(
                #[trigger] defaults[i],
                guarded_tools()[i],
                None,
                RuleAction::Require,
                "default rule"@,
                10,
            ),
        is_catch_all(defaults.last()),
        data.len() == file_write_tools().len(),
        forall|i: int|
            0 <= i < data.len() ==> is_seed(
                #[trigger] data[i],
                file_write_tools()[i],
                Some("data/*"@),
                RuleAction::Allow,
                "auto-allow data/ writes"@,
                5,
            ),
        denies_secrets(secrets, file_read_tools().len() as int),
        rules.len() == (defaults + data + secrets).len(),
        forall|i: int|
            0 <= i < rules.len() ==> is_stored(#[trigger] rules[i], (defaults + data + secrets)[i]),
    ensures
        is_fresh_policy(rules_in_order(rules, None)),
{
    let seeds = defaults + data + secrets;
    let pred = of_group("default"@);
    assert forall|i: int| 0 <= i < 8 implies (#[trigger] seeds[i]) == defaults[i] by {}
    assert forall|i: int| 8 <= i < 12 implies (#[trigger] seeds[i]) == data[i - 8] by {}
    assert forall|i: int| 12 <= i < 22 implies (#[trigger] seeds[i]) == secrets[i - 12] by {}
    assert forall|i: int| 0 <= i < rules.len() implies pred(#[trigger] rules[i]) && (rules[i].priority
        == if i < 7 {
        10i64
    } else if i == 7 {
        9999i64
    } else {
        5i64
    }) by {
        assert(is_stored(rules[i], seeds[i]));
        if i < 7 {
            assert(seeds[i] == defaults[i]);
        } else if i == 7 {
            assert(seeds[i] == defaults.last());
        } else if i < 12 {
            assert(seeds[i] == data[i - 8]);
        } else {
            assert(seeds[i] == secrets[i - 12]);
        }
    }
    lemma_filter_all(rules, pred);
    lemma_seeds_sorted(rules, 22);
    assert(rules.take(22) =~= rules);
    let ordered = rules_in_order(rules, None);
    assert(ordered == rules.subrange(8, 22) + rules.take(8));
    assert forall|i: int| 0 <= i < 4 implies stored_as(
        #[trigger] ordered[i],
        file_write_tools()[i],
        Some("data/*"@),
        RuleAction::Allow,
    ) by {
        assert(ordered[i] == rules[i + 8]);
        assert(is_stored(rules[i + 8], seeds[i + 8]));
        assert(seeds[i + 8] == data[i]);
    }
    assert forall|i: int| 4 <= i < 14 implies stored_as(
        #[trigger] ordered[i],
        file_read_tools()[(i - 4) / 2],
        Some(secret_patterns()[(i - 4) % 2]),
        RuleAction::Deny,
    ) by {
        assert(ordered[i] == rules[i + 8]);
        assert(is_stored(rules[i + 8], seeds[i + 8]));
        assert(seeds[i + 8] == secrets[i - 4]);
    }
    assert forall|i: int| 14 <= i < 21 implies stored_as(
        #[trigger] ordered[i],
        guarded_tools()[i - 14],
        None,
        RuleAction::Require,
    ) by {
        assert(ordered[i] == rules[i - 14]);
        assert(is_stored(rules[i - 14], seeds[i - 14]));
        assert(seeds[i - 14] == defaults[i - 14]);
    }
    assert(ordered[21] == rules[7]);
    assert(is_stored(rules[7], seeds[7]));
    assert(seeds[7] == defaults.last());
}

/// Under the rules of a fresh installation nothing reads `secrets` by a file
/// tool: a call is denied wherever its path leads there, in whatever words and
/// whatever bypasses are active.
pub proof fn law_secrets_are_not_read(
    rules: Seq<ApprovalRule>,
    call: GateCall,
    path: Seq<char>,
    cwd: Seq<char>,
    answers: Seq<Option<String>>,
)
    requires
        is_fresh_policy(rules),
        file_read_tools().contains(call.tool_name@),
        call.path@ == rule_path(path, cwd, answers),
        is_secret_path(rule_path(path, cwd, answers)),
    ensures
        first_action(rules, call) == Some(RuleAction::Deny),
        ruling(Some(rules), call) == GateResult::Deny,
        forall|bypasses: Seq<ApprovalBypass>, session: i64, category: Option<ToolCategory>, now: u64|
            #[trigger] gate_decision(
                ruling(Some(rules), call),
                bypasses,
                session,
                category,
                call.tool_name@,
                now,
            ) == GateResult::Deny,
{
    law_fresh_policy_decides(rules, call);
    law_write_and_read_tools_differ(call.tool_name@);
}

/// A path such as `docs/../secrets/x` does not evade the rules on `secrets`.
pub proof fn law_detours_into_secrets_are_denied(
    rules: Seq<ApprovalRule>,
    call: GateCall,
    detour: Seq<char>,
    name: Seq<char>,
    cwd: Seq<char>,
    answers: Seq<Option<String>>,
)
    requires
        is_fresh_policy(rules),
        file_read_tools().contains(call.tool_name@),
        is_absolute(cwd),
        holds_no_steps(components(cwd)),
        is_plain(seq![detour, name]),
        holds_no_steps(seq![detour, name]),
        answers.len() <= components(cwd).len() + 2,
        first_answer(answers) matches Some(i) ==> components(answers[i]->Some_0@) == (
        components(cwd) + seq!["secrets"@, name]).take(components(cwd).len() + 2 - i),
        call.path@ == rule_path(detour + "/../secrets/"@ + name, cwd, answers),
    ensures
        call.path@ == "secrets/"@ + name,
        first_action(rules, call) == Some(RuleAction::Deny),
        ruling(Some(rules), call) == GateResult::Deny,
{
    reveal_strlit("secrets");
    reveal_strlit("secrets/");
    reveal_strlit("/../secrets/");
    reveal_strlit("/../");
    reveal_strlit("/");
    reveal_strlit(".");
    reveal_strlit("..");
    let given = seq![detour, name];
    let all = seq![detour, "secrets"@, name];
    assert("secrets"@ != "."@ && "secrets"@ != ".."@) by {
        assert("secrets"@.len() == 7);
    }
    assert forall|i: int| 0 <= i < all.len() implies is_named(#[trigger] all[i]) && has_no_slash(
        all[i],
    ) && all[i] != "."@ && all[i] != ".."@ by {
        if i == 0 {
            assert(all[i] == given[0]);
        } else if i == 2 {
            assert(all[i] == given[1]);
        }
    }
    law_detours_are_seen_through(detour, "secrets"@, name, cwd, answers);
    assert("secrets"@ + "/"@ =~= "secrets/"@);
    assert(detour + "/../secrets/"@ + name =~= detour + "/../"@ + "secrets"@ + "/"@ + name);
    assert(("secrets/"@ + name).take("secrets/"@.len() as int) =~= "secrets/"@);
    law_secrets_are_not_read(rules, call, detour + "/../secrets/"@ + name, cwd, answers);
}

/// The rules of a fresh installation: seven tools need approval, and every
/// other is allowed by the rule that is tried last. Where there are rules
/// already, none are added.
pub proof fn law_seeded_defaults(count: i64, r: Vec<NewApprovalRule>, i: int)
    requires
        call_ensures(seed_defaults, (count,), r),
    ensures
        r@.len() == if count > 0 {
            0int
        } else {
            8int
        },
        count <= 0 ==> {
            &&& r@[0].tool_pattern@ == "execute_cmd"@
            &&& r@[1].tool_pattern@ == "restart"@
            &&& r@[2].tool_pattern@ == "write_file"@
            &&& r@[3].tool_pattern@ == "edit_file"@
            &&& r@[4].tool_pattern@ == "insert_at_line"@
            &&& r@[5].tool_pattern@ == "replace_lines"@
            &&& r@[6].tool_pattern@ == "mobile_start_pairing"@
            &&& r@[7].tool_pattern@ == "*"@ && r@[7].action is Allow && r@[7].priority == Some(
                9999i64,
            ) && r@[7].agent_id is None && r@[7].source is None && r@[7].path_pattern is None
        },
        count <= 0 && 0 <= i < 7 ==> r@[i].action is Require && r@[i].priority == Some(10i64)
            && r@[i].agent_id is None && r@[i].source is None && r@[i].path_pattern is None
            && r@[i].group_id is Some && r@[i].group_id->Some_0@ == "default"@,
{
    if count <= 0 {
        let g = guarded_tools();
        assert(g[0] == "execute_cmd"@ && g[1] == "restart"@ && g[2] == "write_file"@ && g[3]
            == "edit_file"@ && g[4] == "insert_at_line"@ && g[5] == "replace_lines"@ && g[6]
            == "mobile_start_pairing"@);
        assert(is_seed(r@[0], g[0], None, RuleAction::Require, "default rule"@, 10));
        assert(is_seed(r@[1], g[1], None, RuleAction::Require, "default rule"@, 10));
        assert(is_seed(r@[2], g[2], None, RuleAction::Require, "default rule"@, 10));
        assert(is_seed(r@[3], g[3], None, RuleAction::Require, "default rule"@, 10));
        assert(is_seed(r@[4], g[4], None, RuleAction::Require, "default rule"@, 10));
        assert(is_seed(r@[5], g[5], None, RuleAction::Require, "default rule"@, 10));
        assert(is_seed(r@[6], g[6], None, RuleAction::Require, "default rule"@, 10));
        assert(r@[7] == r@.last());
        if 0 <= i < 7 {
            assert(is_seed(r@[i], g[i], None, RuleAction::Require, "default rule"@, 10));
        }
    }
}

/// The rules on paths of a fresh installation: writing below `data/` is allowed
/// to each tool that writes files, and reading `secrets` or below it is denied
/// to each that reads them.
pub proof fn law_seeded_paths(
    count: i64,
    data: Vec<NewApprovalRule>,
    secrets: Vec<NewApprovalRule>,
    tool: &str,
    writes: bool,
    reads: bool,
    i: int,
)
    requires
        call_ensures(seed_data_path_rules, (count,), data),
        call_ensures(seed_secrets_deny_rules, (count,), secrets),
        call_ensures(crate::tools::is_file_write_tool, (tool,), writes),
        call_ensures(crate::tools::is_file_read_tool, (tool,), reads),
    ensures
        count > 0 ==> data@.len() == 0 && secrets@.len() == 0,
        count <= 0 && 0 <= i < data@.len() ==> data@[i].action is Allow && data@[i].priority == Some(
            5i64,
        ) && data@[i].path_pattern is Some && data@[i].path_pattern->Some_0@ == "data/*"@
            && data@[i].agent_id is None && data@[i].source is None,
        count <= 0 && 0 <= i < secrets@.len() ==> secrets@[i].action is Deny && secrets@[i].priority
            == Some(5i64) && secrets@[i].path_pattern is Some && (
        secrets@[i].path_pattern->Some_0@ == "secrets"@ || secrets@[i].path_pattern->Some_0@
            == "secrets/*"@) && secrets@[i].agent_id is None && secrets@[i].source is None,
        count <= 0 && writes ==> exists|k: int|
            0 <= k < data@.len() && (#[trigger] data@[k]).tool_pattern@ == tool@,
        count <= 0 && reads ==> exists|k: int|
            0 <= k < secrets@.len() && (#[trigger] secrets@[k]).tool_pattern@ == tool@
                && secrets@[k].path_pattern->Some_0@ == "secrets/*"@,
        count <= 0 && reads ==> exists|k: int|
            0 <= k < secrets@.len() && (#[trigger] secrets@[k]).tool_pattern@ == tool@
                && secrets@[k].path_pattern->Some_0@ == "secrets"@,
{
    if count <= 0 {
        let p = secret_patterns();
        assert(p[0] == "secrets"@ && p[1] == "secrets/*"@);
        if 0 <= i < data@.len() {
            assert(is_seed(
                data@[i],
                file_write_tools()[i],
                Some("data/*"@),
                RuleAction::Allow,
                "auto-allow data/ writes"@,
                5,
            ));
        }
        if 0 <= i < secrets@.len() {
            assert(i % 2 == 0 || i % 2 == 1);
            assert(is_seed(
                secrets@[i],
                file_read_tools()[i / 2],
                Some(p[i % 2]),
                RuleAction::Deny,
                "deny reading secrets/"@,
                5,
            ));
        }
        if writes {
            let k = file_write_tools().index_of(tool@);
            assert(is_seed(
                data@[k],
                file_write_tools()[k],
                Some("data/*"@),
                RuleAction::Allow,
                "auto-allow data/ writes"@,
                5,
            ));
        }
        if reads {
            let k = file_read_tools().index_of(tool@);
            let a = 2 * k;
            let b = 2 * k + 1;
            assert(a / 2 == k && a % 2 == 0 && b / 2 == k && b % 2 == 1);
            assert(is_seed(
                secrets@[a],
                file_read_tools()[a / 2],
                Some(p[a % 2]),
                RuleAction::Deny,
                "deny reading secrets/"@,
                5,
            ));
            assert(is_seed(
                secrets@[b],
                file_read_tools()[b / 2],
                Some(p[b % 2]),
                RuleAction::Deny,
                "deny reading secrets/"@,
                5,
            ));
        }
    }
}

/// The catch-all is added exactly where there are no rules.
pub proof fn law_the_catch_all(count: i64, r: Option<NewApprovalRule>)
    requires
        call_ensures(seed_allow_all_default, (count,), r),
    ensures
        r is Some <==> count <= 0,
        r matches Some(q) ==> q.tool_pattern@ == "*"@ && q.action is Allow && q.priority == Some(
            9999i64,
        ) && q.path_pattern is None && q.agent_id is None && q.source is None,
{
}

/// What a fresh installation decides: reading secrets is denied, writing below
/// `data/` allowed, the seven guarded tools need approval, and anything else is
/// allowed.
pub proof fn law_fresh_decisions(
    rules: &Vec<ApprovalRule>,
    call: &GateCall,
    r: Option<RuleAction>,
    tool: &str,
    writes: bool,
    reads: bool,
)
    requires
        is_fresh_policy(rules@),
        call_ensures(crate::approval::rules::first_rule_action, (rules, call), r),
        tool@ == call.tool_name@,
        call_ensures(crate::tools::is_file_write_tool, (tool,), writes),
        call_ensures(crate::tools::is_file_read_tool, (tool,), reads),
    ensures
        ({
            let secret = call.path@ == "secrets"@ || has_prefix(call.path@, "secrets/"@);
            let data = has_prefix(call.path@, "data/"@);
            let guarded = tool@ == "execute_cmd"@ || tool@ == "restart"@ || tool@ == "write_file"@
                || tool@ == "edit_file"@ || tool@ == "insert_at_line"@ || tool@ == "replace_lines"@
                || tool@ == "mobile_start_pairing"@;
            &&& reads && secret ==> r == Some(RuleAction::Deny)
            &&& writes && data ==> r == Some(RuleAction::Allow)
            &&& guarded && !(writes && data) ==> r == Some(RuleAction::Require)
            &&& !guarded && !(reads && secret) ==> r == Some(RuleAction::Allow)
        }),
{
    law_fresh_policy_decides(rules@, *call);
    law_write_and_read_tools_differ(tool@);
    let g = guarded_tools();
    assert(g[0] == "execute_cmd"@ && g[1] == "restart"@ && g[2] == "write_file"@ && g[3]
        == "edit_file"@ && g[4] == "insert_at_line"@ && g[5] == "replace_lines"@ && g[6]
        == "mobile_start_pairing"@ && g.len() == 7);
    if g.contains(tool@) {
        assert(g[g.index_of(tool@)] == tool@);
    }
    let f = file_read_tools();
    assert(f[0] == "read_file"@ && f[1] == "grep_files"@ && f[2] == "list_files"@ && f[3]
        == "search_file"@ && f[4] == "get_ast_outline"@ && f.len() == 5);
    if f.contains(tool@) {
        assert(f[f.index_of(tool@)] == tool@);
    }
    let w = file_write_tools();
    assert(w[0] == "write_file"@ && w[1] == "edit_file"@ && w[2] == "insert_at_line"@ && w[3]
        == "replace_lines"@ && w.len() == 4);
    if w.contains(tool@) {
        assert(w[w.index_of(tool@)] == tool@);
    }
    reveal_strlit("execute_cmd");
    reveal_strlit("restart");
    reveal_strlit("mobile_start_pairing");
    reveal_strlit("read_file");
    reveal_strlit("grep_files");
    reveal_strlit("list_files");
    reveal_strlit("search_file");
    reveal_strlit("get_ast_outline");
    assert("execute_cmd"@.len() == 11 && "restart"@.len() == 7 && "mobile_start_pairing"@.len()
        == 20 && "read_file"@.len() == 9 && "grep_files"@.len() == 10 && "list_files"@.len() == 10
        && "search_file"@.len() == 11 && "get_ast_outline"@.len() == 15);
    assert("execute_cmd"@[0] == 'e' && "search_file"@[0] == 's');
    if f.contains(tool@) && g.contains(tool@) {
        assert(w.contains(w[0]) && w.contains(w[1]) && w.contains(w[2]) && w.contains(w[3]));
    }
}

} // verus!
