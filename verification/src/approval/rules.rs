//! Approval rules and how they match a tool call.
use vstd::prelude::*;

use crate::json::{Json, JsonView};
use crate::paths::{
    ancestor_count, canonicalize_for_policy, normalize_path, policy_parts, rule_path,
};
use crate::text::{
    chars_of, find, find_in, has_prefix, opt_text, or_text, starts_with, str_eq, string_of,
    strip_prefix, text_or,
};
use crate::tools::{file_write_tools, is_file_write_tool};

verus! {

broadcast use vstd::seq_lib::group_seq_properties;

/// What the guardian concludes for a given tool call.
#[derive(Debug, Clone, Copy, PartialEq, Eq, Structural)]
pub enum GateResult {
    /// Execute freely.
    Allow,
    /// Reject at once, without asking.
    Deny,
    /// Ask the human before executing.
    Require,
}

/// The action of a rule.
#[derive(Debug, Clone, Copy, PartialEq, Eq, Structural)]
pub enum RuleAction {
    /// Always require human approval.
    Require,
    /// Always allow.
    Allow,
    /// Always deny.
    Deny,
}

impl RuleAction {
    /// The name of the action.
    pub open spec fn name(self) -> Seq<char> {
        match self {
            RuleAction::Require => "require"@,
            RuleAction::Allow => "allow"@,
            RuleAction::Deny => "deny"@,
        }
    }

    /// What happens with a call that a rule of this action matches.
    pub open spec fn gate(self) -> GateResult {
        match self {
            RuleAction::Require => GateResult::Require,
            RuleAction::Allow => GateResult::Allow,
            RuleAction::Deny => GateResult::Deny,
        }
    }

    pub fn as_str(&self) -> (r: &'static str)
        ensures
            r@ == self.name(),
    {
        match self {
            RuleAction::Require => "require",
            RuleAction::Allow => "allow",
            RuleAction::Deny => "deny",
        }
    }

    /// The action of that name; for any other text the error that names it.
    pub fn from_str(s: &str) -> (r: Result<RuleAction, String>)
        ensures
            match r {
                Ok(a) => a.name() == s@,
                Err(e) => s@ != "require"@ && s@ != "allow"@ && s@ != "deny"@ && e@
                    == "unknown RuleAction: "@ + s@,
            },
    {
        if str_eq(s, "require") {
            Ok(RuleAction::Require)
        } else if str_eq(s, "allow") {
            Ok(RuleAction::Allow)
        } else if str_eq(s, "deny") {
            Ok(RuleAction::Deny)
        } else {
            let mut e: String = "unknown RuleAction: ".to_owned();
            e.append(s);
            Err(e)
        }
    }

    pub fn to_gate(&self) -> (r: GateResult)
        ensures
            r == self.gate(),
    {
        match self {
            RuleAction::Require => GateResult::Require,
            RuleAction::Allow => GateResult::Allow,
            RuleAction::Deny => GateResult::Deny,
        }
    }
}

/// Reading the name of an action gives the action back.
pub proof fn law_action_names_differ(a: RuleAction, b: RuleAction)
    ensures
        a.name() == b.name() ==> a == b,
{
    reveal_strlit("require");
    reveal_strlit("allow");
    reveal_strlit("deny");
    assert("require"@.len() == 7 && "allow"@.len() == 5 && "deny"@.len() == 4);
}

/// One approval rule.
#[derive(Debug, Clone)]
pub struct ApprovalRule {
    pub id: i64,
    /// `None` matches any agent.
    pub agent_id: Option<String>,
    /// `None` matches any source (`web`, `telegram`, `cron`, …).
    pub source: Option<String>,
    /// An exact tool name, or a prefix followed by `*`.
    pub tool_pattern: String,
    /// An optional pattern on the normalised file path; `None` matches any
    /// path and calls without one.
    pub path_pattern: Option<String>,
    pub action: RuleAction,
    pub note: Option<String>,
    /// A lower number is evaluated first.
    pub priority: i64,
    /// The permission group; `None` is treated as `default`.
    pub group_id: Option<String>,
}

/// Input for creating a rule.
#[derive(Debug, Clone)]
pub struct NewApprovalRule {
    pub agent_id: Option<String>,
    pub source: Option<String>,
    pub tool_pattern: String,
    pub path_pattern: Option<String>,
    pub action: RuleAction,
    pub note: Option<String>,
    pub priority: Option<i64>,
    /// Defaults to `default` when omitted.
    pub group_id: Option<String>,
}

/// A tool call as the rules see it.
#[derive(Debug, Clone)]
pub struct GateCall {
    pub agent_id: String,
    pub source: String,
    pub tool_name: String,
    /// The call's `path` argument in the form that rules match.
    pub path: String,
}

/// The `path` argument of a call; empty where it has none.
pub open spec fn path_argument(args: JsonView) -> Seq<char> {
    or_text(args.field("path"@).as_text(), ""@)
}

/// The path that the guardian judges.
pub fn gate_path(args: &Json) -> (r: String)
    ensures
        r@ == path_argument(args@),
{
    text_or(args.text_field("path"), "")
}

/// A tool call as the rules see it. `cwd` is the working directory, and
/// `answers` holds what canonicalising the ancestors of the call's path gave,
/// as [`canonicalize_for_policy`] takes them.
pub fn gate_call(
    agent: &str,
    source: &str,
    tool: &str,
    args: &Json,
    cwd: &str,
    answers: &Vec<Option<String>>,
) -> (r: GateCall)
    requires
        answers@.len() <= ancestor_count(policy_parts(path_argument(args@), cwd@)),
    ensures
        r.agent_id@ == agent@,
        r.source@ == source@,
        r.tool_name@ == tool@,
        r.path@ == rule_path(path_argument(args@), cwd@, answers@),
{
    let path: String = gate_path(args);
    let canon: String = canonicalize_for_policy(path.as_str(), cwd, answers);
    GateCall {
        agent_id: agent.to_owned(),
        source: source.to_owned(),
        tool_name: tool.to_owned(),
        path: normalize_path(canon.as_str(), cwd),
    }
}

/// Whether a name matches an exact pattern or a prefix followed by `*`.
pub open spec fn matches_pattern(pattern: Seq<char>, name: Seq<char>) -> bool {
    if pattern.len() > 0 && pattern.last() == '*' {
        has_prefix(name, pattern.drop_last())
    } else {
        pattern == name
    }
}

/// Whether an optional filter lets a value through.
pub open spec fn passes(filter: Option<String>, value: Seq<char>) -> bool {
    match filter {
        Some(f) => f@ == value,
        None => true,
    }
}

/// Whether a rule applies to a call.
pub open spec fn applies(rule: ApprovalRule, call: GateCall) -> bool {
    &&& passes(rule.agent_id, call.agent_id@)
    &&& passes(rule.source, call.source@)
    &&& matches_pattern(rule.tool_pattern@, call.tool_name@)
    &&& match rule.path_pattern {
        Some(pp) => matches_pattern(pp@, call.path@),
        None => true,
    }
}

/// The action of the first rule that applies to a call.
pub open spec fn first_action(rules: Seq<ApprovalRule>, call: GateCall) -> Option<RuleAction>
    decreases rules.len(),
{
    if rules.len() == 0 {
        None
    } else if applies(rules[0], call) {
        Some(rules[0].action)
    } else {
        first_action(rules.skip(1), call)
    }
}

/// The action of the first rule whose tool pattern matches a tool.
pub open spec fn first_tool_action(rules: Seq<ApprovalRule>, tool: Seq<char>) -> Option<RuleAction>
    decreases rules.len(),
{
    if rules.len() == 0 {
        None
    } else if matches_pattern(rules[0].tool_pattern@, tool) {
        Some(rules[0].action)
    } else {
        first_tool_action(rules.skip(1), tool)
    }
}

/// Whether a call writes a file under `memory/`.
pub open spec fn writes_memory(call: GateCall) -> bool {
    file_write_tools().contains(call.tool_name@) && has_prefix(call.path@, "memory/"@)
}

/// What the rules alone say of a call. `None` stands for rules that could not
/// be loaded.
pub open spec fn ruling(rules: Option<Seq<ApprovalRule>>, call: GateCall) -> GateResult {
    if writes_memory(call) {
        GateResult::Allow
    } else {
        match rules {
            None => GateResult::Allow,
            Some(rs) => match first_action(rs, call) {
                Some(a) => a.gate(),
                None => GateResult::Require,
            },
        }
    }
}

/// The MCP server in a tool name of the form `mcp__<server>__<tool>`.
pub open spec fn mcp_server_of(name: Seq<char>) -> Option<Seq<char>> {
    if has_prefix(name, "mcp__"@) {
        let rest = name.skip("mcp__"@.len() as int);
        match find(rest, "__"@) {
            Some(i) => Some(rest.take(i)),
            None => None,
        }
    } else {
        None
    }
}

/// Matches an exact name or a `prefix*` glob.
pub fn pattern_matches(pattern: &str, tool_name: &str) -> (r: bool)
    ensures
        r == matches_pattern(pattern@, tool_name@),
{
    let p: Vec<char> = chars_of(pattern);
    let n: usize = p.len();
    if n > 0 && p[n - 1] == '*' {
        let prefix: String = string_of(&p, 0, n - 1);
        assert(p@.subrange(0, n - 1) =~= p@.drop_last());
        starts_with(tool_name, prefix.as_str())
    } else {
        str_eq(pattern, tool_name)
    }
}

/// Extracts the MCP server name from a tool name.
pub fn mcp_server_from_tool_name(name: &str) -> (r: Option<String>)
    ensures
        opt_text(r) == mcp_server_of(name@),
{
    match strip_prefix(name, "mcp__") {
        None => None,
        Some(rest) => {
            let v: Vec<char> = chars_of(rest.as_str());
            let sep: Vec<char> = chars_of("__");
            proof {
                crate::text::lemma_find_from(rest@, "__"@, 0);
            }
            match find_in(&v, &sep, 0) {
                None => None,
                Some(i) => {
                    assert(v@.subrange(0, i as int) =~= v@.take(i as int));
                    Some(string_of(&v, 0, i))
                },
            }
        },
    }
}

fn filter_passes(filter: &Option<String>, value: &str) -> (r: bool)
    ensures
        r == passes(*filter, value@),
{
    match filter {
        Some(f) => str_eq(f.as_str(), value),
        None => true,
    }
}

/// Whether the rule applies to the call.
pub fn rule_matches(rule: &ApprovalRule, call: &GateCall) -> (r: bool)
    ensures
        r == applies(*rule, *call),
{
    if !filter_passes(&rule.agent_id, call.agent_id.as_str()) {
        return false;
    }
    if !filter_passes(&rule.source, call.source.as_str()) {
        return false;
    }
    if !pattern_matches(rule.tool_pattern.as_str(), call.tool_name.as_str()) {
        return false;
    }
    match &rule.path_pattern {
        Some(pp) => pattern_matches(pp.as_str(), call.path.as_str()),
        None => true,
    }
}

/// Whether the call is a file write under `memory/`. Such writes are always
/// approved.
pub fn is_memory_path(call: &GateCall) -> (r: bool)
    ensures
        r == writes_memory(*call),
{
    is_file_write_tool(call.tool_name.as_str()) && starts_with(call.path.as_str(), "memory/")
}

/// The action of the first rule that applies to the call.
pub fn first_rule_action(rules: &Vec<ApprovalRule>, call: &GateCall) -> (r: Option<RuleAction>)
    ensures
        r == first_action(rules@, *call),
{
    let mut i: usize = 0;
    assert(rules@.skip(0) =~= rules@);
    while i < rules.len()
        invariant
            i <= rules@.len(),
            first_action(rules@, *call) == first_action(rules@.skip(i as int), *call),
        decreases rules@.len() - i,
    {
        if rule_matches(&rules[i], call) {
            return Some(rules[i].action);
        }
        assert(rules@.skip(i as int).skip(1) =~= rules@.skip(i + 1));
        i = i + 1;
    }
    None
}

/// Whether a tool is offered at all: it is unless the first rule whose tool
/// pattern matches it denies it. Path, agent and source filters play no part.
pub fn is_tool_visible(rules: &Vec<ApprovalRule>, tool_name: &str) -> (r: bool)
    ensures
        r == (first_tool_action(rules@, tool_name@) != Some(RuleAction::Deny)),
{
    match check_tool_visibility(rules, tool_name) {
        Some(a) => a != RuleAction::Deny,
        None => true,
    }
}

/// The action of the first rule whose tool pattern matches the tool; `None`
/// where no rule matches and the tool is visible by default.
pub fn check_tool_visibility(rules: &Vec<ApprovalRule>, tool_name: &str) -> (r: Option<RuleAction>)
    ensures
        r == first_tool_action(rules@, tool_name@),
{
    let mut i: usize = 0;
    assert(rules@.skip(0) =~= rules@);
    while i < rules.len()
        invariant
            i <= rules@.len(),
            first_tool_action(rules@, tool_name@) == first_tool_action(
                rules@.skip(i as int),
                tool_name@,
            ),
        decreases rules@.len() - i,
    {
        if pattern_matches(rules[i].tool_pattern.as_str(), tool_name) {
            return Some(rules[i].action);
        }
        assert(rules@.skip(i as int).skip(1) =~= rules@.skip(i + 1));
        i = i + 1;
    }
    None
}

/// The first rule that applies decides, whatever stands behind it.
pub proof fn law_first_match_wins(
    before: Seq<ApprovalRule>,
    rule: ApprovalRule,
    after: Seq<ApprovalRule>,
    call: GateCall,
)
    requires
        forall|i: int| 0 <= i < before.len() ==> !applies(#[trigger] before[i], call),
        applies(rule, call),
    ensures
        first_action(before.push(rule) + after, call) == Some(rule.action),
    decreases before.len(),
{
    let all = before.push(rule) + after;
    if before.len() == 0 {
        assert(all[0] == rule);
    } else {
        assert(all[0] == before[0]);
        assert(all.skip(1) =~= before.skip(1).push(rule) + after);
        assert forall|i: int| 0 <= i < before.skip(1).len() implies !applies(
            #[trigger] before.skip(1)[i],
            call,
        ) by {
            assert(before.skip(1)[i] == before[i + 1]);
        }
        law_first_match_wins(before.skip(1), rule, after, call);
    }
}

/// A pattern without a star at its end matches its own text and nothing else;
/// one with a star matches exactly what begins with the text before the star.
pub proof fn law_patterns(pattern: &str, name: &str, r: bool, stem: Seq<char>)
    requires
        call_ensures(pattern_matches, (pattern, name), r),
    ensures
        pattern@.len() == 0 || pattern@.last() != '*' ==> r == (pattern@ == name@),
        pattern@ == stem.push('*') ==> r == (exists|t: Seq<char>| name@ == #[trigger] (stem + t)),
{
    if pattern@ == stem.push('*') {
        assert(pattern@.drop_last() =~= stem);
        if r {
            assert(name@ =~= stem + name@.skip(stem.len() as int));
        }
        if exists|t: Seq<char>| name@ == #[trigger] (stem + t) {
            let t = choose|t: Seq<char>| name@ == #[trigger] (stem + t);
            assert(name@.take(stem.len() as int) =~= stem);
        }
    }
}

/// A rule applies to a call exactly where its agent and its source are unset
/// or those of the call, its tool pattern matches the tool's name, and its path
/// pattern is unset or matches the call's path.
pub proof fn law_when_a_rule_applies(
    rule: &ApprovalRule,
    call: &GateCall,
    r: bool,
    tool_pattern: &str,
    tool: &str,
    path_pattern: &str,
    path: &str,
    tool_fits: bool,
    path_fits: bool,
)
    requires
        call_ensures(rule_matches, (rule, call), r),
        call_ensures(pattern_matches, (tool_pattern, tool), tool_fits),
        call_ensures(pattern_matches, (path_pattern, path), path_fits),
        tool_pattern@ == rule.tool_pattern@,
        tool@ == call.tool_name@,
        path@ == call.path@,
        rule.path_pattern matches Some(p) ==> path_pattern@ == p@,
    ensures
        r <==> (rule.agent_id is None || rule.agent_id->Some_0@ == call.agent_id@) && (
        rule.source is None || rule.source->Some_0@ == call.source@) && tool_fits && (
        rule.path_pattern is None || path_fits),
{
}

/// A rule on one tool by its name, for one source, applies to that tool's calls
/// from that source and to no others, whatever their paths are.
pub proof fn law_rules_for_a_source(rule: &ApprovalRule, call: &GateCall, r: bool)
    requires
        call_ensures(rule_matches, (rule, call), r),
        rule.agent_id is None || rule.agent_id->Some_0@ == call.agent_id@,
        rule.tool_pattern@ == call.tool_name@,
        call.tool_name@.len() > 0 ==> call.tool_name@.last() != '*',
        rule.path_pattern is None,
    ensures
        rule.source is None ==> r,
        rule.source matches Some(s) ==> r == (s@ == call.source@),
{
}

/// The first rule that applies decides; one that does not is passed over.
pub proof fn law_rules_are_tried_in_order(
    rules: &Vec<ApprovalRule>,
    rest: &Vec<ApprovalRule>,
    call: &GateCall,
    r: Option<RuleAction>,
    s: Option<RuleAction>,
    fits: bool,
    shown: Option<RuleAction>,
    shown_rest: Option<RuleAction>,
    pattern: &str,
    tool: &str,
    tool_fits: bool,
)
    requires
        call_ensures(first_rule_action, (rules, call), r),
        call_ensures(first_rule_action, (rest, call), s),
        call_ensures(check_tool_visibility, (rules, tool), shown),
        call_ensures(check_tool_visibility, (rest, tool), shown_rest),
        rules@.len() > 0 ==> call_ensures(rule_matches, (&rules@[0], call), fits) && call_ensures(
            pattern_matches,
            (pattern, tool),
            tool_fits,
        ) && pattern@ == rules@[0].tool_pattern@ && rest@ == rules@.skip(1),
    ensures
        rules@.len() == 0 ==> r is None && shown is None,
        rules@.len() > 0 ==> r == if fits {
            Some(rules@[0].action)
        } else {
            s
        },
        rules@.len() > 0 ==> shown == if tool_fits {
            Some(rules@[0].action)
        } else {
            shown_rest
        },
{
}

/// A tool is hidden exactly where the first rule on its name denies it.
pub proof fn law_hidden_tools(rules: &Vec<ApprovalRule>, tool: &str, r: bool, first: Option<RuleAction>)
    requires
        call_ensures(is_tool_visible, (rules, tool), r),
        call_ensures(check_tool_visibility, (rules, tool), first),
    ensures
        !r <==> first == Some(RuleAction::Deny),
{
}

/// What counts as a write to the memory: a tool that writes files, and a path
/// that begins with `memory/`.
pub proof fn law_memory_writes(call: &GateCall, r: bool, tool: &str, writes: bool)
    requires
        call_ensures(is_memory_path, (call,), r),
        call_ensures(is_file_write_tool, (tool,), writes),
        tool@ == call.tool_name@,
    ensures
        r <==> writes && exists|t: Seq<char>| call.path@ == #[trigger] ("memory/"@ + t),
{
    if r {
        assert(call.path@ =~= "memory/"@ + call.path@.skip("memory/"@.len() as int));
    }
    if exists|t: Seq<char>| call.path@ == #[trigger] ("memory/"@ + t) {
        let t = choose|t: Seq<char>| call.path@ == #[trigger] ("memory/"@ + t);
        assert(call.path@.take("memory/"@.len() as int) =~= "memory/"@);
    }
}

/// The server of a tool stands in its name between the mark of MCP tools and
/// the next double underscore.
pub proof fn law_server_of_a_tool(name: &str, r: Option<String>, server: Seq<char>, tool: Seq<char>)
    requires
        call_ensures(mcp_server_from_tool_name, (name,), r),
    ensures
        r matches Some(s) ==> exists|t: Seq<char>|
            name@ == #[trigger] ("mcp__"@ + s@ + "__"@ + t),
        name@ == "mcp__"@ + server + "__"@ + tool && (forall|i: int|
            0 <= i < server.len() ==> #[trigger] (server + "__"@ + tool).subrange(i, i + 2)
                != "__"@) ==> (r matches Some(s) && s@ == server),
{
    reveal_strlit("mcp__");
    reveal_strlit("__");
    let n = "mcp__"@.len() as int;
    let rest = name@.skip(n);
    crate::text::lemma_find_from(rest, "__"@, 0);
    if r is Some {
        let i = find(rest, "__"@).unwrap();
        let t = rest.skip(i + 2);
        assert(rest =~= rest.take(i) + "__"@ + t);
        assert(name@ =~= "mcp__"@ + rest);
        assert(name@ =~= "mcp__"@ + r->Some_0@ + "__"@ + t);
    }
    if name@ == "mcp__"@ + server + "__"@ + tool && (forall|i: int|
        0 <= i < server.len() ==> #[trigger] (server + "__"@ + tool).subrange(i, i + 2) != "__"@) {
        assert(name@.take(n) =~= "mcp__"@);
        assert(rest =~= server + "__"@ + tool);
        let k = server.len() as int;
        assert(rest.subrange(k, k + 2) =~= "__"@);
        assert(crate::text::occurs_at(rest, "__"@, k));
        let i = find(rest, "__"@).unwrap();
        if i < k {
            assert((server + "__"@ + tool).subrange(i, i + 2) != "__"@);
        }
        assert(rest.take(k) =~= server);
    }
}

/// A tool name without the mark of MCP tools belongs to no server.
pub proof fn law_other_tools_have_no_server(name: &str, r: Option<String>, begins: bool, mark: &str)
    requires
        call_ensures(mcp_server_from_tool_name, (name,), r),
        call_ensures(starts_with, (name, mark), begins),
        mark@ == "mcp__"@,
        !begins,
    ensures
        r is None,
{
}

/// What a call is seen as: its agent, source and tool as they are.
pub proof fn law_gate_call(
    agent: &str,
    source: &str,
    tool: &str,
    args: &Json,
    cwd: &str,
    answers: &Vec<Option<String>>,
    r: GateCall,
    path: String,
    text: &str,
    canon: String,
    canon_text: &str,
    form: String,
)
    requires
        call_ensures(gate_call, (agent, source, tool, args, cwd, answers), r),
        call_ensures(gate_path, (args,), path),
        call_ensures(canonicalize_for_policy, (text, cwd, answers), canon),
        call_ensures(normalize_path, (canon_text, cwd), form),
        text@ == path@,
        canon_text@ == canon@,
    ensures
        r.agent_id@ == agent@,
        r.source@ == source@,
        r.tool_name@ == tool@,
        r.path@ == form@,
        path@ == match args@.field("path"@) {
            JsonView::Text(t) => t,
            _ => ""@,
        },
{
}

/// The actions of rules by their names, in both directions, and what each does
/// with a call.
pub proof fn law_actions(a: RuleAction, name: &'static str, gate: GateResult, s: &str, r: Result<RuleAction, String>)
    requires
        call_ensures(RuleAction::as_str, (&a,), name),
        call_ensures(RuleAction::to_gate, (&a,), gate),
        call_ensures(RuleAction::from_str, (s,), r),
    ensures
        a is Require ==> name@ == "require"@ && gate is Require,
        a is Allow ==> name@ == "allow"@ && gate is Allow,
        a is Deny ==> name@ == "deny"@ && gate is Deny,
        r is Ok <==> s@ == "require"@ || s@ == "allow"@ || s@ == "deny"@,
        r matches Ok(b) ==> match b {
            RuleAction::Require => s@ == "require"@,
            RuleAction::Allow => s@ == "allow"@,
            RuleAction::Deny => s@ == "deny"@,
        },
        r matches Err(e) ==> e@ == "unknown RuleAction: "@ + s@,
{
}

} // verus!
