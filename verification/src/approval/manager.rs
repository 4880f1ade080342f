//! The registry of pending approvals and of session bypasses.
use vstd::prelude::*;

use crate::approval::rules::{
    applies, first_rule_action, is_memory_path, mcp_server_from_tool_name, mcp_server_of, ruling,
    writes_memory, ApprovalRule, GateCall, GateResult, RuleAction,
};
use crate::events::{GlobalEvent, ServerEvent};
use crate::text::{lemma_filter_last, opt_text, str_eq, trim, trimmed};
use crate::tools::ToolCategory;

verus! {

broadcast use vstd::seq_lib::group_seq_properties;

/// A human's answer to a pending tool call.
#[derive(Debug, Clone)]
pub enum ApprovalDecision {
    Approved,
    Rejected { note: String },
}

/// The text that a rejected tool call returns to the model.
pub open spec fn rejection_text(note: Seq<char>) -> Seq<char> {
    if trimmed(note).len() == 0 {
        "User rejected this tool call."@
    } else {
        "User rejected this tool call. Reason: "@ + trimmed(note)
    }
}

impl ApprovalDecision {
    /// The tool-result text shown to the model for a human rejection, given
    /// the raw note, which may be empty. Every reject path passes the raw note
    /// and lets this build the message.
    pub fn rejection_message(note: &str) -> (r: String)
        ensures
            r@ == rejection_text(note@),
    {
        let note: String = trim(note);
        if note.as_str().unicode_len() == 0 {
            "User rejected this tool call.".to_owned()
        } else {
            let mut r: String = "User rejected this tool call. Reason: ".to_owned();
            r.append(note.as_str());
            r
        }
    }

    pub fn is_approved(&self) -> (r: bool)
        ensures
            r == (self is Approved),
    {
        match self {
            ApprovalDecision::Approved => true,
            ApprovalDecision::Rejected { .. } => false,
        }
    }
}

/// A pending approval request.
#[derive(Debug, Clone)]
pub struct PendingApprovalInfo {
    pub request_id: i64,
    pub session_id: i64,
    pub tool_call_id: i64,
    pub tool_name: String,
    /// The call's arguments as JSON text.
    pub arguments: String,
    pub agent_id: String,
    pub source: String,
    /// A label for the origin, such as the title of a scheduled job.
    pub context_label: Option<String>,
    /// ISO-8601 timestamp (UTC).
    pub created_at: String,
    /// `None` for MCP tools and unknown tools.
    pub tool_category: Option<ToolCategory>,
    /// `None` for tools that belong to no MCP server.
    pub mcp_server: Option<String>,
}

/// What a session bypass applies to.
#[derive(Debug, Clone)]
pub enum BypassScope {
    /// Every tool.
    All,
    /// The tools of a category.
    Category(ToolCategory),
    /// The tools of an MCP server.
    McpServer(String),
}

/// A bypass granted to a session. It turns a required approval into an
/// allowance; a denial stands.
#[derive(Debug, Clone)]
pub struct ApprovalBypass {
    pub session_id: i64,
    pub scope: BypassScope,
    /// The time in milliseconds from which the bypass no longer holds; `None`
    /// for the rest of the session.
    pub expires_at: Option<u128>,
}

/// What a resolved request hands on: the request, the decision for the session
/// that waits, and the event to publish.
#[derive(Debug, Clone)]
pub struct Resolution {
    pub info: PendingApprovalInfo,
    pub decision: ApprovalDecision,
    pub event: GlobalEvent,
}

/// The pending approvals, oldest first, and the bypasses.
#[derive(Debug, Clone)]
pub struct ApprovalManager {
    pub pending: Vec<PendingApprovalInfo>,
    pub next_id: i64,
    pub bypasses: Vec<ApprovalBypass>,
}

/// Whether a bypass still holds at a time.
pub open spec fn is_live(b: ApprovalBypass, now: u64) -> bool {
    match b.expires_at {
        Some(t) => now < t,
        None => true,
    }
}

/// Whether a scope covers a tool.
pub open spec fn covers(scope: BypassScope, category: Option<ToolCategory>, tool: Seq<char>) -> bool {
    match scope {
        BypassScope::All => true,
        BypassScope::Category(c) => category == Some(c),
        BypassScope::McpServer(server) => mcp_server_of(tool) == Some(server@),
    }
}

/// The bypasses left once the expired ones of a session are dropped.
pub open spec fn pruned(bypasses: Seq<ApprovalBypass>, session_id: i64, now: u64) -> Seq<ApprovalBypass> {
    bypasses.filter(|b: ApprovalBypass| b.session_id != session_id || is_live(b, now))
}

/// Whether a session holds a live bypass that covers a tool.
pub open spec fn bypassed(
    bypasses: Seq<ApprovalBypass>,
    session_id: i64,
    category: Option<ToolCategory>,
    tool: Seq<char>,
    now: u64,
) -> bool {
    exists|i: int|
        0 <= i < bypasses.len() && #[trigger] bypasses[i].session_id == session_id && is_live(
            bypasses[i],
            now,
        ) && covers(bypasses[i].scope, category, tool)
}

/// The decision on a call: the ruling, except that a live bypass turns a required
/// approval into an allowance.
pub open spec fn gate_decision(
    ruled: GateResult,
    bypasses: Seq<ApprovalBypass>,
    session_id: i64,
    category: Option<ToolCategory>,
    tool: Seq<char>,
    now: u64,
) -> GateResult {
    if ruled == GateResult::Require && bypassed(bypasses, session_id, category, tool, now) {
        GateResult::Allow
    } else {
        ruled
    }
}

/// The position of the request with an id.
pub open spec fn request_index(pending: Seq<PendingApprovalInfo>, id: i64) -> Option<int>
    decreases pending.len(),
{
    if pending.len() == 0 {
        None
    } else if pending.last().request_id == id {
        Some(pending.len() - 1)
    } else {
        request_index(pending.drop_last(), id)
    }
}

/// The position of the oldest request for a tool call.
pub open spec fn tool_call_index(pending: Seq<PendingApprovalInfo>, tool_call_id: i64) -> Option<int>
    decreases pending.len(),
{
    if pending.len() == 0 {
        None
    } else {
        match tool_call_index(pending.drop_last(), tool_call_id) {
            Some(i) => Some(i),
            None => if pending.last().tool_call_id == tool_call_id {
                Some(pending.len() - 1)
            } else {
                None
            },
        }
    }
}

proof fn lemma_request_index(pending: Seq<PendingApprovalInfo>, id: i64)
    ensures
        match request_index(pending, id) {
            Some(i) => 0 <= i < pending.len() && pending[i].request_id == id,
            None => forall|j: int| 0 <= j < pending.len() ==> #[trigger] pending[j].request_id != id,
        },
    decreases pending.len(),
{
    if pending.len() > 0 {
        lemma_request_index(pending.drop_last(), id);
        assert forall|j: int| 0 <= j < pending.len() - 1 implies pending[j]
            == pending.drop_last()[j] by {}
    }
}

proof fn lemma_tool_call_index(pending: Seq<PendingApprovalInfo>, tool_call_id: i64)
    ensures
        match tool_call_index(pending, tool_call_id) {
            Some(i) => 0 <= i < pending.len() && pending[i].tool_call_id == tool_call_id && forall|
                j: int,
            |
                0 <= j < i ==> #[trigger] pending[j].tool_call_id != tool_call_id,
            None => forall|j: int|
                0 <= j < pending.len() ==> #[trigger] pending[j].tool_call_id != tool_call_id,
        },
    decreases pending.len(),
{
    if pending.len() > 0 {
        lemma_tool_call_index(pending.drop_last(), tool_call_id);
        assert forall|j: int| 0 <= j < pending.len() - 1 implies pending[j]
            == pending.drop_last()[j] by {}
    }
}

/// The event that announces a resolved request.
pub open spec fn is_resolved_event(e: GlobalEvent, info: PendingApprovalInfo, approved: bool) -> bool {
    &&& e.source == Some(info.source)
    &&& e.session_id == Some(info.session_id)
    &&& e.event == ServerEvent::ApprovalResolved {
        request_id: info.request_id,
        tool_call_id: info.tool_call_id,
        approved,
    }
}

/// Whether a resolution is that of a request by a decision.
pub open spec fn resolves(r: Resolution, info: PendingApprovalInfo, decision: ApprovalDecision) -> bool {
    r.info == info && r.decision == decision && is_resolved_event(
        r.event,
        info,
        decision is Approved,
    )
}

/// The scope of the bypass that goes with a request: its category, else its
/// MCP server, else everything.
pub open spec fn scope_of(info: PendingApprovalInfo) -> BypassScope {
    match info.tool_category {
        Some(c) => BypassScope::Category(c),
        None => match info.mcp_server {
            Some(s) => BypassScope::McpServer(s),
            None => BypassScope::All,
        },
    }
}

/// When a bypass granted now for a number of seconds ends. No number, or
/// zero, is for the rest of the session.
pub open spec fn expiry(now: u64, secs: Option<u64>) -> Option<u128> {
    match secs {
        Some(s) if s > 0 => Some((now + s * 1000) as u128),
        _ => None,
    }
}

impl ApprovalManager {
    /// Requests stand in the order of their ids, and the next id is above all
    /// of them.
    pub open spec fn wf(&self) -> bool {
        &&& self.next_id >= 1
        &&& forall|i: int| 0 <= i < self.pending@.len() ==> 1 <= (#[trigger] self.pending@[i]).request_id < self.next_id
        &&& forall|i: int, j: int|
            0 <= i < j < self.pending@.len() ==> (#[trigger] self.pending@[i]).request_id < (
            #[trigger] self.pending@[j]).request_id
    }

    pub fn new() -> (r: ApprovalManager)
        ensures
            r.wf(),
            r.pending@.len() == 0,
            r.bypasses@.len() == 0,
            r.next_id == 1,
    {
        ApprovalManager { pending: Vec::new(), next_id: 1, bypasses: Vec::new() }
    }

    /// What happens to a tool call. `rules` are those of the call's
    /// permission group in order of evaluation, `None` where they could not be
    /// loaded; `now` is the time in milliseconds. Where the rules require an
    /// approval, the session's expired bypasses are dropped.
    pub fn check(
        &mut self,
        session_id: i64,
        category: Option<ToolCategory>,
        call: &GateCall,
        rules: Option<&Vec<ApprovalRule>>,
        now: u64,
    ) -> (r: GateResult)
        ensures
            ({
                let ruled = ruling(
                    match rules {
                        Some(rs) => Some(rs@),
                        None => None,
                    },
                    *call,
                );
                &&& r == gate_decision(
                    ruled,
                    old(self).bypasses@,
                    session_id,
                    category,
                    call.tool_name@,
                    now,
                )
                &&& final(self).bypasses@ == if ruled == GateResult::Require {
                    pruned(old(self).bypasses@, session_id, now)
                } else {
                    old(self).bypasses@
                }
            }),
            final(self).pending == old(self).pending,
            final(self).next_id == old(self).next_id,
    {
        if is_memory_path(call) {
            return GateResult::Allow;
        }
        let ruled: GateResult = match rules {
            None => {
                return GateResult::Allow;
            },
            Some(rs) => match first_rule_action(rs, call) {
                Some(a) => a.to_gate(),
                None => GateResult::Require,
            },
        };
        if ruled == GateResult::Require {
            self.prune(session_id, now);
            if self.has_bypass(session_id, category, call.tool_name.as_str(), now) {
                proof {
                    lemma_pruned_bypassed(old(self).bypasses@, session_id, category, call.tool_name@, now);
                }
                return GateResult::Allow;
            }
            proof {
                lemma_pruned_bypassed(old(self).bypasses@, session_id, category, call.tool_name@, now);
            }
        }
        ruled
    }

    fn prune(&mut self, session_id: i64, now: u64)
        ensures
            final(self).bypasses@ == pruned(old(self).bypasses@, session_id, now),
            final(self).pending == old(self).pending,
            final(self).next_id == old(self).next_id,
    {
        let ghost keep = |b: ApprovalBypass| b.session_id != session_id || is_live(b, now);
        let ghost all = self.bypasses@;
        let n: usize = self.bypasses.len();
        let mut i: usize = 0;
        let mut k: usize = 0;
        assert(all.take(0).filter(keep) =~= Seq::<ApprovalBypass>::empty()) by {
            reveal(Seq::filter);
        }
        assert(self.bypasses@ =~= all.take(0).filter(keep) + all.skip(0));
        while k < n
            invariant
                n == all.len(),
                k <= n,
                keep == (|b: ApprovalBypass| b.session_id != session_id || is_live(b, now)),
                i == all.take(k as int).filter(keep).len(),
                self.bypasses@ == all.take(k as int).filter(keep) + all.skip(k as int),
                self.pending == old(self).pending,
                self.next_id == old(self).next_id,
            decreases n - k,
        {
            proof {
                assert(all.take(k + 1).drop_last() =~= all.take(k as int));
                lemma_filter_last(all.take(k + 1), keep);
                assert(self.bypasses@[i as int] == all[k as int]);
            }
            let stays: bool = self.bypasses[i].session_id != session_id || bypass_live(
                &self.bypasses[i],
                now,
            );
            if stays {
                assert(self.bypasses@ =~= all.take(k + 1).filter(keep) + all.skip(k + 1));
                i = i + 1;
            } else {
                self.bypasses.remove(i);
                assert(self.bypasses@ =~= all.take(k + 1).filter(keep) + all.skip(k + 1));
            }
            k = k + 1;
        }
        assert(all.take(n as int) =~= all);
        assert(self.bypasses@ =~= all.filter(keep));
    }

    fn has_bypass(
        &self,
        session_id: i64,
        category: Option<ToolCategory>,
        tool_name: &str,
        now: u64,
    ) -> (r: bool)
        ensures
            r == bypassed(self.bypasses@, session_id, category, tool_name@, now),
    {
        let mut i: usize = 0;
        while i < self.bypasses.len()
            invariant
                i <= self.bypasses@.len(),
                forall|j: int|
                    0 <= j < i ==> !(#[trigger] self.bypasses@[j].session_id == session_id && is_live(
                        self.bypasses@[j],
                        now,
                    ) && covers(self.bypasses@[j].scope, category, tool_name@)),
            decreases self.bypasses@.len() - i,
        {
            let b: &ApprovalBypass = &self.bypasses[i];
            if b.session_id == session_id && bypass_live(b, now) && bypass_matches(
                b,
                category,
                tool_name,
            ) {
                assert(self.bypasses@[i as int].session_id == session_id);
                return true;
            }
            i = i + 1;
        }
        false
    }

    /// Registers a pending approval and returns its id with the event that
    /// announces it.
    pub fn register(
        &mut self,
        session_id: i64,
        tool_call_id: i64,
        tool_name: &str,
        arguments: &str,
        agent_id: &str,
        source: &str,
        context_label: Option<String>,
        category: Option<ToolCategory>,
        created_at: &str,
    ) -> (r: (i64, GlobalEvent))
        requires
            old(self).wf(),
            old(self).next_id < i64::MAX,
        ensures
            final(self).wf(),
            r.0 == old(self).next_id,
            final(self).next_id == old(self).next_id + 1,
            final(self).bypasses == old(self).bypasses,
            final(self).pending@.len() == old(self).pending@.len() + 1,
            final(self).pending@.drop_last() == old(self).pending@,
            ({
                let info = final(self).pending@.last();
                &&& info.request_id == r.0
                &&& info.session_id == session_id
                &&& info.tool_call_id == tool_call_id
                &&& info.tool_name@ == tool_name@
                &&& info.arguments@ == arguments@
                &&& info.agent_id@ == agent_id@
                &&& info.source@ == source@
                &&& info.context_label == context_label
                &&& info.created_at@ == created_at@
                &&& info.tool_category == category
                &&& opt_text(info.mcp_server) == mcp_server_of(tool_name@)
            }),
            opt_text(r.1.source) == Some(source@),
            r.1.session_id == Some(session_id),
            r.1.event matches ServerEvent::ApprovalRequested {
                request_id,
                tool_call_id: called,
                tool_name: name,
            } && request_id == r.0 && called == tool_call_id && name@ == tool_name@,
    {
        let request_id: i64 = self.next_id;
        let info: PendingApprovalInfo = PendingApprovalInfo {
            request_id,
            session_id,
            tool_call_id,
            tool_name: tool_name.to_owned(),
            arguments: arguments.to_owned(),
            agent_id: agent_id.to_owned(),
            source: source.to_owned(),
            context_label,
            created_at: created_at.to_owned(),
            tool_category: category,
            mcp_server: mcp_server_from_tool_name(tool_name),
        };
        let ghost before = self.pending@;
        self.next_id = request_id + 1;
        self.pending.push(info);
        assert(self.pending@.drop_last() =~= before);
        let event: GlobalEvent = GlobalEvent {
            source: Some(source.to_owned()),
            session_id: Some(session_id),
            event: ServerEvent::ApprovalRequested {
                request_id,
                tool_call_id,
                tool_name: tool_name.to_owned(),
            },
        };
        (request_id, event)
    }

    fn index_of(&self, request_id: i64) -> (r: Option<usize>)
        ensures
            match r {
                Some(i) => request_index(self.pending@, request_id) == Some(i as int),
                None => request_index(self.pending@, request_id) is None,
            },
    {
        let mut i: usize = self.pending.len();
        assert(self.pending@.take(i as int) =~= self.pending@);
        while i > 0
            invariant
                i <= self.pending@.len(),
                request_index(self.pending@, request_id) == request_index(
                    self.pending@.take(i as int),
                    request_id,
                ),
            decreases i,
        {
            i = i - 1;
            assert(self.pending@.take(i + 1).drop_last() =~= self.pending@.take(i as int));
            if self.pending[i].request_id == request_id {
                return Some(i);
            }
        }
        None
    }

    fn take_at(&mut self, i: usize, decision: ApprovalDecision) -> (r: Resolution)
        requires
            i < old(self).pending@.len(),
        ensures
            resolves(r, old(self).pending@[i as int], decision),
            final(self).pending@ == old(self).pending@.remove(i as int),
            final(self).bypasses == old(self).bypasses,
            final(self).next_id == old(self).next_id,
            old(self).wf() ==> final(self).wf(),
    {
        let approved: bool = decision.is_approved();
        let info: PendingApprovalInfo = self.pending.remove(i);
        let event: GlobalEvent = GlobalEvent {
            source: Some(info.source.clone()),
            session_id: Some(info.session_id),
            event: ServerEvent::ApprovalResolved {
                request_id: info.request_id,
                tool_call_id: info.tool_call_id,
                approved,
            },
        };
        Resolution { info, decision, event }
    }

    /// Resolves a pending approval: it leaves the registry, and the decision
    /// and the event are handed on. An unknown or resolved id changes nothing.
    pub fn resolve(&mut self, request_id: i64, decision: ApprovalDecision) -> (r: Option<Resolution>)
        ensures
            match request_index(old(self).pending@, request_id) {
                Some(i) => r is Some && resolves(r.unwrap(), old(self).pending@[i], decision)
                    && final(self).pending@ == old(self).pending@.remove(i),
                None => r is None && final(self).pending == old(self).pending,
            },
            final(self).bypasses == old(self).bypasses,
            final(self).next_id == old(self).next_id,
            old(self).wf() ==> final(self).wf(),
    {
        proof {
            lemma_request_index(self.pending@, request_id);
        }
        match self.index_of(request_id) {
            Some(i) => Some(self.take_at(i, decision)),
            None => None,
        }
    }

    /// Approves a pending request.
    pub fn approve(&mut self, request_id: i64) -> (r: Option<Resolution>)
        ensures
            match request_index(old(self).pending@, request_id) {
                Some(i) => r is Some && resolves(
                    r.unwrap(),
                    old(self).pending@[i],
                    ApprovalDecision::Approved,
                ) && final(self).pending@ == old(self).pending@.remove(i),
                None => r is None && final(self).pending == old(self).pending,
            },
            final(self).bypasses == old(self).bypasses,
            final(self).next_id == old(self).next_id,
            old(self).wf() ==> final(self).wf(),
    {
        self.resolve(request_id, ApprovalDecision::Approved)
    }

    /// Rejects a pending request with a note, which may be empty.
    pub fn reject(&mut self, request_id: i64, note: String) -> (r: Option<Resolution>)
        ensures
            match request_index(old(self).pending@, request_id) {
                Some(i) => r is Some && resolves(
                    r.unwrap(),
                    old(self).pending@[i],
                    ApprovalDecision::Rejected { note },
                ) && final(self).pending@ == old(self).pending@.remove(i),
                None => r is None && final(self).pending == old(self).pending,
            },
            final(self).bypasses == old(self).bypasses,
            final(self).next_id == old(self).next_id,
            old(self).wf() ==> final(self).wf(),
    {
        self.resolve(request_id, ApprovalDecision::Rejected { note })
    }

    /// Resolves the pending approval of a tool call. `None` where no request
    /// for it is pending.
    pub fn resolve_for_tool_call(&mut self, tool_call_id: i64, decision: ApprovalDecision) -> (r: Option<
        Resolution,
    >)
        ensures
            match tool_call_index(old(self).pending@, tool_call_id) {
                Some(i) => r is Some && resolves(r.unwrap(), old(self).pending@[i], decision)
                    && final(self).pending@ == old(self).pending@.remove(i),
                None => r is None && final(self).pending == old(self).pending,
            },
            final(self).bypasses == old(self).bypasses,
            final(self).next_id == old(self).next_id,
            old(self).wf() ==> final(self).wf(),
    {
        let ghost all = self.pending@;
        let mut i: usize = 0;
        while i < self.pending.len()
            invariant
                i <= all.len(),
                *self == *old(self),
                all == self.pending@,
                tool_call_index(all.take(i as int), tool_call_id) is None,
            decreases all.len() - i,
        {
            assert(all.take(i + 1).drop_last() =~= all.take(i as int));
            if self.pending[i].tool_call_id == tool_call_id {
                proof {
                    lemma_tool_call_index(all, tool_call_id);
                    lemma_tool_call_index(all.take(i as int), tool_call_id);
                    assert forall|j: int| 0 <= j < i implies #[trigger] all[j].tool_call_id
                        != tool_call_id by {
                        assert(all.take(i as int)[j] == all[j]);
                    }
                }
                return Some(self.take_at(i, decision));
            }
            i = i + 1;
        }
        assert(all.take(all.len() as int) =~= all);
        None
    }

    /// Drops all pending requests and bypasses of a session.
    pub fn cancel_for_session(&mut self, session_id: i64)
        requires
            old(self).wf(),
        ensures
            final(self).wf(),
            final(self).pending@ == old(self).pending@.filter(
                |e: PendingApprovalInfo| e.session_id != session_id,
            ),
            final(self).bypasses@ == old(self).bypasses@.filter(
                |b: ApprovalBypass| b.session_id != session_id,
            ),
            final(self).next_id == old(self).next_id,
    {
        let ghost keep = |e: PendingApprovalInfo| e.session_id != session_id;
        let ghost all = self.pending@;
        let n: usize = self.pending.len();
        let mut i: usize = 0;
        let mut k: usize = 0;
        assert(all.take(0).filter(keep) =~= Seq::<PendingApprovalInfo>::empty()) by {
            reveal(Seq::filter);
        }
        assert(self.pending@ =~= all.take(0).filter(keep) + all.skip(0));
        while k < n
            invariant
                n == all.len(),
                k <= n,
                keep == (|e: PendingApprovalInfo| e.session_id != session_id),
                i == all.take(k as int).filter(keep).len(),
                self.pending@ == all.take(k as int).filter(keep) + all.skip(k as int),
                self.bypasses == old(self).bypasses,
                self.next_id == old(self).next_id,
                self.wf(),
            decreases n - k,
        {
            proof {
                assert(all.take(k + 1).drop_last() =~= all.take(k as int));
                lemma_filter_last(all.take(k + 1), keep);
                assert(self.pending@[i as int] == all[k as int]);
            }
            if self.pending[i].session_id != session_id {
                assert(self.pending@ =~= all.take(k + 1).filter(keep) + all.skip(k + 1));
                i = i + 1;
            } else {
                self.pending.remove(i);
                assert(self.pending@ =~= all.take(k + 1).filter(keep) + all.skip(k + 1));
            }
            k = k + 1;
        }
        assert(all.take(n as int) =~= all);
        assert(self.pending@ =~= all.filter(keep));
        self.clear_session_bypass(session_id);
    }

    /// A pending request, without resolving it.
    pub fn get_pending(&self, request_id: i64) -> (r: Option<&PendingApprovalInfo>)
        ensures
            match request_index(self.pending@, request_id) {
                Some(i) => r == Some(&self.pending@[i]),
                None => r is None,
            },
    {
        proof {
            lemma_request_index(self.pending@, request_id);
        }
        match self.index_of(request_id) {
            Some(i) => Some(&self.pending[i]),
            None => None,
        }
    }

    /// All pending requests, oldest first.
    pub fn list_pending(&self) -> (r: &Vec<PendingApprovalInfo>)
        ensures
            r@ == self.pending@,
    {
        &self.pending
    }

    fn add_bypass(&mut self, session_id: i64, scope: BypassScope, expires_at: Option<u128>)
        ensures
            final(self).bypasses@ == old(self).bypasses@.push(
                ApprovalBypass { session_id, scope, expires_at },
            ),
            final(self).pending == old(self).pending,
            final(self).next_id == old(self).next_id,
    {
        self.bypasses.push(ApprovalBypass { session_id, scope, expires_at });
    }

    /// Bypasses all approval prompts of a session for the rest of it.
    pub fn bypass_session(&mut self, session_id: i64)
        ensures
            final(self).bypasses@ == old(self).bypasses@.push(
                ApprovalBypass { session_id, scope: BypassScope::All, expires_at: None },
            ),
            final(self).pending == old(self).pending,
            final(self).next_id == old(self).next_id,
    {
        self.add_bypass(session_id, BypassScope::All, None);
    }

    /// Bypasses all approval prompts of a session for `millis` from `now` on.
    pub fn bypass_session_for(&mut self, session_id: i64, now: u64, millis: u64)
        ensures
            final(self).bypasses@ == old(self).bypasses@.push(
                ApprovalBypass {
                    session_id,
                    scope: BypassScope::All,
                    expires_at: Some((now + millis) as u128),
                },
            ),
            final(self).pending == old(self).pending,
            final(self).next_id == old(self).next_id,
    {
        self.add_bypass(session_id, BypassScope::All, Some(now as u128 + millis as u128));
    }

    /// Bypasses the prompts for a tool category, for the rest of the session
    /// or for `millis` from `now` on.
    pub fn bypass_session_for_category(
        &mut self,
        session_id: i64,
        category: ToolCategory,
        now: u64,
        millis: Option<u64>,
    )
        ensures
            final(self).bypasses@ == old(self).bypasses@.push(
                ApprovalBypass {
                    session_id,
                    scope: BypassScope::Category(category),
                    expires_at: match millis {
                        Some(m) => Some((now + m) as u128),
                        None => None,
                    },
                },
            ),
            final(self).pending == old(self).pending,
            final(self).next_id == old(self).next_id,
    {
        let expires_at: Option<u128> = match millis {
            Some(m) => Some(now as u128 + m as u128),
            None => None,
        };
        self.add_bypass(session_id, BypassScope::Category(category), expires_at);
    }

    /// Bypasses the prompts for the tools of an MCP server, for the rest of the
    /// session or for `millis` from `now` on.
    pub fn bypass_session_for_mcp(
        &mut self,
        session_id: i64,
        mcp_server: String,
        now: u64,
        millis: Option<u64>,
    )
        ensures
            final(self).bypasses@ == old(self).bypasses@.push(
                ApprovalBypass {
                    session_id,
                    scope: BypassScope::McpServer(mcp_server),
                    expires_at: match millis {
                        Some(m) => Some((now + m) as u128),
                        None => None,
                    },
                },
            ),
            final(self).pending == old(self).pending,
            final(self).next_id == old(self).next_id,
    {
        let expires_at: Option<u128> = match millis {
            Some(m) => Some(now as u128 + m as u128),
            None => None,
        };
        self.add_bypass(session_id, BypassScope::McpServer(mcp_server), expires_at);
    }

    /// Removes all bypasses of a session.
    pub fn clear_session_bypass(&mut self, session_id: i64)
        ensures
            final(self).bypasses@ == old(self).bypasses@.filter(
                |b: ApprovalBypass| b.session_id != session_id,
            ),
            final(self).pending == old(self).pending,
            final(self).next_id == old(self).next_id,
    {
        let ghost keep = |b: ApprovalBypass| b.session_id != session_id;
        let ghost all = self.bypasses@;
        let n: usize = self.bypasses.len();
        let mut i: usize = 0;
        let mut k: usize = 0;
        assert(all.take(0).filter(keep) =~= Seq::<ApprovalBypass>::empty()) by {
            reveal(Seq::filter);
        }
        assert(self.bypasses@ =~= all.take(0).filter(keep) + all.skip(0));
        while k < n
            invariant
                n == all.len(),
                k <= n,
                keep == (|b: ApprovalBypass| b.session_id != session_id),
                i == all.take(k as int).filter(keep).len(),
                self.bypasses@ == all.take(k as int).filter(keep) + all.skip(k as int),
                self.pending == old(self).pending,
                self.next_id == old(self).next_id,
            decreases n - k,
        {
            proof {
                assert(all.take(k + 1).drop_last() =~= all.take(k as int));
                lemma_filter_last(all.take(k + 1), keep);
                assert(self.bypasses@[i as int] == all[k as int]);
            }
            if self.bypasses[i].session_id != session_id {
                assert(self.bypasses@ =~= all.take(k + 1).filter(keep) + all.skip(k + 1));
                i = i + 1;
            } else {
                self.bypasses.remove(i);
                assert(self.bypasses@ =~= all.take(k + 1).filter(keep) + all.skip(k + 1));
            }
            k = k + 1;
        }
        assert(all.take(n as int) =~= all);
        assert(self.bypasses@ =~= all.filter(keep));
    }

    /// Approves a request and grants its session a bypass for the tools like
    /// it: those of its category, else of its MCP server, else all. The bypass
    /// lasts `bypass_secs` seconds; without a number, or with zero, it lasts
    /// for the rest of the session.
    pub fn approve_with_bypass(&mut self, request_id: i64, bypass_secs: Option<u64>, now: u64) -> (r: Option<
        Resolution,
    >)
        ensures
            match request_index(old(self).pending@, request_id) {
                Some(i) => {
                    let info = old(self).pending@[i];
                    &&& r is Some
                    &&& resolves(r.unwrap(), info, ApprovalDecision::Approved)
                    &&& final(self).pending@ == old(self).pending@.remove(i)
                    &&& final(self).bypasses@ == old(self).bypasses@.push(
                        ApprovalBypass {
                            session_id: info.session_id,
                            scope: scope_of(info),
                            expires_at: expiry(now, bypass_secs),
                        },
                    )
                },
                None => r is None && *final(self) == *old(self),
            },
            final(self).next_id == old(self).next_id,
            old(self).wf() ==> final(self).wf(),
    {
        match self.approve(request_id) {
            None => None,
            Some(res) => {
                let expires_at: Option<u128> = match bypass_secs {
                    Some(s) => if s > 0 {
                        Some(now as u128 + s as u128 * 1000)
                    } else {
                        None
                    },
                    None => None,
                };
                let scope: BypassScope = match res.info.tool_category {
                    Some(c) => BypassScope::Category(c),
                    None => match &res.info.mcp_server {
                        Some(s) => BypassScope::McpServer(s.clone()),
                        None => BypassScope::All,
                    },
                };
                self.add_bypass(res.info.session_id, scope, expires_at);
                Some(res)
            },
        }
    }
}

fn bypass_live(b: &ApprovalBypass, now: u64) -> (r: bool)
    ensures
        r == is_live(*b, now),
{
    match b.expires_at {
        Some(t) => (now as u128) < t,
        None => true,
    }
}

/// Whether a bypass covers a tool.
pub fn bypass_matches(bypass: &ApprovalBypass, category: Option<ToolCategory>, tool_name: &str) -> (r: bool)
    ensures
        r == covers(bypass.scope, category, tool_name@),
{
    match &bypass.scope {
        BypassScope::All => true,
        BypassScope::Category(c) => match category {
            Some(tc) => tc == *c,
            None => false,
        },
        BypassScope::McpServer(server) => match mcp_server_from_tool_name(tool_name) {
            Some(s) => str_eq(s.as_str(), server.as_str()),
            None => false,
        },
    }
}

proof fn lemma_pruned_bypassed(
    bypasses: Seq<ApprovalBypass>,
    session_id: i64,
    category: Option<ToolCategory>,
    tool: Seq<char>,
    now: u64,
)
    ensures
        bypassed(pruned(bypasses, session_id, now), session_id, category, tool, now) == bypassed(
            bypasses,
            session_id,
            category,
            tool,
            now,
        ),
{
    let keep = |b: ApprovalBypass| b.session_id != session_id || is_live(b, now);
    let kept = bypasses.filter(keep);
    broadcast use vstd::seq_lib::group_filter_ensures;
    if bypassed(bypasses, session_id, category, tool, now) {
        let i = choose|i: int|
            0 <= i < bypasses.len() && #[trigger] bypasses[i].session_id == session_id && is_live(
                bypasses[i],
                now,
            ) && covers(bypasses[i].scope, category, tool);
        assert(kept.contains(bypasses[i]));
        let j = choose|j: int| 0 <= j < kept.len() && kept[j] == bypasses[i];
        assert(kept[j].session_id == session_id);
    }
    if bypassed(kept, session_id, category, tool, now) {
        let j = choose|j: int|
            0 <= j < kept.len() && #[trigger] kept[j].session_id == session_id && is_live(
                kept[j],
                now,
            ) && covers(kept[j].scope, category, tool);
        assert(kept.contains(kept[j]));
        bypasses.lemma_filter_contains_rev(keep, kept[j]);
        let i = choose|i: int| 0 <= i < bypasses.len() && bypasses[i] == kept[j];
        assert(bypasses[i].session_id == session_id);
    }
}

/// A file-write tool may always write under `memory/`, whatever the rules say.
pub proof fn law_memory_writes_are_allowed(
    rules: Option<Seq<ApprovalRule>>,
    call: GateCall,
    bypasses: Seq<ApprovalBypass>,
    session_id: i64,
    category: Option<ToolCategory>,
    now: u64,
)
    requires
        writes_memory(call),
    ensures
        gate_decision(
            ruling(rules, call),
            bypasses,
            session_id,
            category,
            call.tool_name@,
            now,
        ) == GateResult::Allow,
{
}

/// Where no rule applies, a human is asked, unless the session holds a bypass.
pub proof fn law_closed_by_default(
    rules: Seq<ApprovalRule>,
    call: GateCall,
    bypasses: Seq<ApprovalBypass>,
    session_id: i64,
    category: Option<ToolCategory>,
    now: u64,
)
    requires
        !writes_memory(call),
        forall|i: int| 0 <= i < rules.len() ==> !applies(#[trigger] rules[i], call),
    ensures
        gate_decision(
            ruling(Some(rules), call),
            bypasses,
            session_id,
            category,
            call.tool_name@,
            now,
        ) == if bypassed(bypasses, session_id, category, call.tool_name@, now) {
            GateResult::Allow
        } else {
            GateResult::Require
        },
    decreases rules.len(),
{
    if rules.len() > 0 {
        assert(!applies(rules[0], call));
        assert forall|i: int| 0 <= i < rules.skip(1).len() implies !applies(
            #[trigger] rules.skip(1)[i],
            call,
        ) by {
            assert(!applies(rules[i + 1], call));
        }
        law_closed_by_default(rules.skip(1), call, bypasses, session_id, category, now);
    }
}

/// No bypass lifts a denial, and none changes an allowance.
pub proof fn law_only_required_is_bypassed(
    ruled: GateResult,
    bypasses: Seq<ApprovalBypass>,
    session_id: i64,
    category: Option<ToolCategory>,
    tool: Seq<char>,
    now: u64,
)
    ensures
        ruled != GateResult::Require ==> gate_decision(
            ruled,
            bypasses,
            session_id,
            category,
            tool,
            now,
        ) == ruled,
        gate_decision(ruled, bypasses, session_id, category, tool, now) == GateResult::Deny <==> ruled
            == GateResult::Deny,
{
}

/// A resolved request is gone: resolving it again finds nothing.
pub proof fn law_resolved_once(m: ApprovalManager, request_id: i64)
    requires
        m.wf(),
    ensures
        match request_index(m.pending@, request_id) {
            Some(i) => request_index(m.pending@.remove(i), request_id) is None,
            None => true,
        },
{
    lemma_request_index(m.pending@, request_id);
    match request_index(m.pending@, request_id) {
        Some(i) => {
            let rest = m.pending@.remove(i);
            lemma_request_index(rest, request_id);
            if request_index(rest, request_id) is Some {
                let j = request_index(rest, request_id).unwrap();
                if j < i {
                    assert(rest[j] == m.pending@[j]);
                    assert(m.pending@[j].request_id < m.pending@[i].request_id);
                } else {
                    assert(rest[j] == m.pending@[j + 1]);
                    assert(m.pending@[i].request_id < m.pending@[j + 1].request_id);
                }
            }
        },
        None => {},
    }
}

/// Once a session is cancelled no bypass of it is left, so its next required
/// approval is asked for.
pub proof fn law_cancel_ends_bypasses(
    bypasses: Seq<ApprovalBypass>,
    session_id: i64,
    category: Option<ToolCategory>,
    tool: Seq<char>,
    now: u64,
)
    ensures
        !bypassed(
            bypasses.filter(|b: ApprovalBypass| b.session_id != session_id),
            session_id,
            category,
            tool,
            now,
        ),
{
    let keep = |b: ApprovalBypass| b.session_id != session_id;
    let kept = bypasses.filter(keep);
    broadcast use vstd::seq_lib::group_filter_ensures;
    assert forall|i: int| 0 <= i < kept.len() implies #[trigger] kept[i].session_id
        != session_id by {
        assert(keep(kept[i]));
    }
}

/// The bypass granted with an approval covers further calls of the same tool
/// in the same session until it expires, so that a required approval becomes
/// an allowance.
pub proof fn law_bypass_covers_the_tool(
    bypasses: Seq<ApprovalBypass>,
    info: PendingApprovalInfo,
    secs: Option<u64>,
    granted: u64,
    now: u64,
)
    requires
        opt_text(info.mcp_server) == mcp_server_of(info.tool_name@),
        match secs {
            Some(s) if s > 0 => now < granted + s * 1000,
            _ => true,
        },
    ensures
        gate_decision(
            GateResult::Require,
            bypasses.push(
                ApprovalBypass {
                    session_id: info.session_id,
                    scope: scope_of(info),
                    expires_at: expiry(granted, secs),
                },
            ),
            info.session_id,
            info.tool_category,
            info.tool_name@,
            now,
        ) == GateResult::Allow,
{
    let b = ApprovalBypass {
        session_id: info.session_id,
        scope: scope_of(info),
        expires_at: expiry(granted, secs),
    };
    let all = bypasses.push(b);
    assert(all[all.len() - 1].session_id == info.session_id);
    assert(is_live(b, now));
    assert(covers(b.scope, info.tool_category, info.tool_name@));
}

/// What a human's rejection tells the model: the note without the whitespace
/// around it, where there is one.
pub proof fn law_rejections_are_told(note: &str, r: String, words: String)
    requires
        call_ensures(ApprovalDecision::rejection_message, (note,), r),
        call_ensures(trim, (note,), words),
    ensures
        words@.len() == 0 ==> r@ == "User rejected this tool call."@,
        words@.len() > 0 ==> r@ == "User rejected this tool call. Reason: "@ + words@,
{
}

/// Which tools a bypass covers: all, those of its category, or those of its
/// server.
pub proof fn law_what_a_bypass_covers(
    bypass: &ApprovalBypass,
    category: Option<ToolCategory>,
    tool: &str,
    r: bool,
    server: Option<String>,
)
    requires
        call_ensures(bypass_matches, (bypass, category, tool), r),
        call_ensures(mcp_server_from_tool_name, (tool,), server),
    ensures
        bypass.scope is All ==> r,
        bypass.scope matches BypassScope::Category(c) ==> r == (category == Some(c)),
        bypass.scope matches BypassScope::McpServer(s) ==> r == (server is Some
            && server->Some_0@ == s@),
{
}

/// The decision on a call. A write to the memory is allowed, and so is every
/// call where the rules cannot be loaded. A denial stands and an allowance
/// does; where an approval is required, or no rule applies, the call is allowed
/// exactly where the session holds a bypass that covers the tool and has not
/// expired. Nothing that is pending changes.
pub proof fn law_the_decision(
    m: &mut ApprovalManager,
    session_id: i64,
    category: Option<ToolCategory>,
    call: &GateCall,
    rules: Option<&Vec<ApprovalRule>>,
    now: u64,
    r: GateResult,
    memory: bool,
    first: Option<RuleAction>,
    has_bypass: bool,
)
    requires
        call_ensures(ApprovalManager::check, (m, session_id, category, call, rules, now), r),
        call_ensures(is_memory_path, (call,), memory),
        rules matches Some(rs) ==> call_ensures(first_rule_action, (rs, call), first),
        has_bypass == (exists|i: int|
            0 <= i < old(m).bypasses@.len() && (#[trigger] old(m).bypasses@[i]).session_id
                == session_id && (old(m).bypasses@[i].expires_at is None || (now as int) < old(m).bypasses@[i].expires_at->Some_0) && covers(
                old(m).bypasses@[i].scope,
                category,
                call.tool_name@,
            )),
    ensures
        memory || rules is None ==> r == GateResult::Allow,
        !memory && rules is Some ==> match first {
            Some(RuleAction::Allow) => r == GateResult::Allow,
            Some(RuleAction::Deny) => r == GateResult::Deny,
            _ => r == if has_bypass {
                GateResult::Allow
            } else {
                GateResult::Require
            },
        },
        final(m).pending == old(m).pending,
        forall|b: ApprovalBypass|
            b.session_id != session_id ==> final(m).bypasses@.contains(b) == #[trigger] old(m).bypasses@.contains(b),
{
    broadcast use vstd::seq_lib::group_filter_ensures;

    let keep = |b: ApprovalBypass| b.session_id != session_id || is_live(b, now);
    let all = old(m).bypasses@;
    assert forall|b: ApprovalBypass| b.session_id != session_id implies final(m).bypasses@.contains(
        b,
    ) == #[trigger] all.contains(b) by {
        if all.filter(keep).contains(b) {
            all.lemma_filter_contains_rev(keep, b);
        }
    }
    if bypassed(all, session_id, category, call.tool_name@, now) {
        let i = choose|i: int|
            0 <= i < all.len() && #[trigger] all[i].session_id == session_id && is_live(
                all[i],
                now,
            ) && covers(all[i].scope, category, call.tool_name@);
        assert(old(m).bypasses@[i].session_id == session_id);
    }
    if has_bypass {
        let i = choose|i: int|
            0 <= i < old(m).bypasses@.len() && (#[trigger] old(m).bypasses@[i]).session_id
                == session_id && (old(m).bypasses@[i].expires_at is None || (now as int) < old(m).bypasses@[i].expires_at->Some_0) && covers(
                old(m).bypasses@[i].scope,
                category,
                call.tool_name@,
            );
        assert(all[i].session_id == session_id);
    }
}

/// Resolving a request takes exactly the request of that id out of those that
/// are pending and hands on the decision, with an event for the session that
/// waits. An id that is not pending changes nothing.
pub proof fn law_resolving(
    m: &mut ApprovalManager,
    request_id: i64,
    decision: ApprovalDecision,
    r: Option<Resolution>,
    x: PendingApprovalInfo,
)
    requires
        call_ensures(ApprovalManager::resolve, (m, request_id, decision), r),
        old(m).wf(),
    ensures
        r is Some <==> exists|i: int|
            0 <= i < old(m).pending@.len() && (#[trigger] old(m).pending@[i]).request_id
                == request_id,
        r matches Some(s) ==> {
            &&& s.info.request_id == request_id
            &&& old(m).pending@.contains(s.info)
            &&& s.decision == decision
            &&& s.event.source == Some(s.info.source)
            &&& s.event.session_id == Some(s.info.session_id)
            &&& s.event.event matches ServerEvent::ApprovalResolved {
                request_id: q,
                tool_call_id,
                approved,
            } && q == request_id && tool_call_id == s.info.tool_call_id && approved == (
            decision is Approved)
        },
        final(m).pending@.contains(x) <==> old(m).pending@.contains(x) && x.request_id
            != request_id,
        final(m).bypasses == old(m).bypasses,
{
    let all = old(m).pending@;
    lemma_request_index(all, request_id);
    match request_index(all, request_id) {
        Some(i) => {
            let rest = all.remove(i);
            assert(all[i].request_id == request_id);
            assert(all.contains(all[i]));
            if rest.contains(x) {
                let j = rest.index_of(x);
                let k = if j < i {
                    j
                } else {
                    j + 1
                };
                assert(rest[j] == all[k]);
                assert(all.contains(x));
                if k < i {
                    assert(all[k].request_id < all[i].request_id);
                } else {
                    assert(all[i].request_id < all[k].request_id);
                }
            }
            if all.contains(x) && x.request_id != request_id {
                let k = all.index_of(x);
                let j = if k < i {
                    k
                } else {
                    k - 1
                };
                assert(rest[j] == x);
            }
        },
        None => {
            if all.contains(x) {
                let k = all.index_of(x);
                assert(all[k].request_id != request_id);
            }
        },
    }
}

/// Approving and rejecting are the two ways to resolve a request.
pub proof fn law_approve_and_reject(
    a: &mut ApprovalManager,
    b: &mut ApprovalManager,
    request_id: i64,
    note: String,
    r: Option<Resolution>,
    s: Option<Resolution>,
)
    requires
        call_ensures(ApprovalManager::approve, (a, request_id), r),
        call_ensures(ApprovalManager::reject, (b, request_id, note), s),
        *old(a) == *old(b),
    ensures
        r is Some == s is Some,
        r matches Some(x) ==> x.decision is Approved && x.info == s->Some_0.info
            && x.info.request_id == request_id,
        s matches Some(x) ==> x.decision == (ApprovalDecision::Rejected { note }),
        final(a).pending@ == final(b).pending@,
        final(a).bypasses == old(a).bypasses,
        final(b).bypasses == old(b).bypasses,
{
    lemma_request_index(old(a).pending@, request_id);
}

/// The request for a tool call is found by the id of the call, the oldest
/// first, and resolved like any other.
pub proof fn law_resolving_for_a_tool_call(
    m: &mut ApprovalManager,
    tool_call_id: i64,
    decision: ApprovalDecision,
    r: Option<Resolution>,
)
    requires
        call_ensures(ApprovalManager::resolve_for_tool_call, (m, tool_call_id, decision), r),
    ensures
        r is Some <==> exists|i: int|
            0 <= i < old(m).pending@.len() && (#[trigger] old(m).pending@[i]).tool_call_id
                == tool_call_id,
        r matches Some(s) ==> s.info.tool_call_id == tool_call_id && s.decision == decision
            && exists|i: int|
            0 <= i < old(m).pending@.len() && #[trigger] old(m).pending@[i] == s.info
                && final(m).pending@ == old(m).pending@.remove(i) && forall|j: int|
                0 <= j < i ==> (#[trigger] old(m).pending@[j]).tool_call_id != tool_call_id,
        r is None ==> final(m).pending == old(m).pending,
        final(m).bypasses == old(m).bypasses,
{
    let all = old(m).pending@;
    lemma_tool_call_index(all, tool_call_id);
    match tool_call_index(all, tool_call_id) {
        Some(i) => {
            assert(all[i].tool_call_id == tool_call_id);
        },
        None => {
            assert forall|j: int| 0 <= j < all.len() implies (#[trigger] all[j]).tool_call_id
                != tool_call_id by {}
        },
    }
}

/// A registered request waits under an id that no other has, with everything
/// that is known of its call, and is announced to its source.
pub proof fn law_registering(
    m: &mut ApprovalManager,
    session_id: i64,
    tool_call_id: i64,
    tool_name: &str,
    arguments: &str,
    agent_id: &str,
    source: &str,
    label: Option<String>,
    category: Option<ToolCategory>,
    created_at: &str,
    r: (i64, GlobalEvent),
    server: Option<String>,
)
    requires
        call_ensures(
            ApprovalManager::register,
            (
                m,
                session_id,
                tool_call_id,
                tool_name,
                arguments,
                agent_id,
                source,
                label,
                category,
                created_at,
            ),
            r,
        ),
        call_ensures(mcp_server_from_tool_name, (tool_name,), server),
        old(m).wf(),
    ensures
        forall|i: int|
            0 <= i < old(m).pending@.len() ==> (#[trigger] old(m).pending@[i]).request_id != r.0,
        final(m).pending@.len() == old(m).pending@.len() + 1,
        final(m).pending@.drop_last() == old(m).pending@,
        ({
            let info = final(m).pending@.last();
            &&& info.request_id == r.0
            &&& info.session_id == session_id
            &&& info.tool_call_id == tool_call_id
            &&& info.tool_name@ == tool_name@
            &&& info.arguments@ == arguments@
            &&& info.agent_id@ == agent_id@
            &&& info.source@ == source@
            &&& info.context_label == label
            &&& info.tool_category == category
            &&& opt_text(info.mcp_server) == opt_text(server)
            &&& info.created_at@ == created_at@
        }),
        final(m).bypasses == old(m).bypasses,
        r.1.source is Some && r.1.source->Some_0@ == source@,
        r.1.session_id == Some(session_id),
        r.1.event matches ServerEvent::ApprovalRequested { request_id, tool_call_id: c, tool_name: n }
            && request_id == r.0 && c == tool_call_id && n@ == tool_name@,
{
    assert forall|i: int| 0 <= i < old(m).pending@.len() implies (#[trigger] old(m).pending@[i]).request_id != r.0 by {
        assert(old(m).pending@[i].request_id < old(m).next_id);
    }
}

/// Approving with a bypass approves the request and spares its session further
/// questions on tools like it: those of its category, else those of its
/// server, else all; for that many seconds, or to the end of the session where
/// no number is given or it is zero.
pub proof fn law_approving_with_a_bypass(
    m: &mut ApprovalManager,
    n: &mut ApprovalManager,
    request_id: i64,
    secs: Option<u64>,
    now: u64,
    r: Option<Resolution>,
    s: Option<Resolution>,
)
    requires
        call_ensures(ApprovalManager::approve_with_bypass, (m, request_id, secs, now), r),
        call_ensures(ApprovalManager::approve, (n, request_id), s),
        *old(n) == *old(m),
    ensures
        r is Some == s is Some,
        final(m).pending@ == final(n).pending@,
        r is None ==> final(m).bypasses == old(m).bypasses,
        r matches Some(x) ==> {
            let b = final(m).bypasses@.last();
            &&& x.decision is Approved
            &&& x.info == s->Some_0.info
            &&& final(m).bypasses@.len() == old(m).bypasses@.len() + 1
            &&& final(m).bypasses@.drop_last() == old(m).bypasses@
            &&& b.session_id == x.info.session_id
            &&& b.expires_at is None <==> secs is None || secs == Some(0u64)
            &&& b.expires_at matches Some(t) ==> t == now + secs->Some_0 * 1000
            &&& match (x.info.tool_category, x.info.mcp_server) {
                (Some(c), _) => b.scope == BypassScope::Category(c),
                (None, Some(server)) => b.scope == BypassScope::McpServer(server),
                (None, None) => b.scope is All,
            }
        },
{
    lemma_request_index(old(m).pending@, request_id);
    if r is Some {
        assert(final(m).bypasses@.drop_last() =~= old(m).bypasses@);
    }
}

/// A bypass of a session covers every tool, from when it is granted until it
/// expires, or to the end of the session; it concerns no other session.
pub proof fn law_bypassing_a_session(
    m: &mut ApprovalManager,
    n: &mut ApprovalManager,
    session_id: i64,
    granted: u64,
    millis: u64,
    category: Option<ToolCategory>,
    tool: Seq<char>,
    now: u64,
)
    requires
        call_ensures(ApprovalManager::bypass_session, (m, session_id), ()),
        call_ensures(ApprovalManager::bypass_session_for, (n, session_id, granted, millis), ()),
        *old(n) == *old(m),
    ensures
        bypassed(final(m).bypasses@, session_id, category, tool, now),
        now < granted + millis ==> bypassed(final(n).bypasses@, session_id, category, tool, now),
        now >= granted + millis ==> bypassed(final(n).bypasses@, session_id, category, tool, now)
            == bypassed(old(m).bypasses@, session_id, category, tool, now),
        forall|other: i64|
            other != session_id ==> #[trigger] bypassed(
                final(m).bypasses@,
                other,
                category,
                tool,
                now,
            ) == bypassed(old(m).bypasses@, other, category, tool, now),
        final(m).pending == old(m).pending,
{
    let had = old(m).bypasses@;
    let a = ApprovalBypass { session_id, scope: BypassScope::All, expires_at: None };
    let b = ApprovalBypass {
        session_id,
        scope: BypassScope::All,
        expires_at: Some((granted + millis) as u128),
    };
    assert(had.push(a)[had.len() as int].session_id == session_id);
    assert(had.push(b)[had.len() as int].session_id == session_id);
    lemma_one_more_bypass(had, b, session_id, category, tool, now);
    assert forall|other: i64| other != session_id implies #[trigger] bypassed(
        final(m).bypasses@,
        other,
        category,
        tool,
        now,
    ) == bypassed(had, other, category, tool, now) by {
        lemma_one_more_bypass(had, a, other, category, tool, now);
    }
}

proof fn lemma_one_more_bypass(
    had: Seq<ApprovalBypass>,
    b: ApprovalBypass,
    session_id: i64,
    category: Option<ToolCategory>,
    tool: Seq<char>,
    now: u64,
)
    ensures
        bypassed(had.push(b), session_id, category, tool, now) == (bypassed(
            had,
            session_id,
            category,
            tool,
            now,
        ) || (b.session_id == session_id && is_live(b, now) && covers(b.scope, category, tool))),
{
    let all = had.push(b);
    if bypassed(had, session_id, category, tool, now) {
        let i = choose|i: int|
            0 <= i < had.len() && #[trigger] had[i].session_id == session_id && is_live(
                had[i],
                now,
            ) && covers(had[i].scope, category, tool);
        assert(all[i].session_id == session_id);
    }
    if bypassed(all, session_id, category, tool, now) {
        let i = choose|i: int|
            0 <= i < all.len() && #[trigger] all[i].session_id == session_id && is_live(
                all[i],
                now,
            ) && covers(all[i].scope, category, tool);
        if i < had.len() {
            assert(had[i].session_id == session_id);
        }
    }
    assert(all[had.len() as int].session_id == b.session_id);
}

/// A bypass for a category or a server covers its tools and no others.
pub proof fn law_bypassing_some_tools(
    m: &mut ApprovalManager,
    n: &mut ApprovalManager,
    session_id: i64,
    category: ToolCategory,
    server: String,
    granted: u64,
    millis: Option<u64>,
    of: Option<ToolCategory>,
    tool: &str,
    now: u64,
    found: Option<String>,
)
    requires
        call_ensures(
            ApprovalManager::bypass_session_for_category,
            (m, session_id, category, granted, millis),
            (),
        ),
        call_ensures(
            ApprovalManager::bypass_session_for_mcp,
            (n, session_id, server, granted, millis),
            (),
        ),
        call_ensures(mcp_server_from_tool_name, (tool,), found),
        *old(n) == *old(m),
        old(m).bypasses@.len() == 0,
    ensures
        bypassed(final(m).bypasses@, session_id, of, tool@, now) <==> of == Some(category) && (
        millis is None || now < granted + millis->Some_0),
        bypassed(final(n).bypasses@, session_id, of, tool@, now) <==> found is Some
            && found->Some_0@ == server@ && (millis is None || now < granted + millis->Some_0),
{
    lemma_one_more_bypass(
        old(m).bypasses@,
        final(m).bypasses@.last(),
        session_id,
        of,
        tool@,
        now,
    );
    lemma_one_more_bypass(
        old(m).bypasses@,
        final(n).bypasses@.last(),
        session_id,
        of,
        tool@,
        now,
    );
}

/// Cancelling a session drops its requests and its bypasses, all of them and no
/// others.
pub proof fn law_cancelling_a_session(
    m: &mut ApprovalManager,
    session_id: i64,
    x: PendingApprovalInfo,
    b: ApprovalBypass,
)
    requires
        call_ensures(ApprovalManager::cancel_for_session, (m, session_id), ()),
    ensures
        final(m).pending@.contains(x) <==> old(m).pending@.contains(x) && x.session_id
            != session_id,
        final(m).bypasses@.contains(b) <==> old(m).bypasses@.contains(b) && b.session_id
            != session_id,
        final(m).next_id == old(m).next_id,
{
    broadcast use vstd::seq_lib::group_filter_ensures;

    let keep = |e: PendingApprovalInfo| e.session_id != session_id;
    let keep_bypass = |e: ApprovalBypass| e.session_id != session_id;
    if final(m).pending@.contains(x) {
        old(m).pending@.lemma_filter_contains_rev(keep, x);
        let i = final(m).pending@.index_of(x);
        assert(keep(final(m).pending@[i]));
    }
    if final(m).bypasses@.contains(b) {
        old(m).bypasses@.lemma_filter_contains_rev(keep_bypass, b);
        let i = final(m).bypasses@.index_of(b);
        assert(keep_bypass(final(m).bypasses@[i]));
    }
    if old(m).pending@.contains(x) && x.session_id != session_id {
        assert(keep(x));
    }
    if old(m).bypasses@.contains(b) && b.session_id != session_id {
        assert(keep_bypass(b));
    }
}

/// A pending request is found by its id, and looking at it changes nothing.
pub proof fn law_looking_at_a_request(m: &ApprovalManager, request_id: i64, r: Option<&PendingApprovalInfo>)
    requires
        call_ensures(ApprovalManager::get_pending, (m, request_id), r),
    ensures
        r is Some <==> exists|i: int|
            0 <= i < m.pending@.len() && (#[trigger] m.pending@[i]).request_id == request_id,
        r matches Some(x) ==> x.request_id == request_id && m.pending@.contains(*x),
{
    lemma_request_index(m.pending@, request_id);
    match request_index(m.pending@, request_id) {
        Some(i) => {
            assert(m.pending@[i].request_id == request_id);
        },
        None => {},
    }
}

/// Where an approval would be needed, the bypasses of the session that have
/// expired are dropped and those that have not are kept.
pub proof fn law_expired_bypasses_are_dropped(
    m: &mut ApprovalManager,
    session_id: i64,
    category: Option<ToolCategory>,
    call: &GateCall,
    rules: Option<&Vec<ApprovalRule>>,
    now: u64,
    r: GateResult,
    b: ApprovalBypass,
)
    requires
        call_ensures(ApprovalManager::check, (m, session_id, category, call, rules, now), r),
    ensures
        final(m).bypasses@.contains(b) ==> old(m).bypasses@.contains(b),
        old(m).bypasses@.contains(b) && (b.session_id != session_id || b.expires_at is None || (
        now as int) < b.expires_at->Some_0) ==> final(m).bypasses@.contains(b),
        r == GateResult::Require && b.session_id == session_id && (b.expires_at matches Some(t)
            && t <= now) ==> !final(m).bypasses@.contains(b),
{
    broadcast use vstd::seq_lib::group_filter_ensures;

    let keep = |x: ApprovalBypass| x.session_id != session_id || is_live(x, now);
    let all = old(m).bypasses@;
    let kept = all.filter(keep);
    if kept.contains(b) {
        all.lemma_filter_contains_rev(keep, b);
        let k = kept.index_of(b);
        assert(keep(kept[k]));
    }
    if all.contains(b) && keep(b) {
        assert(kept.contains(b));
    }
}

/// A fresh manager holds nothing; what is pending is listed as it is; clearing
/// the bypasses of a session takes exactly those.
pub proof fn law_fresh_and_cleared(
    fresh: ApprovalManager,
    m: &ApprovalManager,
    listed: &Vec<PendingApprovalInfo>,
    n: &mut ApprovalManager,
    session_id: i64,
    b: ApprovalBypass,
    d: &ApprovalDecision,
    approved: bool,
)
    requires
        call_ensures(ApprovalManager::new, (), fresh),
        call_ensures(ApprovalManager::list_pending, (m,), listed),
        call_ensures(ApprovalManager::clear_session_bypass, (n, session_id), ()),
        call_ensures(ApprovalDecision::is_approved, (d,), approved),
    ensures
        fresh.pending@.len() == 0 && fresh.bypasses@.len() == 0,
        listed@ == m.pending@,
        final(n).bypasses@.contains(b) <==> old(n).bypasses@.contains(b) && b.session_id
            != session_id,
        final(n).pending == old(n).pending,
        approved <==> d is Approved,
{
    broadcast use vstd::seq_lib::group_filter_ensures;

    let keep = |x: ApprovalBypass| x.session_id != session_id;
    let all = old(n).bypasses@;
    if final(n).bypasses@.contains(b) {
        all.lemma_filter_contains_rev(keep, b);
        let k = final(n).bypasses@.index_of(b);
        assert(keep(final(n).bypasses@[k]));
    }
    if all.contains(b) && b.session_id != session_id {
        assert(keep(b));
        assert(all.filter(keep).contains(b));
    }
}

} // verus!
