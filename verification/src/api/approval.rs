//! Requests on approval rules and pending approvals.
use vstd::prelude::*;

use crate::approval::manager::ApprovalDecision;
use crate::db::mcp_servers::McpServerRow;
use crate::json::{Json, JsonView, ObjectBuilder};
use crate::names::NameTable;
use crate::numerals::decimal;
use crate::text::{copy_opt, opt_text, str_eq};
use crate::tools::catalog::{AllTools, McpServerMeta};

verus! {

/// The rule that a request is about.
#[derive(Debug)]
pub struct RulePath {
    pub id: i64,
}

/// The pending approval that a request is about.
#[derive(Debug)]
pub struct ResolvePath {
    pub request_id: i64,
}

/// How a pending approval is resolved.
#[derive(Debug)]
pub struct ResolveBody {
    /// "approve" or "reject".
    pub action: String,
    pub note: String,
}

/// The action of a request that names none.
pub fn default_action() -> (r: String)
    ensures
        r@ == "approve"@,
{
    "approve".to_owned()
}

/// The answer of a resolved approval.
pub open spec fn resolved_answer(request_id: int, action: Seq<char>) -> JsonView {
    JsonView::Object(
        seq![
            ("ok"@, JsonView::Bool(true)),
            ("request_id"@, JsonView::Number(decimal(request_id))),
            ("action"@, JsonView::Text(action)),
        ],
    )
}

/// The decision that a request makes, with its note as it was given, and the
/// answer. Only "reject" rejects.
pub fn resolve_pending(path: &ResolvePath, body: ResolveBody) -> (r: (ApprovalDecision, Json))
    ensures
        if body.action@ == "reject"@ {
            r.0 == (ApprovalDecision::Rejected { note: body.note })
        } else {
            r.0 == ApprovalDecision::Approved
        },
        r.1@ == resolved_answer(path.request_id as int, body.action@),
{
    let b: ObjectBuilder = ObjectBuilder::new().with_bool("ok", true).with_i64(
        "request_id",
        path.request_id,
    ).with_text("action", body.action.as_str());
    assert(b.entries() =~= resolved_answer(path.request_id as int, body.action@)->Object_0);
    let answer: Json = b.build();
    if str_eq(body.action.as_str(), "reject") {
        (ApprovalDecision::Rejected { note: body.note }, answer)
    } else {
        (ApprovalDecision::Approved, answer)
    }
}

/// Adds the display data of the stored servers to a list of tools.
pub fn list_tools(tools: AllTools, rows: &Vec<McpServerRow>) -> (r: AllTools)
    ensures
        r.built_in == tools.built_in,
        r.mcp == tools.mcp,
        r.mcp_servers.wf(),
        forall|i: int|
            0 <= i < rows@.len() ==> r.mcp_servers@.contains_key((#[trigger] rows@[i]).name@),
        forall|n: Seq<char>| #[trigger]
            r.mcp_servers@.contains_key(n) ==> exists|i: int|
                0 <= i < rows@.len() && (#[trigger] rows@[i]).name@ == n && opt_text(
                    r.mcp_servers@[n].friendly_name,
                ) == opt_text(rows@[i].friendly_name) && opt_text(r.mcp_servers@[n].description)
                    == opt_text(rows@[i].description) && forall|k: int|
                    i < k < rows@.len() ==> (#[trigger] rows@[k]).name@ != n,
{
    let mut servers: NameTable<McpServerMeta> = NameTable::new();
    let mut i: usize = 0;
    while i < rows.len()
        invariant
            i <= rows@.len(),
            servers.wf(),
            forall|k: int|
                0 <= k < i ==> servers@.contains_key((#[trigger] rows@[k]).name@),
            forall|n: Seq<char>| #[trigger]
                servers@.contains_key(n) ==> exists|k: int|
                    0 <= k < i && (#[trigger] rows@[k]).name@ == n && opt_text(
                        servers@[n].friendly_name,
                    ) == opt_text(rows@[k].friendly_name) && opt_text(servers@[n].description)
                        == opt_text(rows@[k].description) && forall|m: int|
                        k < m < i ==> (#[trigger] rows@[m]).name@ != n,
        decreases rows@.len() - i,
    {
        let ghost before = servers@;
        let row: &McpServerRow = &rows[i];
        let meta: McpServerMeta = McpServerMeta {
            friendly_name: copy_opt(&row.friendly_name),
            description: copy_opt(&row.description),
        };
        servers.insert(row.name.clone(), meta);
        i = i + 1;
        assert forall|n: Seq<char>| #[trigger] servers@.contains_key(n) implies exists|k: int|
            0 <= k < i && (#[trigger] rows@[k]).name@ == n && opt_text(servers@[n].friendly_name)
                == opt_text(rows@[k].friendly_name) && opt_text(servers@[n].description)
                == opt_text(rows@[k].description) && forall|m: int|
                k < m < i ==> (#[trigger] rows@[m]).name@ != n by {
            if n == row.name@ {
                assert(rows@[i - 1].name@ == n);
            } else {
                assert(before.contains_key(n));
                let k = choose|k: int|
                    0 <= k < i - 1 && (#[trigger] rows@[k]).name@ == n && opt_text(
                        before[n].friendly_name,
                    ) == opt_text(rows@[k].friendly_name) && opt_text(before[n].description)
                        == opt_text(rows@[k].description) && forall|m: int|
                        k < m < i - 1 ==> (#[trigger] rows@[m]).name@ != n;
                assert(rows@[k].name@ == n);
            }
        }
    }
    AllTools { built_in: tools.built_in, mcp: tools.mcp, mcp_servers: servers }
}

/// A request is rejected, with the note, where the answer says so, and approved
/// else; the answer names the request and what was said.
pub proof fn law_answers_to_requests(path: &ResolvePath, body: ResolveBody, r: (ApprovalDecision, Json))
    requires
        call_ensures(resolve_pending, (path, body), r),
    ensures
        r.0 is Rejected <==> body.action@ == "reject"@,
        r.0 matches ApprovalDecision::Rejected { note } ==> note == body.note,
        r.1@ == JsonView::Object(
            seq![
                ("ok"@, JsonView::Bool(true)),
                ("request_id"@, JsonView::Number(decimal(path.request_id as int))),
                ("action"@, JsonView::Text(body.action@)),
            ],
        ),
{
}

/// The servers are listed with what their last row says of them.
pub proof fn law_listed_servers(tools: AllTools, rows: &Vec<McpServerRow>, r: AllTools, i: int)
    requires
        call_ensures(list_tools, (tools, rows), r),
        0 <= i < rows@.len(),
        forall|k: int| i < k < rows@.len() ==> (#[trigger] rows@[k]).name@ != rows@[i].name@,
    ensures
        r.built_in == tools.built_in && r.mcp == tools.mcp,
        r.mcp_servers@.contains_key(rows@[i].name@),
        opt_text(r.mcp_servers@[rows@[i].name@].friendly_name) == opt_text(rows@[i].friendly_name),
        opt_text(r.mcp_servers@[rows@[i].name@].description) == opt_text(rows@[i].description),
{
    let n = rows@[i].name@;
    assert(r.mcp_servers.wf());
    assert(r.mcp_servers@.contains_key(rows@[i].name@));
    let j = choose|j: int|
        0 <= j < rows@.len() && (#[trigger] rows@[j]).name@ == n && opt_text(
            r.mcp_servers@[n].friendly_name,
        ) == opt_text(rows@[j].friendly_name) && opt_text(r.mcp_servers@[n].description) == opt_text(
            rows@[j].description,
        ) && forall|k: int| j < k < rows@.len() ==> (#[trigger] rows@[k]).name@ != n;
    if j < i {
        assert(rows@[i].name@ != n);
    } else if i < j {
        assert(rows@[j].name@ != rows@[i].name@);
    }
}

} // verus!
