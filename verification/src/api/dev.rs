//! The debug switch and the log of model requests.
use vstd::prelude::*;

use crate::text::{opt_text, str_eq};

verus! {

/// The configuration key of the debug switch.
pub const KEY: &'static str = "DEBUG_MODE";

/// The number of requests on a page of the log.
pub const PAGE_SIZE: i64 = 20;

/// The state of the debug switch.
#[derive(Debug)]
pub struct DebugModeResponse {
    pub enabled: bool,
}

/// A new state for the debug switch.
#[derive(Debug)]
pub struct DebugModeBody {
    pub enabled: bool,
}

/// Whether a stored value switches the debug mode on.
pub open spec fn debug_enabled(value: Option<Seq<char>>) -> bool {
    value == Some("true"@)
}

/// The state of the debug switch, given its stored value.
pub fn get_debug_mode(value: &Option<String>) -> (r: DebugModeResponse)
    ensures
        r.enabled == debug_enabled(opt_text(*value)),
{
    let enabled: bool = match value {
        Some(t) => str_eq(t.as_str(), "true"),
        None => false,
    };
    DebugModeResponse { enabled }
}

/// The value to store for a new state of the debug switch, and the answer.
pub fn set_debug_mode(body: &DebugModeBody) -> (r: (&'static str, DebugModeResponse))
    ensures
        r.0@ == if body.enabled {
            "true"@
        } else {
            "false"@
        },
        r.1.enabled == body.enabled,
{
    let value: &'static str = if body.enabled {
        "true"
    } else {
        "false"
    };
    (value, DebugModeResponse { enabled: body.enabled })
}

/// The state that was stored is the state that is read.
pub proof fn law_debug_mode_is_kept(enabled: bool)
    ensures
        debug_enabled(
            Some(
                if enabled {
                    "true"@
                } else {
                    "false"@
                },
            ),
        ) == enabled,
{
    reveal_strlit("true");
    reveal_strlit("false");
    assert("true"@.len() != "false"@.len());
}

/// Which requests of the log are asked for.
#[derive(Debug)]
pub struct LlmRequestsQuery {
    pub agent_id: Option<String>,
    pub source: Option<String>,
    pub from: Option<String>,
    pub to: Option<String>,
    pub page: Option<i64>,
}

/// A request in the log.
#[derive(Debug)]
pub struct LlmRequestItem {
    pub id: i64,
    pub agent_id: Option<String>,
    pub source: Option<String>,
    pub model_name: String,
    pub created_at: String,
    pub input_tokens: Option<i64>,
    pub output_tokens: Option<i64>,
    pub cache_read_tokens: Option<i64>,
    pub cache_creation_tokens: Option<i64>,
    pub duration_ms: i64,
    pub error_text: Option<String>,
}

/// A page of the log.
#[derive(Debug)]
pub struct LlmRequestsResponse {
    pub items: Vec<LlmRequestItem>,
    pub total: i64,
    pub page: i64,
    pub page_size: i64,
}

impl LlmRequestsQuery {
    /// The page that is asked for: the first where none is, or one before it.
    pub open spec fn page_number(self) -> int {
        match self.page {
            Some(p) => if p < 1 {
                1
            } else {
                p as int
            },
            None => 1,
        }
    }

    /// The number of the page, and the number of requests before it. There is
    /// none where that number does not fit.
    pub fn window(&self) -> (r: Option<(i64, i64)>)
        ensures
            match r {
                Some((page, offset)) => page == self.page_number() && offset == (page - 1)
                    * PAGE_SIZE,
                None => (self.page_number() - 1) * PAGE_SIZE > i64::MAX,
            },
    {
        let page: i64 = match self.page {
            Some(p) => if p < 1 {
                1
            } else {
                p
            },
            None => 1,
        };
        if page - 1 > i64::MAX / 20 {
            return None;
        }
        Some((page, (page - 1) * PAGE_SIZE))
    }
}

/// The answer to a request for a page of the log.
pub fn list_llm_requests(items: Vec<LlmRequestItem>, total: i64, page: i64) -> (r:
    LlmRequestsResponse)
    ensures
        r == (LlmRequestsResponse { items, total, page, page_size: PAGE_SIZE }),
{
    LlmRequestsResponse { items, total, page, page_size: PAGE_SIZE }
}

/// The mode is on exactly where it was stored as `true`.
pub proof fn law_debug_mode(value: &Option<String>, r: DebugModeResponse, body: &DebugModeBody, s: (&'static str, DebugModeResponse))
    requires
        call_ensures(get_debug_mode, (value,), r),
        call_ensures(set_debug_mode, (body,), s),
    ensures
        r.enabled <==> value is Some && value->Some_0@ == "true"@,
        s.0@ == if body.enabled {
            "true"@
        } else {
            "false"@
        },
        s.1.enabled == body.enabled,
{
}

/// A page shows twenty requests; a page below the first counts as the first.
pub proof fn law_pages(q: &LlmRequestsQuery, r: Option<(i64, i64)>, items: Vec<LlmRequestItem>, total: i64, page: i64, shown: LlmRequestsResponse)
    requires
        call_ensures(LlmRequestsQuery::window, (q,), r),
        call_ensures(list_llm_requests, (items, total, page), shown),
    ensures
        q.page is None || q.page->Some_0 <= 1 ==> r == Some((1i64, 0i64)),
        q.page matches Some(p) ==> (1 <= p && (p - 1) * 20 <= i64::MAX ==> (r matches Some((n, offset)) && n == p
            && offset == (p - 1) * 20)),
        q.page matches Some(p) ==> ((p - 1) * 20 > i64::MAX ==> r is None),
        shown.page_size == 20 && shown.page == page && shown.total == total && shown.items == items,
{
}

} // verus!
