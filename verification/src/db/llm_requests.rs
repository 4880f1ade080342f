//! The log of model requests.
use vstd::prelude::*;

use crate::numerals::{decimal_nat, u64_text};

verus! {

/// A request to a model, as logged.
#[derive(Debug)]
pub struct LlmRequestRow {
    pub session_id: Option<i64>,
    pub stack_id: Option<i64>,
    pub model_name: String,
    /// The body of the request.
    pub request_json: String,
    /// The headers of the request as a JSON object, without the key.
    pub request_headers: Option<String>,
    /// The body of the answer.
    pub response_json: Option<String>,
    /// The headers of the answer as a JSON object.
    pub response_headers: Option<String>,
    /// Why the call itself failed.
    pub error_text: Option<String>,
    pub input_tokens: Option<i64>,
    pub output_tokens: Option<i64>,
    pub duration_ms: i64,
    /// The tokens that the provider's cache served.
    pub cache_read_tokens: Option<i64>,
    /// The tokens that were written into the provider's cache.
    pub cache_creation_tokens: Option<i64>,
}

/// The deletion of rows that are too old.
pub const SQL_CLEANUP: &'static str = "DELETE FROM llm_requests WHERE created_at < datetime('now', ?)";

/// The time, relative to now, before which rows are too old.
pub fn cleanup(retention_days: u32) -> (cutoff: String)
    ensures
        cutoff@ == "-"@ + decimal_nat(retention_days as nat) + " days"@,
{
    let number: String = u64_text(retention_days as u64);
    let mut t: String = "-".to_owned();
    t.append(number.as_str());
    t.append(" days");
    t
}

/// What is older than so many days is removed.
pub proof fn law_retention(days: u32, r: String)
    requires
        call_ensures(cleanup, (days,), r),
    ensures
        r@ == "-"@ + decimal_nat(days as nat) + " days"@,
{
}

} // verus!
