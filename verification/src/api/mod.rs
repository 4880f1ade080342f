//! What the HTTP handlers decide and answer.
pub mod approval;
pub mod cron;
pub mod dev;
pub mod files;
pub mod llm;
pub mod run_context;
pub mod sessions;
pub mod stats;
pub mod transcribe_audio;
pub mod uploads;
pub mod ws;

use vstd::prelude::*;

verus! {

/// A refused request: the HTTP status and the text of the answer.
#[derive(Debug)]
pub struct ApiError {
    pub status: u16,
    pub message: String,
}

impl ApiError {
    /// Whether this is a bad request with that text.
    pub open spec fn is_bad_request(self, message: Seq<char>) -> bool {
        self.status == 400 && self.message@ == message
    }

    /// Whether this says that something was not found, with that text.
    pub open spec fn is_not_found(self, message: Seq<char>) -> bool {
        self.status == 404 && self.message@ == message
    }

    /// Whether this is an internal error with that text.
    pub open spec fn is_internal(self, message: Seq<char>) -> bool {
        self.status == 500 && self.message@ == message
    }

    pub fn bad_request(msg: &str) -> (r: ApiError)
        ensures
            r.is_bad_request(msg@),
    {
        ApiError { status: 400, message: msg.to_owned() }
    }

    pub fn not_found(msg: &str) -> (r: ApiError)
        ensures
            r.is_not_found(msg@),
    {
        ApiError { status: 404, message: msg.to_owned() }
    }

    /// An error from below, with its text.
    pub fn internal(msg: &str) -> (r: ApiError)
        ensures
            r.is_internal(msg@),
    {
        ApiError { status: 500, message: msg.to_owned() }
    }
}

/// The three kinds of error by their status.
pub proof fn law_errors(msg: &str, r: Seq<ApiError>)
    requires
        r.len() == 3,
        call_ensures(ApiError::bad_request, (msg,), r[0]),
        call_ensures(ApiError::not_found, (msg,), r[1]),
        call_ensures(ApiError::internal, (msg,), r[2]),
    ensures
        r[0].status == 400 && r[0].message@ == msg@,
        r[1].status == 404 && r[1].message@ == msg@,
        r[2].status == 500 && r[2].message@ == msg@,
{
}

} // verus!
