//! Requests on permission groups and run contexts.
use vstd::prelude::*;

use crate::api::ApiError;

verus! {

/// A permission group to create.
#[derive(Debug)]
pub struct GroupBody {
    pub id: String,
    pub name: String,
    pub description: Option<String>,
}

#[derive(Debug)]
pub struct GroupPath {
    pub id: String,
}

/// New display data of a permission group.
#[derive(Debug)]
pub struct GroupUpdateBody {
    pub name: String,
    pub description: Option<String>,
}

/// The copy to make of a permission group.
#[derive(Debug)]
pub struct DuplicateGroupBody {
    pub id: String,
    pub name: String,
}

/// A run context to create.
#[derive(Debug)]
pub struct ContextBody {
    pub id: String,
    pub name: String,
    pub description: Option<String>,
    pub tool_group_id: Option<String>,
}

#[derive(Debug)]
pub struct ContextPath {
    pub id: String,
}

/// New data of a run context.
#[derive(Debug)]
pub struct ContextUpdateBody {
    pub name: String,
    pub description: Option<String>,
    pub tool_group_id: Option<String>,
}

#[derive(Debug)]
pub struct SessionPath {
    pub session_id: i64,
}

/// The run context of a session; none falls back to the default one.
#[derive(Debug)]
pub struct SetRunContextBody {
    pub run_context_id: Option<String>,
}

/// The answer of an update of a group that was or was not there.
pub fn update_group(found: bool) -> (r: Result<(), ApiError>)
    ensures
        match r {
            Ok(_) => found,
            Err(e) => !found && e.is_not_found("permission group not found"@),
        },
{
    if found {
        Ok(())
    } else {
        Err(ApiError::not_found("permission group not found"))
    }
}

/// The answer of an update of a context that was or was not there.
pub fn update_context(found: bool) -> (r: Result<(), ApiError>)
    ensures
        match r {
            Ok(_) => found,
            Err(e) => !found && e.is_not_found("run_context not found"@),
        },
{
    if found {
        Ok(())
    } else {
        Err(ApiError::not_found("run_context not found"))
    }
}

/// A group or a context that is not there cannot be changed.
pub proof fn law_changes(found: bool, r: Result<(), ApiError>, s: Result<(), ApiError>)
    requires
        call_ensures(update_group, (found,), r),
        call_ensures(update_context, (found,), s),
    ensures
        r is Ok <==> found,
        s is Ok <==> found,
        r matches Err(e) ==> e.status == 404 && e.message@ == "permission group not found"@,
        s matches Err(e) ==> e.status == 404 && e.message@ == "run_context not found"@,
{
}

} // verus!
