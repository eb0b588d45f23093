//! Replies to API requests.

use vstd::prelude::*;
use vstd::string::*;
use crate::text::{decimal, decimal_text, join3};

verus! {

/// Why a request was refused: a stable code, and a sentence for whoever reads it.
#[derive(Debug)]
pub struct ApiError {
    pub code: &'static str,
    pub message: String,
}

/// An error as the reader sees it.
pub struct Refusal {
    pub code: Seq<char>,
    pub message: Seq<char>,
}

impl View for ApiError {
    type V = Refusal;

    open spec fn view(&self) -> Refusal {
        Refusal { code: self.code@, message: self.message@ }
    }
}

/// A reply carries the id of its request, and either a result or an error.
#[derive(Debug)]
pub struct Response<T> {
    pub id: String,
    pub body: Result<T, ApiError>,
}

impl<T> Response<T> {
    /// The refusal this reply carries, if it carries one.
    pub open spec fn refusal(&self) -> Option<Refusal> {
        match self.body {
            Ok(_) => None,
            Err(e) => Some(e@),
        }
    }
}

pub open spec fn refusal(code: Seq<char>, message: Seq<char>) -> Refusal {
    Refusal { code, message }
}

/// `prefix` + `id` + ` not found`.
pub open spec fn not_found(code: Seq<char>, prefix: Seq<char>, id: Seq<char>) -> Refusal {
    Refusal { code, message: prefix + id + " not found"@ }
}

pub open spec fn workspace_missing(id: Seq<char>) -> Refusal {
    not_found("workspace_not_found"@, "workspace "@, id)
}

pub open spec fn tab_missing(id: Seq<char>) -> Refusal {
    not_found("tab_not_found"@, "tab "@, id)
}

pub open spec fn pane_missing(id: Seq<char>) -> Refusal {
    not_found("pane_not_found"@, "pane "@, id)
}

pub open spec fn insert_out_of_bounds(code: Seq<char>, index: nat) -> Refusal {
    Refusal { code, message: "insert_index "@ + decimal(index) + " is out of bounds"@ }
}

pub fn error(code: &'static str, message: &str) -> (e: ApiError)
    ensures
        e@ == refusal(code@, message@),
{
    ApiError { code, message: message.to_owned() }
}

pub fn workspace_not_found(workspace_id: &str) -> (e: ApiError)
    ensures
        e@ == workspace_missing(workspace_id@),
{
    ApiError {
        code: "workspace_not_found",
        message: join3("workspace ", workspace_id, " not found"),
    }
}

pub fn tab_not_found(tab_id: &str) -> (e: ApiError)
    ensures
        e@ == tab_missing(tab_id@),
{
    ApiError { code: "tab_not_found", message: join3("tab ", tab_id, " not found") }
}

pub fn pane_not_found(pane_id: &str) -> (e: ApiError)
    ensures
        e@ == pane_missing(pane_id@),
{
    ApiError { code: "pane_not_found", message: join3("pane ", pane_id, " not found") }
}

pub fn insert_index_error(code: &'static str, index: usize) -> (e: ApiError)
    ensures
        e@ == insert_out_of_bounds(code@, index as nat),
{
    ApiError {
        code,
        message: join3("insert_index ", decimal_text(index as u64).as_str(), " is out of bounds"),
    }
}

} // verus!
