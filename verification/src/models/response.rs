//! The envelopes in which the server answers.

use vstd::prelude::*;

verus! {

/// A successful answer with its payload.
#[derive(Debug, Clone, PartialEq, Eq)]
pub struct ApiResponse<T> {
    pub code: u16,
    pub message: String,
    pub data: T,
}

/// A failed answer.
#[derive(Debug, Clone, PartialEq, Eq)]
pub struct ErrorResponse {
    pub code: u16,
    pub message: String,
}

} // verus!
