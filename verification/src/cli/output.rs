//! What an operation reports once it is done.

use vstd::prelude::*;
use crate::error::ImgEditError;

verus! {

/// How results are written out.
#[derive(Debug, Clone, Copy, PartialEq, Eq, Structural)]
pub enum OutputFormat {
    Text,
    Json,
}

/// The report of a command that failed.
#[derive(Debug)]
pub struct ErrorResponse {
    pub success: bool,
    pub command: String,
    pub error: String,
    pub code: String,
}

impl ErrorResponse {
    /// The report of `command` failing with `err`: its message and the name of its
    /// kind.
    pub fn new(command: &str, err: &ImgEditError) -> (response: ErrorResponse)
        ensures
            !response.success,
            response.command@ == command@,
            response.code@ == err.code_spec(),
            !err.is_wrapped() ==> response.error@ == err.message_head(),
            err.is_wrapped() ==> err.message_head().is_prefix_of(response.error@),
    {
        ErrorResponse {
            success: false,
            command: String::from_str(command),
            error: err.to_string(),
            code: String::from_str(err.code()),
        }
    }
}

} // verus!
