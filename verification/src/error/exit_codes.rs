//! Process exit codes, one per class of failure.

use vstd::prelude::*;

verus! {

pub const SUCCESS: i32 = 0;

pub const GENERAL_ERROR: i32 = 1;

pub const INPUT_NOT_FOUND: i32 = 2;

pub const OUTPUT_WRITE_FAILED: i32 = 3;

pub const UNSUPPORTED_FORMAT: i32 = 4;

pub const INVALID_PARAMETERS: i32 = 5;

} // verus!
