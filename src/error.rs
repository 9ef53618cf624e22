//! The failure a field reports when its value cannot be read.

use vstd::prelude::*;

verus! {

/// A flat, user-facing message saying why a field failed to parse.
#[derive(Debug, PartialEq, Eq)]
pub struct ValidationError {
    pub reason: String,
}

impl ValidationError {
    pub fn new(reason: &str) -> (r: ValidationError)
        ensures
            r.reason@ == reason@,
    {
        ValidationError { reason: String::from_str(reason) }
    }
}

/// The message for a value that is not a number.
pub open spec fn not_a_number() -> Seq<char> {
    "value is not a number."@
}

/// The message for a latitude outside [-90, 90].
pub open spec fn out_of_range() -> Seq<char> {
    "must be between -90 and 90."@
}

/// The message for a location that is not two comma-separated numbers.
pub open spec fn location_failed() -> Seq<char> {
    "location parsing failed"@
}

} // verus!
