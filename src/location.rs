//! A coordinate read from `<longitude>,<latitude>`, and the bounding box of
//! two such corners.

use vstd::prelude::*;
use crate::error::{ValidationError, location_failed};
use crate::number::{float_literal, is_float_literal};
use crate::text::{split, split_on};

verus! {

/// A longitude and a latitude, each held as the text of a floating-point
/// number.
#[derive(Debug, PartialEq)]
pub struct Location {
    pub lng: String,
    pub lat: String,
}

/// A box given by its north-east and south-west corners. Nothing relates
/// the two corners.
#[derive(Debug, PartialEq)]
pub struct ByBbox {
    pub ne: Location,
    pub sw: Location,
}

/// What reading `s` as a location gives: the texts of its two numbers when
/// `s` is exactly two comma-separated floating-point numbers.
pub open spec fn location_of(s: Seq<char>) -> Option<(Seq<char>, Seq<char>)> {
    let parts = split_on(s, ',');
    if parts.len() == 2 && is_float_literal(parts[0]) && is_float_literal(parts[1]) {
        Some((parts[0], parts[1]))
    } else {
        None
    }
}

/// A value with fewer or more than two comma-separated parts is never a
/// location.
pub proof fn lemma_wrong_arity_refused(s: Seq<char>)
    requires
        split_on(s, ',').len() != 2,
    ensures
        location_of(s) is None,
{
}

impl Location {
    pub open spec fn view_pair(&self) -> (Seq<char>, Seq<char>) {
        (self.lng@, self.lat@)
    }

    /// Reads a form value as it stands: a longitude, a comma, a latitude.
    /// Any other number of parts, or a part that is not a number, fails with
    /// the one message for locations.
    pub fn from_form_value(v: &str) -> (r: Result<Location, ValidationError>)
        ensures
            match r {
                Ok(l) => location_of(v@) == Some(l.view_pair()),
                Err(e) => location_of(v@) is None && e.reason@ == location_failed(),
            },
    {
        let parts = split(v, ',');
        let ghost ps = split_on(v@, ',');
        if parts.len() != 2 {
            assert(parts@.map_values(|p: &str| p@).len() == parts@.len());
            return Err(ValidationError::new("location parsing failed"));
        }
        assert(parts@[0]@ == ps[0] && parts@[1]@ == ps[1]) by {
            assert(parts@.map_values(|p: &str| p@)[0] == ps[0]);
            assert(parts@.map_values(|p: &str| p@)[1] == ps[1]);
        }
        if !float_literal(parts[0]) || !float_literal(parts[1]) {
            return Err(ValidationError::new("location parsing failed"));
        }
        Ok(Location { lng: String::from_str(parts[0]), lat: String::from_str(parts[1]) })
    }
}

} // verus!
