//! The dataset families the service can be asked for, and the SQL LIKE
//! pattern fragment each one selects.

use vstd::prelude::*;

use vstd::string::StringExecFns;

verus! {

#[derive(Clone, Copy, Debug, PartialEq, Eq, Structural)]
pub enum Dataset {
    Alos,
    Uavsar,
    Airsar,
}

/// Conversion to the pattern fragment a database query matches dataset
/// names against.
pub trait ToPartialString {
    spec fn partial_string_spec(&self) -> Seq<char>;

    fn to_partial_string(&self) -> (r: String)
        ensures
            r@ == self.partial_string_spec(),
    ;
}

impl ToPartialString for Option<Dataset> {
    /// The pattern for a chosen dataset family, or the match-everything
    /// pattern when none was chosen.
    open spec fn partial_string_spec(&self) -> Seq<char> {
        match self {
            Some(Dataset::Alos) => "ALOS PALSAR%"@,
            Some(Dataset::Uavsar) => "UAVSAR%"@,
            Some(Dataset::Airsar) => "AIRSAR%"@,
            None => "%"@,
        }
    }

    fn to_partial_string(&self) -> (r: String) {
        match self {
            Some(Dataset::Alos) => String::from_str("ALOS PALSAR%"),
            Some(Dataset::Uavsar) => String::from_str("UAVSAR%"),
            Some(Dataset::Airsar) => String::from_str("AIRSAR%"),
            None => String::from_str("%"),
        }
    }
}

} // verus!
