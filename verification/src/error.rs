//! The fatal error taxonomy: any of these aborts the whole extraction, since
//! a partial catalog is unsafe to hand onward.

use vstd::prelude::*;

verus! {

/// Why an extraction failed.
#[derive(Debug, Clone, Copy, PartialEq, Eq, Structural)]
pub enum ExtractError {
    /// The input is missing, unreadable, or not a recognized object-file
    /// container.
    Load,
    /// Malformed debug-info structure.
    Format,
    /// A structure entry lacks a name attribute, so its class could never be
    /// looked up.
    MissingAttribute,
    /// A virtual-table slot location expression does not reduce to a single
    /// constant address.
    UnsupportedLocation,
}

} // verus!
