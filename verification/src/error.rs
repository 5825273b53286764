//! The two ways in which a call can be refused.

use vstd::prelude::*;

verus! {

/// Why a call was refused.
#[derive(Debug, Clone, Copy, PartialEq, Eq, Structural)]
pub enum RngError {
    /// An index was asked for in an empty range.
    DomainError,
    /// A key was looked up in an empty table.
    ConfigurationError,
}

} // verus!
