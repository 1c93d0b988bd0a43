//! The ways in which a target or port description can be unusable.

use vstd::prelude::*;

verus! {

/// Why a description could not be expanded.
#[derive(Clone, Copy, Debug, PartialEq, Eq, Structural)]
pub enum ExpandError {
    /// The text is not of any accepted form.
    MalformedInput,
    /// An address range whose ends are not both IPv4 addresses.
    UnsupportedRange,
    /// An address range whose end lies below its start.
    InvertedRange,
}

} // verus!
