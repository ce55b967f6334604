use vstd::prelude::*;

verus! {

/// The single failure condition this core reports.
///
/// A miss is fail-fast and non-recoverable at this layer: substituting an
/// arbitrary value for a missing row would silently produce an unsound
/// witness, so the miss is always surfaced to the caller.
#[derive(Clone, Copy, Debug, PartialEq, Eq, Structural)]
pub enum Error {
    /// The queried `(operand1, operand2, selector)` key has no row in the
    /// lookup table.
    ElementNotIndexed,
}

} // verus!
