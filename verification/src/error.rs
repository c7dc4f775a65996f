use vstd::prelude::*;

verus! {

/// The failure kinds a reader operation can surface.
///
/// Every fallible operation reports its error to the immediate caller; a
/// decode failure on one column never invalidates other rows or columns.
#[derive(Clone, Copy, Debug, PartialEq, Eq, Structural)]
pub enum Error {
    /// The stream header does not describe the buffer it was decoded from.
    Format,
    /// A single column, string, or index value is locally malformed.
    Decode,
    /// A row or column index lies outside the valid range.
    Bounds,
}

} // verus!
