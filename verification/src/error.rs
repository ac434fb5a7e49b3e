use vstd::prelude::*;

verus! {

/// Errors of the tensor engine: allocation-size overflow and shape
/// disagreements between operands. They are propagated unchanged by every
/// traversal; nothing retries.
#[derive(Clone, Copy, Debug, PartialEq, Eq, Structural)]
pub enum Error {
    /// The element count or byte size of a requested tensor does not fit the
    /// machine word, or the device has no identifiers left.
    Alloc,
    /// An operand has a rank the operation does not accept.
    Rank,
    /// Operand dimensions disagree (for example the inner sizes of a
    /// matrix product).
    Dim,
}

/// Outcome of a whole-tree optimizer update: either some parameters had no
/// gradient entry (all of them are reported at once), or the device failed.
#[derive(Clone, Debug, PartialEq, Eq)]
pub enum OptimizerUpdateError {
    /// Identities of every parameter that was visited but had no entry in the
    /// gradient table.
    UnusedTensors(Vec<u64>),
    /// An engine error, propagated unchanged.
    DeviceError(Error),
}

/// Errors of loading a flattened parameter bag back into a module tree,
/// distinguishing content problems (a missing path, a wrong shape or element
/// type) from a malformed container.
#[derive(Clone, Copy, Debug, PartialEq, Eq, Structural)]
pub enum LoadError {
    /// A parameter leaf's path has no record.
    MissingPath,
    /// The record for a path carries the wrong shape or byte count.
    ShapeMismatch,
    /// The record for a path carries the wrong element type.
    DtypeMismatch,
    /// The container bytes could not be decoded at all.
    Malformed,
}

} // verus!
