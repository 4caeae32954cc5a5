use vstd::prelude::*;

verus! {

/// Why an operation on the store was refused.
#[derive(Clone, Copy, Debug, PartialEq, Eq, Structural)]
pub enum Error {
    /// The key is not currently occupied: it was already released, or never issued.
    InvalidKey,
    /// The model id was never returned by `add_model`.
    ModelIndexOutOfRange,
    /// The model already holds as many live instances as a handle can address.
    CapacityExceeded,
}

} // verus!
