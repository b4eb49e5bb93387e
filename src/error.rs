use vstd::prelude::*;

verus! {

/// What the task store can report instead of a result.
#[derive(Debug, Clone, Copy, PartialEq, Eq, Structural)]
pub enum StoreError {
    /// The table has handed out every identifier that an `i64` can hold.
    Full,
    /// A row's identifier does not fit the `i32` of a task entity.
    IdOutOfRange { id: i64 },
}

} // verus!
