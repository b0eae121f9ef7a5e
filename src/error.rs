use vstd::prelude::*;

verus! {

/// What the engine rejects.
#[derive(Debug, Clone, Copy, PartialEq, Eq, Structural)]
pub enum PerceptronError {
    /// A label other than +1 or -1; carries the label given.
    InvalidLabel(i64),
    /// A sample whose feature count differs from the engine's; carries the
    /// dimension the engine requires.
    DimensionMismatch(usize),
    /// Training samples were added after the model was trained.
    InvalidOperation,
}

} // verus!
