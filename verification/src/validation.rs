use vstd::prelude::*;

verus! {

/// Self-validation of submitted data, run before it reaches a
/// repository.
pub trait Validate {
    type ValidationError;

    fn validate(&self) -> Result<(), Self::ValidationError>;
}

} // verus!
