use vstd::prelude::*;

verus! {

/// Returned when a pool of zero workers is requested.
#[derive(Debug, Clone, Copy, PartialEq, Eq, Structural)]
pub struct ZeroSizedPoolErr;

impl ZeroSizedPoolErr {
    /// The text shown to a user when pool construction fails.
    pub fn message(&self) -> (r: &'static str)
        ensures
            r@ == "size must be higher than 0"@,
    {
        "size must be higher than 0"
    }
}

} // verus!
