use vstd::prelude::*;

verus! {

/// The token format version this library issues and verifies.
pub struct V4;

impl V4 {
    pub const NAME: &'static str = "v4";
}

} // verus!
