use vstd::prelude::*;

verus! {

/// The token purpose this library issues and verifies: publicly verifiable,
/// asymmetrically signed tokens.
pub struct Public;

impl Public {
    pub const NAME: &'static str = "public";
}

} // verus!
