//! Components that know the symbol they work on.
use vstd::prelude::*;
use super::maker::Maker;

verus! {

/// Shared functionality of components that are identified by a symbol.
pub trait Identifier {
    /// The symbol this component represents.
    fn symbol(&self) -> &str;
}

impl Identifier for Maker {
    /// The maker's market symbol.
    fn symbol(&self) -> (r: &str)
        ensures
            r@ == self.symbol@,
    {
        self.symbol.as_str()
    }
}

} // verus!
