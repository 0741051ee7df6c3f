use vstd::prelude::*;
use crate::models::base::Base;

verus! {

/// A candidate opponent base together with the bits needed to conquer it.
#[derive(Clone, Copy)]
pub struct Target {
    pub base: Base,
    pub required_bits: u32,
}

impl Target {
    pub fn new(base: Base, required_bits: u32) -> (r: Target)
        ensures
            r.base == base,
            r.required_bits == required_bits,
    {
        Target { base, required_bits }
    }
}

} // verus!
