/*!
 * Implements a generation enum and a Generation type alias for use with
 * generational bloom filter variants.
 */
use vstd::prelude::*;

verus! {

/// Create an enum to control which generation of bloom filter is the active
/// or current generation.
#[derive(PartialEq, Eq, Structural, Debug)]
pub enum GenerationValues {
    A,
    B,
}

impl GenerationValues {
    /// Return the generation name as a string
    pub fn as_str(&self) -> (r: &'static str)
        ensures
            *self == GenerationValues::A ==> r@ == "A"@,
            *self == GenerationValues::B ==> r@ == "B"@,
    {
        match *self {
            GenerationValues::A => "A",
            GenerationValues::B => "B",
        }
    }
}

/// Type alias for GenerationValues
pub type Generation = GenerationValues;

} // verus!
