use vstd::prelude::*;

verus! {

/// An environment light: rays that escape the scene see a vertical sky
/// gradient, and struck surfaces are lit from the direction they reflect into.
#[derive(Clone, Copy, Debug)]
pub struct SkyLight;

} // verus!
