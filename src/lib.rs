use vstd::prelude::*;

pub mod bridge;
pub mod codec;
pub mod config;
pub mod lamp;
pub mod mode;
pub mod parse;
pub mod registry;

verus! {

/// Response of the root path, which serves no lamp.
pub fn index() -> (r: &'static str)
    ensures
        r@ == "Not supported"@,
{
    "Not supported"
}

} // verus!
