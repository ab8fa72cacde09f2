use vstd::prelude::*;

pub mod geometry;
pub mod trig;
pub mod bullet;
pub mod player;
pub mod collision;
pub mod patterns;
pub mod game;

verus! {

/// The sum of two numbers.
pub fn add(left: u64, right: u64) -> (r: u64)
    requires
        left + right <= u64::MAX,
    ensures
        r == left + right,
{
    left + right
}

} // verus!
