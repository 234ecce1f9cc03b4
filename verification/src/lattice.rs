//! Integer points of the block lattice.

use vstd::prelude::*;

verus! {

/// An integer 3-vector: a cell location, a lattice corner or an axis direction.
#[derive(Debug, Clone, Copy, PartialEq, Eq)]
pub struct IVec3 {
    pub x: i32,
    pub y: i32,
    pub z: i32,
}

/// Builds an [`IVec3`] from its three components.
pub fn ivec3(x: i32, y: i32, z: i32) -> (v: IVec3)
    ensures
        v == (IVec3 { x, y, z }),
{
    IVec3 { x, y, z }
}

} // verus!
