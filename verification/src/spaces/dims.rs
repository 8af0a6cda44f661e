//! Dimension count of each space.
use vstd::prelude::*;

verus! {

pub const SPATIAL_3D: usize = 3;

pub const BOUNDARY_6D: usize = 6;

/// `(id_hi, id_lo)` of a hyperedge.
pub const TOPOLOGY_2D: usize = 2;

} // verus!
