//! Space ids: each geometric entity type lives in its own space.
use vstd::prelude::*;

verus! {

pub const SOLIDS: u64 = 1;

pub const SHELLS: u64 = 2;

pub const FACES: u64 = 3;

pub const EDGES: u64 = 4;

pub const VERTICES: u64 = 5;

/// Six-dimensional: centroid (3) + normal or axis (3).
pub const BOUNDARY_FN: u64 = 6;

/// Hyperedges live here.
pub const TOPOLOGY: u64 = 10;

} // verus!
