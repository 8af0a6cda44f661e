//! The decisions taken while an encoded model is written to an InfiniteDB
//! directory: which registration failures are harmless, where a hyperedge
//! is stored, when progress is reported, and in which order spaces are
//! flushed.
use vstd::prelude::*;
use crate::encoder::DbHyperedge;
use crate::spaces::ids;
use crate::text::{chars_of, contains, contains_chars, starts_with, starts_with_chars};

verus! {

/// Controls optional logging while writing to InfiniteDB.
#[derive(Debug, Clone, Copy)]
pub struct WriteOptions {
    /// Report every entity and hyperedge.
    pub verbose: bool,
}

impl Default for WriteOptions {
    fn default() -> (r: Self)
        ensures
            !r.verbose,
    {
        WriteOptions { verbose: false }
    }
}

/// Summary returned after a successful write.
#[derive(Debug)]
pub struct WriteStats {
    pub records_written: usize,
    pub boundary_fns_written: usize,
    pub hyperedges_written: usize,
    pub final_revision: u64,
}

/// Whether a failure to register a space only says that the space exists.
pub fn is_duplicate_space_error(err: &str) -> (b: bool)
    ensures
        b == contains(err@, "Duplicate"@),
{
    let e = chars_of(err);
    let p = chars_of("Duplicate");
    contains_chars(e.as_slice(), p.as_slice())
}

/// Whether a write is large enough for progress milestones to be reported.
pub fn is_bulk_write(total_ops: usize) -> (b: bool)
    ensures
        b == (total_ops >= 100),
{
    total_ops >= 100
}

/// Whether the `done`-th of `total` inserts is a progress milestone: the
/// first, the last, and every 250th.
pub fn progress_milestone(done: usize, total: usize) -> (b: bool)
    ensures
        b == (done == 1 || done == total || done % 250 == 0),
{
    done == 1 || done == total || done % 250 == 0
}

/// The point at which a hyperedge is stored in the topology space: the
/// high and the low 32 bits of its id.
pub fn hyperedge_storage_coords(id: u64) -> (r: Vec<u32>)
    ensures
        r@ == seq![(id >> 32u64) as u32, (id & 0xFFFF_FFFFu64) as u32],
{
    let hi = (id >> 32u64) as u32;
    let lo = (id & 0xFFFF_FFFFu64) as u32;
    let mut r: Vec<u32> = Vec::new();
    r.push(hi);
    r.push(lo);
    assert(r@ =~= seq![hi, lo]);
    r
}

/// The storage point of a hyperedge determines its id: the id is the high
/// coordinate shifted up by 32 bits, combined with the low coordinate.
pub proof fn storage_coords_recover_id(id: u64)
    ensures
        ((((id >> 32u64) as u32) as u64) << 32u64) | (((id & 0xFFFF_FFFFu64) as u32) as u64) == id,
{
    assert(((((id >> 32u64) as u32) as u64) << 32u64) | (((id & 0xFFFF_FFFFu64) as u32) as u64)
        == id) by (bit_vector);
}

/// Distinct hyperedge ids are stored at distinct points.
pub proof fn storage_points_distinct(a: u64, b: u64)
    requires
        a != b,
    ensures
        seq![(a >> 32u64) as u32, (a & 0xFFFF_FFFFu64) as u32] != seq![
            (b >> 32u64) as u32,
            (b & 0xFFFF_FFFFu64) as u32,
        ],
{
    storage_coords_recover_id(a);
    storage_coords_recover_id(b);
    if seq![(a >> 32u64) as u32, (a & 0xFFFF_FFFFu64) as u32] == seq![
        (b >> 32u64) as u32,
        (b & 0xFFFF_FFFFu64) as u32,
    ] {
        assert(seq![(a >> 32u64) as u32, (a & 0xFFFF_FFFFu64) as u32][0] == (b >> 32u64) as u32);
        assert(seq![(a >> 32u64) as u32, (a & 0xFFFF_FFFFu64) as u32][1] == (b & 0xFFFF_FFFFu64) as u32);
    }
}

/// Whether a hyperedge concerns faces: its kind starts with `face.`, or one
/// of its endpoints has a role that mentions `face`.
pub open spec fn is_face_related(h: DbHyperedge) -> bool {
    starts_with(h.kind@, "face."@) || exists|i: int|
        0 <= i < h.endpoints@.len() && contains(#[trigger] h.endpoints@[i].role@, "face"@)
}

/// Whether the write of a hyperedge is reported: every one when verbose,
/// else those that concern faces.
pub fn hyperedge_log_wanted(h: &DbHyperedge, verbose: bool) -> (b: bool)
    ensures
        b == (verbose || is_face_related(*h)),
{
    let kind = chars_of(h.kind.as_str());
    let prefix = chars_of("face.");
    let face = chars_of("face");
    let mut related = starts_with_chars(kind.as_slice(), prefix.as_slice());
    let mut i: usize = 0;
    while i < h.endpoints.len() && !related
        invariant
            i <= h.endpoints@.len(),
            face@ == "face"@,
            related == (starts_with(h.kind@, "face."@) || exists|j: int|
                0 <= j < i && contains(#[trigger] h.endpoints@[j].role@, "face"@)),
        decreases h.endpoints@.len() - i,
    {
        let role = chars_of(h.endpoints[i].role.as_str());
        let found = contains_chars(role.as_slice(), face.as_slice());
        if found {
            related = true;
            assert(contains(h.endpoints@[i as int].role@, "face"@));
        } else {
            assert forall|j: int| 0 <= j < i + 1 && contains(#[trigger] h.endpoints@[j].role@, "face"@) implies j < i by {}
        }
        i = i + 1;
    }
    verbose || related
}

/// How the write of a record is reported.
#[derive(Debug, Clone, Copy, PartialEq, Eq, Structural)]
pub enum RecordLog {
    /// A face, with its surface, area and centroid.
    Face,
    /// A boundary function, with its kind and value at the centroid.
    BoundaryFn,
    /// Another entity, reported only when verbose.
    Other,
    /// Not reported.
    Silent,
}

/// How the write of a record with this entity type is reported.
pub fn record_log_kind(entity_type: &str, verbose: bool) -> (r: RecordLog)
    ensures
        r == (if entity_type@ == "face"@ {
            RecordLog::Face
        } else if starts_with(entity_type@, "boundary_fn::"@) {
            RecordLog::BoundaryFn
        } else if verbose {
            RecordLog::Other
        } else {
            RecordLog::Silent
        }),
{
    let t = chars_of(entity_type);
    let face = chars_of("face");
    let prefix = chars_of("boundary_fn::");
    if crate::text::chars_equal(t.as_slice(), face.as_slice()) {
        RecordLog::Face
    } else if starts_with_chars(t.as_slice(), prefix.as_slice()) {
        RecordLog::BoundaryFn
    } else if verbose {
        RecordLog::Other
    } else {
        RecordLog::Silent
    }
}

/// The spaces flushed after a write, in order.
pub fn flush_order() -> (r: Vec<u64>)
    ensures
        r@ == seq![ids::SOLIDS, ids::SHELLS, ids::FACES, ids::EDGES, ids::VERTICES, ids::BOUNDARY_FN, ids::TOPOLOGY],
{
    let r = vec![ids::SOLIDS, ids::SHELLS, ids::FACES, ids::EDGES, ids::VERTICES, ids::BOUNDARY_FN, ids::TOPOLOGY];
    assert(r@ =~= seq![ids::SOLIDS, ids::SHELLS, ids::FACES, ids::EDGES, ids::VERTICES, ids::BOUNDARY_FN, ids::TOPOLOGY]);
    r
}

} // verus!
