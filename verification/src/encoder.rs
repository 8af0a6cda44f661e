//! Encoding the topology of a model as InfiniteDB addresses and hyperedges.
//!
//! Every vertex, edge, face, shell and solid gets a spatial address (its
//! space and its quantized coordinates), every face a boundary-function
//! address in the six-dimensional space, and the topology becomes typed
//! hyperedges:
//!
//! - `edge.has_start_vertex`, `edge.has_end_vertex`: edge → vertex
//! - `face.has_boundary_fn`: face → boundary function
//! - `face.has_boundary_edge`: face → edge
//! - `face.is_adjacent_to_face`: face → face, for faces sharing an edge
//! - `shell.contains_face`: shell → face
//! - `solid.contains_shell`: solid → shell
//!
//! Hyperedge ids are numbered from 100001 in the order above.
use vstd::prelude::*;
use std::collections::HashMap;
use crate::kinds::{boundary_fn_kind, boundary_kind_spec, boundary_label_spec, is_exact_spec,
    surface_name_spec, SurfaceTag};
use crate::spaces::{ids, dims, quantize_bits, quantize_spec};
use crate::text::{decimal, string_of, u64_to_decimal};
use vstd::string::StringExecFns;

verus! {

broadcast use vstd::std_specs::hash::group_hash_axioms;

/// An InfiniteDB address (space + coordinate vector).
pub struct DbAddress {
    pub space_id: u64,
    pub coords: Vec<u32>,
}

/// One endpoint of a hyperedge: its role, space and coordinates.
pub struct DbEndpoint {
    pub role: String,
    pub space_id: u64,
    pub coords: Vec<u32>,
}

/// A relationship record (maps to an InfiniteDB hyperedge).
pub struct DbHyperedge {
    pub id: u64,
    pub kind: String,
    /// (role, space_id, coords) for each endpoint.
    pub endpoints: Vec<DbEndpoint>,
    /// Optional weight in milli-units.
    pub weight_milli: Option<i64>,
    /// Key-value annotations, each key once. They are held as pairs in a
    /// `Vec`: vstd states what a `HashMap` holds only for keys that obey its
    /// key model, which it grants to integer and `bool` keys and not to
    /// `String`, so the contents of a `String`-keyed map could not be stated.
    pub metadata: Vec<(String, String)>,
}

/// Space registration info emitted alongside the records.
pub struct SpaceRegistration {
    pub id: u64,
    pub name: String,
    pub dims: usize,
    pub description: String,
}

/// A spatial record without its payload: its address and entity type label.
pub struct RecordSlot {
    pub address: DbAddress,
    pub entity_type: String,
}

/// A vertex: its id and its position as normalized coordinates.
pub struct VertexKey {
    pub id: u64,
    pub position: [u32; 3],
}

/// An edge: its vertices, its midpoint as normalized coordinates, and its
/// length in milli-units.
pub struct EdgeKey {
    pub id: u64,
    pub start_vertex_id: u64,
    pub end_vertex_id: u64,
    pub midpoint: [u32; 3],
    pub length_milli: i64,
}

/// A face: its bounding edges, its centroid and normal as normalized
/// coordinates, its area in milli-units and its surface kind.
pub struct FaceKey {
    pub id: u64,
    pub edge_loop: Vec<u64>,
    pub centroid: [u32; 3],
    pub normal: [u32; 3],
    pub area_milli: i64,
    pub surface: SurfaceTag,
}

/// A shell: its faces and its centroid as normalized coordinates.
pub struct ShellKey {
    pub id: u64,
    pub face_ids: Vec<u64>,
    pub centroid: [u32; 3],
}

/// A solid: its shells and its centroid as normalized coordinates.
pub struct SolidKey {
    pub id: u64,
    pub shell_ids: Vec<u64>,
    pub centroid: [u32; 3],
}

/// The topology of a model with the normalized coordinates of its entities.
pub struct TopologyModel {
    pub vertices: Vec<VertexKey>,
    pub edges: Vec<EdgeKey>,
    pub faces: Vec<FaceKey>,
    pub shells: Vec<ShellKey>,
    pub solids: Vec<SolidKey>,
}

/// The encoded model, without the records' payloads.
pub struct EncodedTopology {
    /// Space registry entries.
    pub spaces: Vec<SpaceRegistration>,
    /// The spatial records: vertices, edges, faces, shells, then solids.
    pub records: Vec<RecordSlot>,
    /// One boundary-function record per face.
    pub boundary_fns: Vec<RecordSlot>,
    /// All relationship hyperedges.
    pub hyperedges: Vec<DbHyperedge>,
}

// ---------------------------------------------------------------------------
// Plain views
// ---------------------------------------------------------------------------

/// An endpoint as plain values: role, space and coordinates.
pub type EndpointView = (Seq<char>, u64, Seq<u32>);

/// A hyperedge without its id, as plain values.
pub struct HyperedgeShape {
    pub kind: Seq<char>,
    pub endpoints: Seq<EndpointView>,
    pub weight_milli: Option<i64>,
    pub metadata: Seq<(Seq<char>, Seq<char>)>,
}

pub open spec fn endpoint_view(e: DbEndpoint) -> EndpointView {
    (e.role@, e.space_id, e.coords@)
}

pub open spec fn shape_of(h: DbHyperedge) -> HyperedgeShape {
    HyperedgeShape {
        kind: h.kind@,
        endpoints: h.endpoints@.map_values(|e: DbEndpoint| endpoint_view(e)),
        weight_milli: h.weight_milli,
        metadata: h.metadata@.map_values(|kv: (String, String)| (kv.0@, kv.1@)),
    }
}

/// A record slot as plain values: space, coordinates and entity type.
pub open spec fn slot_view(r: RecordSlot) -> (u64, Seq<u32>, Seq<char>) {
    (r.address.space_id, r.address.coords@, r.entity_type@)
}

// ---------------------------------------------------------------------------
// Coordinates and lookups
// ---------------------------------------------------------------------------

/// The quantized coordinates of a point.
pub open spec fn key3(p: [u32; 3], bits: u32) -> Seq<u32> {
    seq![quantize_spec(p@[0], bits), quantize_spec(p@[1], bits), quantize_spec(p@[2], bits)]
}

/// The quantized coordinates of a face in the boundary-function space:
/// centroid, then normal.
pub open spec fn key6(c: [u32; 3], n: [u32; 3], bits: u32) -> Seq<u32> {
    key3(c, bits) + key3(n, bits)
}

/// The first vertex at or after `i` with this id.
pub open spec fn vertex_from(vs: Seq<VertexKey>, id: u64, i: int) -> Option<int>
    decreases vs.len() - i,
{
    if i < 0 || i >= vs.len() {
        None
    } else if vs[i].id == id {
        Some(i)
    } else {
        vertex_from(vs, id, i + 1)
    }
}

/// The first edge at or after `i` with this id.
pub open spec fn edge_from(es: Seq<EdgeKey>, id: u64, i: int) -> Option<int>
    decreases es.len() - i,
{
    if i < 0 || i >= es.len() {
        None
    } else if es[i].id == id {
        Some(i)
    } else {
        edge_from(es, id, i + 1)
    }
}

/// The first face at or after `i` with this id.
pub open spec fn face_from(fs: Seq<FaceKey>, id: u64, i: int) -> Option<int>
    decreases fs.len() - i,
{
    if i < 0 || i >= fs.len() {
        None
    } else if fs[i].id == id {
        Some(i)
    } else {
        face_from(fs, id, i + 1)
    }
}

/// The first shell at or after `i` with this id.
pub open spec fn shell_from(ss: Seq<ShellKey>, id: u64, i: int) -> Option<int>
    decreases ss.len() - i,
{
    if i < 0 || i >= ss.len() {
        None
    } else if ss[i].id == id {
        Some(i)
    } else {
        shell_from(ss, id, i + 1)
    }
}

/// The coordinates of the first vertex with this id, or `[0, 0, 0]` when
/// there is none.
pub open spec fn vertex_coords_spec(m: TopologyModel, id: u64, bits: u32) -> Seq<u32> {
    match vertex_from(m.vertices@, id, 0) {
        Some(i) => key3(m.vertices@[i].position, bits),
        None => seq![0u32, 0u32, 0u32],
    }
}

/// The index of the last face with each id among the first `k` faces.
pub open spec fn face_index_map(fs: Seq<FaceKey>, k: int) -> Map<u64, int>
    decreases k,
{
    if k <= 0 {
        Map::empty()
    } else {
        face_index_map(fs, k - 1).insert(fs[k - 1].id, k - 1)
    }
}

// ---------------------------------------------------------------------------
// Hyperedge shapes
// ---------------------------------------------------------------------------

pub open spec fn two_ends(
    kind: Seq<char>,
    a: EndpointView,
    b: EndpointView,
    weight_milli: Option<i64>,
    metadata: Seq<(Seq<char>, Seq<char>)>,
) -> HyperedgeShape {
    HyperedgeShape { kind, endpoints: seq![a, b], weight_milli, metadata }
}

/// The two hyperedges of an edge: to its start vertex (weighted by the
/// edge's length) and to its end vertex.
pub open spec fn edge_shapes(m: TopologyModel, e: EdgeKey, bits: u32) -> Seq<HyperedgeShape> {
    let own = ("edge"@, ids::EDGES, key3(e.midpoint, bits));
    seq![
        two_ends(
            "edge.has_start_vertex"@,
            own,
            ("vertex"@, ids::VERTICES, vertex_coords_spec(m, e.start_vertex_id, bits)),
            Some(e.length_milli),
            Seq::empty(),
        ),
        two_ends(
            "edge.has_end_vertex"@,
            own,
            ("vertex"@, ids::VERTICES, vertex_coords_spec(m, e.end_vertex_id, bits)),
            None,
            Seq::empty(),
        ),
    ]
}

/// The hyperedges of the first `k` edges.
pub open spec fn edges_part(m: TopologyModel, bits: u32, k: int) -> Seq<HyperedgeShape>
    decreases k,
{
    if k <= 0 {
        Seq::empty()
    } else {
        edges_part(m, bits, k - 1) + edge_shapes(m, m.edges@[k - 1], bits)
    }
}

pub open spec fn bool_text(b: bool) -> Seq<char> {
    if b {
        "true"@
    } else {
        "false"@
    }
}

/// The hyperedge from a face to its boundary function.
pub open spec fn boundary_fn_shape(f: FaceKey, bits: u32) -> HyperedgeShape {
    two_ends(
        "face.has_boundary_fn"@,
        ("face"@, ids::FACES, key3(f.centroid, bits)),
        ("boundary_fn"@, ids::BOUNDARY_FN, key6(f.centroid, f.normal, bits)),
        Some(f.area_milli),
        seq![
            ("surface_type"@, surface_name_spec(f.surface)),
            ("is_exact_sdf"@, bool_text(is_exact_spec(f.surface))),
        ],
    )
}

/// The hyperedges from a face to the first `j` of its boundary edges that exist.
pub open spec fn boundary_edge_shapes(m: TopologyModel, f: FaceKey, bits: u32, j: int) -> Seq<
    HyperedgeShape,
>
    decreases j,
{
    if j <= 0 {
        Seq::empty()
    } else {
        let prev = boundary_edge_shapes(m, f, bits, j - 1);
        match edge_from(m.edges@, f.edge_loop@[j - 1], 0) {
            Some(i) => prev.push(
                two_ends(
                    "face.has_boundary_edge"@,
                    ("face"@, ids::FACES, key3(f.centroid, bits)),
                    ("edge"@, ids::EDGES, key3(m.edges@[i].midpoint, bits)),
                    None,
                    Seq::empty(),
                ),
            ),
            None => prev,
        }
    }
}

/// The hyperedges of the first `k` faces: each face's boundary function,
/// then its boundary edges.
pub open spec fn faces_part(m: TopologyModel, bits: u32, k: int) -> Seq<HyperedgeShape>
    decreases k,
{
    if k <= 0 {
        Seq::empty()
    } else {
        let f = m.faces@[k - 1];
        faces_part(m, bits, k - 1) + seq![boundary_fn_shape(f, bits)] + boundary_edge_shapes(
            m,
            f,
            bits,
            f.edge_loop@.len() as int,
        )
    }
}

/// The index of the group of edge `e`, if it has one.
pub open spec fn group_index(g: Seq<(u64, Seq<u64>)>, e: u64, i: int) -> Option<int>
    decreases g.len() - i,
{
    if i < 0 || i >= g.len() {
        None
    } else if g[i].0 == e {
        Some(i)
    } else {
        group_index(g, e, i + 1)
    }
}

/// Records that face `f` is bounded by edge `e`.
pub open spec fn group_add(g: Seq<(u64, Seq<u64>)>, e: u64, f: u64) -> Seq<(u64, Seq<u64>)> {
    match group_index(g, e, 0) {
        Some(i) => g.update(i, (e, g[i].1.push(f))),
        None => g.push((e, seq![f])),
    }
}

/// The groups after recording the first `j` edges of a face's loop.
pub open spec fn group_loop(g: Seq<(u64, Seq<u64>)>, edges: Seq<u64>, f: u64, j: int) -> Seq<
    (u64, Seq<u64>),
>
    decreases j,
{
    if j <= 0 {
        g
    } else {
        group_add(group_loop(g, edges, f, j - 1), edges[j - 1], f)
    }
}

/// For each edge bounding one of the first `k` faces, in order of first
/// appearance, the faces it bounds (a face once per occurrence).
pub open spec fn edge_groups(m: TopologyModel, k: int) -> Seq<(u64, Seq<u64>)>
    decreases k,
{
    if k <= 0 {
        Seq::empty()
    } else {
        let f = m.faces@[k - 1];
        group_loop(edge_groups(m, k - 1), f.edge_loop@, f.id, f.edge_loop@.len() as int)
    }
}

/// The coordinates under which a face id is found in the adjacency map:
/// those of the last face with this id.
pub open spec fn face_map_coords(m: TopologyModel, id: u64, bits: u32) -> Option<Seq<u32>> {
    let map = face_index_map(m.faces@, m.faces@.len() as int);
    if map.contains_key(id) {
        Some(key3(m.faces@[map[id]].centroid, bits))
    } else {
        None
    }
}

/// The adjacency hyperedge between faces `a` and `b` sharing edge `e`.
pub open spec fn adjacency_shape(m: TopologyModel, e: u64, a: u64, b: u64, bits: u32) -> Seq<
    HyperedgeShape,
> {
    match (face_map_coords(m, a, bits), face_map_coords(m, b, bits)) {
        (Some(ca), Some(cb)) => seq![
            two_ends(
                "face.is_adjacent_to_face"@,
                ("face_a"@, ids::FACES, ca),
                ("face_b"@, ids::FACES, cb),
                None,
                seq![("shared_edge_id"@, decimal(e as nat))],
            ),
        ],
        _ => Seq::empty(),
    }
}

/// The adjacency hyperedges pairing face `i` of `list` with faces `i+1 .. j`.
pub open spec fn pair_row(m: TopologyModel, e: u64, list: Seq<u64>, i: int, j: int, bits: u32) -> Seq<
    HyperedgeShape,
>
    decreases j - i,
{
    if j <= i + 1 {
        Seq::empty()
    } else {
        pair_row(m, e, list, i, j - 1, bits) + adjacency_shape(m, e, list[i], list[j - 1], bits)
    }
}

/// The adjacency hyperedges for the first `i` faces of `list`, each paired
/// with every later face.
pub open spec fn pair_rows(m: TopologyModel, e: u64, list: Seq<u64>, i: int, bits: u32) -> Seq<
    HyperedgeShape,
>
    decreases i,
{
    if i <= 0 {
        Seq::empty()
    } else {
        pair_rows(m, e, list, i - 1, bits) + pair_row(m, e, list, i - 1, list.len() as int, bits)
    }
}

/// The adjacency hyperedges of the first `k` edge groups.
pub open spec fn adjacency_part(m: TopologyModel, groups: Seq<(u64, Seq<u64>)>, bits: u32, k: int) -> Seq<
    HyperedgeShape,
>
    decreases k,
{
    if k <= 0 {
        Seq::empty()
    } else {
        let (e, list) = groups[k - 1];
        adjacency_part(m, groups, bits, k - 1) + if list.len() >= 2 {
            pair_rows(m, e, list, list.len() as int, bits)
        } else {
            Seq::empty()
        }
    }
}

/// The hyperedges from a shell to the first `j` of its faces that exist.
pub open spec fn shell_face_shapes(m: TopologyModel, s: ShellKey, bits: u32, j: int) -> Seq<
    HyperedgeShape,
>
    decreases j,
{
    if j <= 0 {
        Seq::empty()
    } else {
        let prev = shell_face_shapes(m, s, bits, j - 1);
        match face_from(m.faces@, s.face_ids@[j - 1], 0) {
            Some(i) => prev.push(
                two_ends(
                    "shell.contains_face"@,
                    ("shell"@, ids::SHELLS, key3(s.centroid, bits)),
                    ("face"@, ids::FACES, key3(m.faces@[i].centroid, bits)),
                    None,
                    Seq::empty(),
                ),
            ),
            None => prev,
        }
    }
}

/// The hyperedges of the first `k` shells.
pub open spec fn shells_part(m: TopologyModel, bits: u32, k: int) -> Seq<HyperedgeShape>
    decreases k,
{
    if k <= 0 {
        Seq::empty()
    } else {
        let s = m.shells@[k - 1];
        shells_part(m, bits, k - 1) + shell_face_shapes(m, s, bits, s.face_ids@.len() as int)
    }
}

/// The hyperedges from a solid to the first `j` of its shells that exist.
pub open spec fn solid_shell_shapes(m: TopologyModel, s: SolidKey, bits: u32, j: int) -> Seq<
    HyperedgeShape,
>
    decreases j,
{
    if j <= 0 {
        Seq::empty()
    } else {
        let prev = solid_shell_shapes(m, s, bits, j - 1);
        match shell_from(m.shells@, s.shell_ids@[j - 1], 0) {
            Some(i) => prev.push(
                two_ends(
                    "solid.contains_shell"@,
                    ("solid"@, ids::SOLIDS, key3(s.centroid, bits)),
                    ("shell"@, ids::SHELLS, key3(m.shells@[i].centroid, bits)),
                    None,
                    Seq::empty(),
                ),
            ),
            None => prev,
        }
    }
}

/// The hyperedges of the first `k` solids.
pub open spec fn solids_part(m: TopologyModel, bits: u32, k: int) -> Seq<HyperedgeShape>
    decreases k,
{
    if k <= 0 {
        Seq::empty()
    } else {
        let s = m.solids@[k - 1];
        solids_part(m, bits, k - 1) + solid_shell_shapes(m, s, bits, s.shell_ids@.len() as int)
    }
}

/// All hyperedges of a model, in order, without their ids.
pub open spec fn hyperedge_shapes(m: TopologyModel, bits: u32) -> Seq<HyperedgeShape> {
    let groups = edge_groups(m, m.faces@.len() as int);
    edges_part(m, bits, m.edges@.len() as int) + faces_part(m, bits, m.faces@.len() as int)
        + adjacency_part(m, groups, bits, groups.len() as int) + shells_part(
        m,
        bits,
        m.shells@.len() as int,
    ) + solids_part(m, bits, m.solids@.len() as int)
}

/// The first hyperedge id.
pub open spec fn first_hyperedge_id() -> int {
    100_001
}

/// The shapes of a sequence of hyperedges.
pub open spec fn shapes(v: Seq<DbHyperedge>) -> Seq<HyperedgeShape> {
    v.map_values(|h: DbHyperedge| shape_of(h))
}

proof fn lemma_shapes_push(v: Seq<DbHyperedge>, h: DbHyperedge)
    ensures
        shapes(v.push(h)) == shapes(v).push(shape_of(h)),
{
    assert(shapes(v.push(h)) =~= shapes(v).push(shape_of(h)));
}

// ---------------------------------------------------------------------------
// Building blocks
// ---------------------------------------------------------------------------

/// The quantized coordinates of a point.
pub fn key3_of(p: &[u32; 3], bits: u32) -> (r: Vec<u32>)
    ensures
        r@ == key3(*p, bits),
{
    let mut r: Vec<u32> = Vec::new();
    r.push(quantize_bits(p[0], bits));
    r.push(quantize_bits(p[1], bits));
    r.push(quantize_bits(p[2], bits));
    assert(r@ =~= key3(*p, bits));
    r
}

/// The quantized coordinates of a face in the boundary-function space.
pub fn key6_of(c: &[u32; 3], n: &[u32; 3], bits: u32) -> (r: Vec<u32>)
    ensures
        r@ == key6(*c, *n, bits),
{
    let mut r = key3_of(c, bits);
    let mut tail = key3_of(n, bits);
    r.append(&mut tail);
    r
}

fn endpoint(role: &str, space_id: u64, coords: Vec<u32>) -> (r: DbEndpoint)
    ensures
        endpoint_view(r) == (role@, space_id, coords@),
{
    DbEndpoint { role: role.to_owned(), space_id, coords }
}

/// A two-ended hyperedge, not yet numbered.
fn link(
    kind: &str,
    a: DbEndpoint,
    b: DbEndpoint,
    weight_milli: Option<i64>,
    metadata: Vec<(String, String)>,
) -> (r: DbHyperedge)
    ensures
        shape_of(r) == two_ends(
            kind@,
            endpoint_view(a),
            endpoint_view(b),
            weight_milli,
            metadata@.map_values(|kv: (String, String)| (kv.0@, kv.1@)),
        ),
{
    let ghost av = endpoint_view(a);
    let ghost bv = endpoint_view(b);
    let mut endpoints: Vec<DbEndpoint> = Vec::new();
    endpoints.push(a);
    endpoints.push(b);
    let r = DbHyperedge { id: 0, kind: kind.to_owned(), endpoints, weight_milli, metadata };
    assert(r.endpoints@.map_values(|e: DbEndpoint| endpoint_view(e)) =~= seq![av, bv]);
    r
}

/// A two-ended hyperedge without weight or metadata, not yet numbered.
fn plain_link(kind: &str, a: DbEndpoint, b: DbEndpoint, weight_milli: Option<i64>) -> (r: DbHyperedge)
    ensures
        shape_of(r) == two_ends(
            kind@,
            endpoint_view(a),
            endpoint_view(b),
            weight_milli,
            Seq::empty(),
        ),
{
    let metadata: Vec<(String, String)> = Vec::new();
    assert(metadata@.map_values(|kv: (String, String)| (kv.0@, kv.1@)) =~= Seq::<
        (Seq<char>, Seq<char>),
    >::empty());
    link(kind, a, b, weight_milli, metadata)
}

/// The quantized coordinates of the first vertex with this id, or
/// `[0, 0, 0]` when there is none.
pub fn vertex_coords_for(m: &TopologyModel, vertex_id: u64, bits: u32) -> (r: Vec<u32>)
    ensures
        r@ == vertex_coords_spec(*m, vertex_id, bits),
{
    let mut i: usize = 0;
    while i < m.vertices.len()
        invariant
            i <= m.vertices@.len(),
            vertex_from(m.vertices@, vertex_id, 0) == vertex_from(m.vertices@, vertex_id, i as int),
        decreases m.vertices@.len() - i,
    {
        if m.vertices[i].id == vertex_id {
            return key3_of(&m.vertices[i].position, bits);
        }
        i = i + 1;
    }
    let r = vec![0u32, 0u32, 0u32];
    assert(r@ =~= seq![0u32, 0u32, 0u32]);
    r
}

fn find_edge(m: &TopologyModel, id: u64) -> (r: Option<usize>)
    ensures
        r matches Some(i) ==> edge_from(m.edges@, id, 0) == Some(i as int) && i < m.edges@.len(),
        r is None ==> edge_from(m.edges@, id, 0) is None,
{
    let mut i: usize = 0;
    while i < m.edges.len()
        invariant
            i <= m.edges@.len(),
            edge_from(m.edges@, id, 0) == edge_from(m.edges@, id, i as int),
        decreases m.edges@.len() - i,
    {
        if m.edges[i].id == id {
            return Some(i);
        }
        i = i + 1;
    }
    None
}

fn find_face(m: &TopologyModel, id: u64) -> (r: Option<usize>)
    ensures
        r matches Some(i) ==> face_from(m.faces@, id, 0) == Some(i as int) && i < m.faces@.len(),
        r is None ==> face_from(m.faces@, id, 0) is None,
{
    let mut i: usize = 0;
    while i < m.faces.len()
        invariant
            i <= m.faces@.len(),
            face_from(m.faces@, id, 0) == face_from(m.faces@, id, i as int),
        decreases m.faces@.len() - i,
    {
        if m.faces[i].id == id {
            return Some(i);
        }
        i = i + 1;
    }
    None
}

fn find_shell(m: &TopologyModel, id: u64) -> (r: Option<usize>)
    ensures
        r matches Some(i) ==> shell_from(m.shells@, id, 0) == Some(i as int) && i < m.shells@.len(),
        r is None ==> shell_from(m.shells@, id, 0) is None,
{
    let mut i: usize = 0;
    while i < m.shells.len()
        invariant
            i <= m.shells@.len(),
            shell_from(m.shells@, id, 0) == shell_from(m.shells@, id, i as int),
        decreases m.shells@.len() - i,
    {
        if m.shells[i].id == id {
            return Some(i);
        }
        i = i + 1;
    }
    None
}

// ---------------------------------------------------------------------------
// Hyperedges, part by part
// ---------------------------------------------------------------------------

fn push_edge_links(m: &TopologyModel, bits: u32, out: &mut Vec<DbHyperedge>)
    ensures
        shapes(final(out)@) == shapes(old(out)@) + edges_part(*m, bits, m.edges@.len() as int),
{
    let ghost base = shapes(out@);
    let mut i: usize = 0;
    assert(shapes(out@) =~= base + edges_part(*m, bits, 0));
    while i < m.edges.len()
        invariant
            i <= m.edges@.len(),
            shapes(out@) == base + edges_part(*m, bits, i as int),
        decreases m.edges@.len() - i,
    {
        let e = &m.edges[i];
        let coords = key3_of(&e.midpoint, bits);
        let start = plain_link(
            "edge.has_start_vertex",
            endpoint("edge", ids::EDGES, key3_of(&e.midpoint, bits)),
            endpoint("vertex", ids::VERTICES, vertex_coords_for(m, e.start_vertex_id, bits)),
            Some(e.length_milli),
        );
        let end = plain_link(
            "edge.has_end_vertex",
            endpoint("edge", ids::EDGES, coords),
            endpoint("vertex", ids::VERTICES, vertex_coords_for(m, e.end_vertex_id, bits)),
            None,
        );
        let ghost before = out@;
        proof {
            lemma_shapes_push(before, start);
            lemma_shapes_push(before.push(start), end);
        }
        out.push(start);
        out.push(end);
        assert(edge_shapes(*m, m.edges@[i as int], bits) =~= seq![shape_of(start), shape_of(end)]);
        assert(shapes(out@) =~= base + edges_part(*m, bits, i + 1));
        i = i + 1;
    }
}

fn push_face_links(m: &TopologyModel, bits: u32, out: &mut Vec<DbHyperedge>)
    ensures
        shapes(final(out)@) == shapes(old(out)@) + faces_part(*m, bits, m.faces@.len() as int),
{
    let ghost base = shapes(out@);
    let mut i: usize = 0;
    assert(shapes(out@) =~= base + faces_part(*m, bits, 0));
    while i < m.faces.len()
        invariant
            i <= m.faces@.len(),
            shapes(out@) == base + faces_part(*m, bits, i as int),
        decreases m.faces@.len() - i,
    {
        let f = &m.faces[i];
        let (_, is_exact, surface_name) = boundary_fn_kind(&f.surface);
        let exact_text = if is_exact {
            "true".to_owned()
        } else {
            "false".to_owned()
        };
        let mut metadata: Vec<(String, String)> = Vec::new();
        metadata.push(("surface_type".to_owned(), surface_name));
        metadata.push(("is_exact_sdf".to_owned(), exact_text));
        let ghost mv = metadata@;
        assert(mv.map_values(|kv: (String, String)| (kv.0@, kv.1@)) =~= seq![
            ("surface_type"@, surface_name_spec(f.surface)),
            ("is_exact_sdf"@, bool_text(is_exact_spec(f.surface))),
        ]);
        let bfn = link(
            "face.has_boundary_fn",
            endpoint("face", ids::FACES, key3_of(&f.centroid, bits)),
            endpoint("boundary_fn", ids::BOUNDARY_FN, key6_of(&f.centroid, &f.normal, bits)),
            Some(f.area_milli),
            metadata,
        );
        proof {
            lemma_shapes_push(out@, bfn);
        }
        out.push(bfn);
        let ghost mid = shapes(out@);
        let mut j: usize = 0;
        assert(mid =~= mid + boundary_edge_shapes(*m, *f, bits, 0));
        while j < f.edge_loop.len()
            invariant
                i < m.faces@.len(),
                f == m.faces@[i as int],
                j <= f.edge_loop@.len(),
                shapes(out@) == mid + boundary_edge_shapes(*m, *f, bits, j as int),
            decreases f.edge_loop@.len() - j,
        {
            match find_edge(m, f.edge_loop[j]) {
                Some(k) => {
                    let h = plain_link(
                        "face.has_boundary_edge",
                        endpoint("face", ids::FACES, key3_of(&f.centroid, bits)),
                        endpoint("edge", ids::EDGES, key3_of(&m.edges[k].midpoint, bits)),
                        None,
                    );
                    proof {
                        lemma_shapes_push(out@, h);
                    }
                    out.push(h);
                    assert(shapes(out@) =~= mid + boundary_edge_shapes(*m, *f, bits, j + 1));
                },
                None => {},
            }
            j = j + 1;
        }
        assert(shapes(out@) =~= base + faces_part(*m, bits, i + 1));
        i = i + 1;
    }
}

/// The edge groups as plain values.
pub open spec fn groups_view(keys: Seq<u64>, members: Seq<Vec<u64>>) -> Seq<(u64, Seq<u64>)> {
    Seq::new(keys.len(), |i: int| (keys[i], members[i]@))
}

proof fn lemma_group_index_keys(g: Seq<(u64, Seq<u64>)>, h: Seq<(u64, Seq<u64>)>, e: u64, i: int)
    requires
        g.len() == h.len(),
        forall|k: int| 0 <= k < g.len() ==> g[k].0 == h[k].0,
    ensures
        group_index(g, e, i) == group_index(h, e, i),
    decreases g.len() - i,
{
    if 0 <= i < g.len() && g[i].0 != e {
        lemma_group_index_keys(g, h, e, i + 1);
    }
}

proof fn lemma_group_index_push(g: Seq<(u64, Seq<u64>)>, x: (u64, Seq<u64>), e: u64, i: int)
    requires
        0 <= i <= g.len(),
    ensures
        group_index(g.push(x), e, i) == (match group_index(g, e, i) {
            Some(k) => Some(k),
            None => if x.0 == e {
                Some(g.len() as int)
            } else {
                None
            },
        }),
    decreases g.len() - i,
{
    if i < g.len() {
        assert(g.push(x)[i] == g[i]);
        if g[i].0 != e {
            lemma_group_index_push(g, x, e, i + 1);
        }
    } else {
        assert(g.push(x)[i] == x);
        assert(group_index(g.push(x), e, i + 1) is None);
        assert(group_index(g, e, i) is None);
    }
}

proof fn lemma_group_index_found(g: Seq<(u64, Seq<u64>)>, e: u64, i: int)
    ensures
        group_index(g, e, i) matches Some(k) ==> i <= k < g.len() && g[k].0 == e,
    decreases g.len() - i,
{
    if 0 <= i < g.len() && g[i].0 != e {
        lemma_group_index_found(g, e, i + 1);
    }
}

/// The index of each grouped edge in `keys`.
pub open spec fn indexes_groups(index: Map<u64, usize>, g: Seq<(u64, Seq<u64>)>) -> bool {
    forall|e: u64|
        #![trigger index.contains_key(e)]
        #![trigger group_index(g, e, 0)]
        (index.contains_key(e) <==> group_index(g, e, 0) is Some) && (index.contains_key(e)
            ==> group_index(g, e, 0) == Some(index[e] as int))
}

/// For each edge bounding a face, in order of first appearance, the faces it bounds.
///
/// An edge is found again through a `HashMap` from edge id to its group's
/// index; the groups themselves are kept in `Vec`s so that they come out in
/// a stated order (the order in which a `HashMap` is walked is unspecified).
fn edge_groups_of(m: &TopologyModel) -> (r: (Vec<u64>, Vec<Vec<u64>>))
    ensures
        r.0@.len() == r.1@.len(),
        groups_view(r.0@, r.1@) == edge_groups(*m, m.faces@.len() as int),
{
    let mut keys: Vec<u64> = Vec::new();
    let mut members: Vec<Vec<u64>> = Vec::new();
    let mut index: HashMap<u64, usize> = HashMap::new();
    let mut i: usize = 0;
    assert(groups_view(keys@, members@) =~= edge_groups(*m, 0));
    while i < m.faces.len()
        invariant
            i <= m.faces@.len(),
            keys@.len() == members@.len(),
            groups_view(keys@, members@) == edge_groups(*m, i as int),
            indexes_groups(index@, groups_view(keys@, members@)),
        decreases m.faces@.len() - i,
    {
        let f = &m.faces[i];
        let ghost start = groups_view(keys@, members@);
        let mut j: usize = 0;
        while j < f.edge_loop.len()
            invariant
                i < m.faces@.len(),
                f == m.faces@[i as int],
                j <= f.edge_loop@.len(),
                keys@.len() == members@.len(),
                groups_view(keys@, members@) == group_loop(start, f.edge_loop@, f.id, j as int),
                indexes_groups(index@, groups_view(keys@, members@)),
            decreases f.edge_loop@.len() - j,
        {
            let e = f.edge_loop[j];
            let ghost g = groups_view(keys@, members@);
            match index.get(&e) {
                Some(k) => {
                    let k = *k;
                    proof {
                        lemma_group_index_found(g, e, 0);
                    }
                    members[k].push(f.id);
                    let ghost g2 = groups_view(keys@, members@);
                    assert(g2 =~= g.update(k as int, (e, g[k as int].1.push(f.id))));
                    assert forall|x: u64| #![auto] group_index(g2, x, 0) == group_index(g, x, 0) by {
                        lemma_group_index_keys(g2, g, x, 0);
                    }
                },
                None => {
                    let n = keys.len();
                    let mut fresh: Vec<u64> = Vec::new();
                    fresh.push(f.id);
                    keys.push(e);
                    members.push(fresh);
                    index.insert(e, n);
                    let ghost g2 = groups_view(keys@, members@);
                    assert(g2 =~= g.push((e, seq![f.id])));
                    assert forall|x: u64| #![auto] group_index(g2, x, 0) == (match group_index(g, x, 0) {
                        Some(k) => Some(k),
                        None => if e == x {
                            Some(g.len() as int)
                        } else {
                            None
                        },
                    }) by {
                        lemma_group_index_push(g, (e, seq![f.id]), x, 0);
                    }
                },
            }
            j = j + 1;
        }
        i = i + 1;
    }
    (keys, members)
}

proof fn lemma_face_index_bounds(fs: Seq<FaceKey>, k: int)
    requires
        0 <= k <= fs.len(),
    ensures
        forall|id: u64| #[trigger]
            face_index_map(fs, k).contains_key(id) ==> 0 <= face_index_map(fs, k)[id] < k,
    decreases k,
{
    if k > 0 {
        lemma_face_index_bounds(fs, k - 1);
        assert forall|id: u64| #[trigger]
            face_index_map(fs, k).contains_key(id) implies 0 <= face_index_map(fs, k)[id] < k by {
            if id != fs[k - 1].id {
                assert(face_index_map(fs, k - 1).contains_key(id));
            }
        }
    }
}

/// The index of the last face with each id.
fn face_index_of(m: &TopologyModel) -> (r: HashMap<u64, usize>)
    ensures
        forall|id: u64|
            #![trigger r@.contains_key(id)]
            r@.contains_key(id) == face_index_map(m.faces@, m.faces@.len() as int).contains_key(id)
                && (r@.contains_key(id) ==> r@[id] as int == face_index_map(
                m.faces@,
                m.faces@.len() as int,
            )[id]),
{
    let mut map: HashMap<u64, usize> = HashMap::new();
    let mut i: usize = 0;
    while i < m.faces.len()
        invariant
            i <= m.faces@.len(),
            forall|id: u64|
                #![trigger map@.contains_key(id)]
                map@.contains_key(id) == face_index_map(m.faces@, i as int).contains_key(id) && (
                map@.contains_key(id) ==> map@[id] as int == face_index_map(m.faces@, i as int)[id]),
        decreases m.faces@.len() - i,
    {
        map.insert(m.faces[i].id, i);
        i = i + 1;
    }
    map
}

fn push_adjacency_links(
    m: &TopologyModel,
    bits: u32,
    keys: &Vec<u64>,
    members: &Vec<Vec<u64>>,
    face_index: &HashMap<u64, usize>,
    out: &mut Vec<DbHyperedge>,
)
    requires
        keys@.len() == members@.len(),
        forall|id: u64|
            #![trigger face_index@.contains_key(id)]
            face_index@.contains_key(id) == face_index_map(m.faces@, m.faces@.len() as int).contains_key(id)
                && (face_index@.contains_key(id) ==> face_index@[id] as int == face_index_map(
                m.faces@,
                m.faces@.len() as int,
            )[id]),
    ensures
        shapes(final(out)@) == shapes(old(out)@) + adjacency_part(
            *m,
            groups_view(keys@, members@),
            bits,
            keys@.len() as int,
        ),
{
    let ghost groups = groups_view(keys@, members@);
    let ghost base = shapes(out@);
    proof {
        lemma_face_index_bounds(m.faces@, m.faces@.len() as int);
    }
    let mut k: usize = 0;
    assert(shapes(out@) =~= base + adjacency_part(*m, groups, bits, 0));
    while k < keys.len()
        invariant
            k <= keys@.len(),
            groups == groups_view(keys@, members@),
            keys@.len() == members@.len(),
            forall|id: u64|
                #![trigger face_index@.contains_key(id)]
                face_index@.contains_key(id) == face_index_map(m.faces@, m.faces@.len() as int).contains_key(id)
                    && (face_index@.contains_key(id) ==> face_index@[id] as int == face_index_map(
                    m.faces@,
                    m.faces@.len() as int,
                )[id]),
            shapes(out@) == base + adjacency_part(*m, groups, bits, k as int),
        decreases keys@.len() - k,
    {
        let e = keys[k];
        let list = &members[k];
        let ghost lv = list@;
        let ghost before = shapes(out@);
        assert(groups[k as int] == (e, lv));
        if list.len() >= 2 {
            let mut i: usize = 0;
            assert(before =~= before + pair_rows(*m, e, lv, 0, bits));
            while i < list.len()
                invariant
                    lv == list@,
                    i <= lv.len(),
                    forall|id: u64|
                        #![trigger face_index@.contains_key(id)]
                        face_index@.contains_key(id) == face_index_map(m.faces@, m.faces@.len() as int).contains_key(id)
                            && (face_index@.contains_key(id) ==> face_index@[id] as int
                            == face_index_map(m.faces@, m.faces@.len() as int)[id]),
                    shapes(out@) == before + pair_rows(*m, e, lv, i as int, bits),
                decreases lv.len() - i,
            {
                let ghost row_start = shapes(out@);
                let mut j: usize = i + 1;
                assert(row_start =~= row_start + pair_row(*m, e, lv, i as int, j as int, bits));
                while j < list.len()
                    invariant
                        lv == list@,
                        i < lv.len(),
                        i + 1 <= j <= lv.len(),
                        forall|id: u64|
                            #![trigger face_index@.contains_key(id)]
                            face_index@.contains_key(id) == face_index_map(m.faces@, m.faces@.len() as int).contains_key(id)
                                && (face_index@.contains_key(id) ==> face_index@[id] as int
                                == face_index_map(m.faces@, m.faces@.len() as int)[id]),
                        shapes(out@) == row_start + pair_row(*m, e, lv, i as int, j as int, bits),
                    decreases lv.len() - j,
                {
                    let a = list[i];
                    let b = list[j];
                    let ghost cur = shapes(out@);
                    match (face_index.get(&a), face_index.get(&b)) {
                        (Some(ia), Some(ib)) => {
                            let ia = *ia;
                            let ib = *ib;
                            proof {
                                lemma_face_index_bounds(m.faces@, m.faces@.len() as int);
                            }
                            assert(face_index_map(m.faces@, m.faces@.len() as int).contains_key(a));
                            assert(face_index_map(m.faces@, m.faces@.len() as int).contains_key(b));
                            let ca = key3_of(&m.faces[ia].centroid, bits);
                            let cb = key3_of(&m.faces[ib].centroid, bits);
                            let shared = string_of(u64_to_decimal(e).as_slice());
                            let mut metadata: Vec<(String, String)> = Vec::new();
                            metadata.push(("shared_edge_id".to_owned(), shared));
                            assert(metadata@.map_values(|kv: (String, String)| (kv.0@, kv.1@)) =~= seq![
                                ("shared_edge_id"@, decimal(e as nat)),
                            ]);
                            let h = link(
                                "face.is_adjacent_to_face",
                                endpoint("face_a", ids::FACES, ca),
                                endpoint("face_b", ids::FACES, cb),
                                None,
                                metadata,
                            );
                            proof {
                                lemma_shapes_push(out@, h);
                            }
                            out.push(h);
                            assert(adjacency_shape(*m, e, a, b, bits) =~= seq![shape_of(h)]);
                            assert(shapes(out@) =~= cur + adjacency_shape(*m, e, a, b, bits));
                        },
                        _ => {
                            assert(adjacency_shape(*m, e, a, b, bits) =~= Seq::<HyperedgeShape>::empty());
                            assert(shapes(out@) =~= cur + adjacency_shape(*m, e, a, b, bits));
                        },
                    }
                    assert(shapes(out@) =~= row_start + pair_row(*m, e, lv, i as int, j + 1, bits));
                    j = j + 1;
                }
                assert(shapes(out@) =~= before + pair_rows(*m, e, lv, i + 1, bits));
                i = i + 1;
            }
        }
        assert(shapes(out@) =~= base + adjacency_part(*m, groups, bits, k + 1));
        k = k + 1;
    }
}

fn push_shell_links(m: &TopologyModel, bits: u32, out: &mut Vec<DbHyperedge>)
    ensures
        shapes(final(out)@) == shapes(old(out)@) + shells_part(*m, bits, m.shells@.len() as int),
{
    let ghost base = shapes(out@);
    let mut i: usize = 0;
    assert(shapes(out@) =~= base + shells_part(*m, bits, 0));
    while i < m.shells.len()
        invariant
            i <= m.shells@.len(),
            shapes(out@) == base + shells_part(*m, bits, i as int),
        decreases m.shells@.len() - i,
    {
        let s = &m.shells[i];
        let ghost mid = shapes(out@);
        let mut j: usize = 0;
        assert(mid =~= mid + shell_face_shapes(*m, *s, bits, 0));
        while j < s.face_ids.len()
            invariant
                i < m.shells@.len(),
                s == m.shells@[i as int],
                j <= s.face_ids@.len(),
                shapes(out@) == mid + shell_face_shapes(*m, *s, bits, j as int),
            decreases s.face_ids@.len() - j,
        {
            match find_face(m, s.face_ids[j]) {
                Some(k) => {
                    let h = plain_link(
                        "shell.contains_face",
                        endpoint("shell", ids::SHELLS, key3_of(&s.centroid, bits)),
                        endpoint("face", ids::FACES, key3_of(&m.faces[k].centroid, bits)),
                        None,
                    );
                    proof {
                        lemma_shapes_push(out@, h);
                    }
                    out.push(h);
                    assert(shapes(out@) =~= mid + shell_face_shapes(*m, *s, bits, j + 1));
                },
                None => {},
            }
            j = j + 1;
        }
        assert(shapes(out@) =~= base + shells_part(*m, bits, i + 1));
        i = i + 1;
    }
}

fn push_solid_links(m: &TopologyModel, bits: u32, out: &mut Vec<DbHyperedge>)
    ensures
        shapes(final(out)@) == shapes(old(out)@) + solids_part(*m, bits, m.solids@.len() as int),
{
    let ghost base = shapes(out@);
    let mut i: usize = 0;
    assert(shapes(out@) =~= base + solids_part(*m, bits, 0));
    while i < m.solids.len()
        invariant
            i <= m.solids@.len(),
            shapes(out@) == base + solids_part(*m, bits, i as int),
        decreases m.solids@.len() - i,
    {
        let s = &m.solids[i];
        let ghost mid = shapes(out@);
        let mut j: usize = 0;
        assert(mid =~= mid + solid_shell_shapes(*m, *s, bits, 0));
        while j < s.shell_ids.len()
            invariant
                i < m.solids@.len(),
                s == m.solids@[i as int],
                j <= s.shell_ids@.len(),
                shapes(out@) == mid + solid_shell_shapes(*m, *s, bits, j as int),
            decreases s.shell_ids@.len() - j,
        {
            match find_shell(m, s.shell_ids[j]) {
                Some(k) => {
                    let h = plain_link(
                        "solid.contains_shell",
                        endpoint("solid", ids::SOLIDS, key3_of(&s.centroid, bits)),
                        endpoint("shell", ids::SHELLS, key3_of(&m.shells[k].centroid, bits)),
                        None,
                    );
                    proof {
                        lemma_shapes_push(out@, h);
                    }
                    out.push(h);
                    assert(shapes(out@) =~= mid + solid_shell_shapes(*m, *s, bits, j + 1));
                },
                None => {},
            }
            j = j + 1;
        }
        assert(shapes(out@) =~= base + solids_part(*m, bits, i + 1));
        i = i + 1;
    }
}

// ---------------------------------------------------------------------------
// Records, spaces and the whole model
// ---------------------------------------------------------------------------

/// The spatial record of each vertex, edge, face, shell and solid, in that order.
pub open spec fn record_slots(m: TopologyModel, bits: u32) -> Seq<(u64, Seq<u32>, Seq<char>)> {
    m.vertices@.map_values(|v: VertexKey| (ids::VERTICES, key3(v.position, bits), "vertex"@))
        + m.edges@.map_values(|e: EdgeKey| (ids::EDGES, key3(e.midpoint, bits), "edge"@))
        + m.faces@.map_values(|f: FaceKey| (ids::FACES, key3(f.centroid, bits), "face"@))
        + m.shells@.map_values(|s: ShellKey| (ids::SHELLS, key3(s.centroid, bits), "shell"@))
        + m.solids@.map_values(|s: SolidKey| (ids::SOLIDS, key3(s.centroid, bits), "solid"@))
}

/// The entity type of a face's boundary-function record.
pub open spec fn boundary_entity_type(f: FaceKey) -> Seq<char> {
    "boundary_fn::"@ + boundary_label_spec(boundary_kind_spec(f.surface))
}

/// The boundary-function record of each face: in the six-dimensional
/// space, at the face's centroid and normal.
pub open spec fn boundary_slots(m: TopologyModel, bits: u32) -> Seq<(u64, Seq<u32>, Seq<char>)> {
    m.faces@.map_values(
        |f: FaceKey| (ids::BOUNDARY_FN, key6(f.centroid, f.normal, bits), boundary_entity_type(f)),
    )
}

pub open spec fn slots(v: Seq<RecordSlot>) -> Seq<(u64, Seq<u32>, Seq<char>)> {
    v.map_values(|r: RecordSlot| slot_view(r))
}

fn slot(space_id: u64, coords: Vec<u32>, entity_type: String) -> (r: RecordSlot)
    ensures
        slot_view(r) == (space_id, coords@, entity_type@),
{
    RecordSlot { address: DbAddress { space_id, coords }, entity_type }
}

fn record_slots_of(m: &TopologyModel, bits: u32) -> (r: Vec<RecordSlot>)
    ensures
        slots(r@) == record_slots(*m, bits),
{
    let mut out: Vec<RecordSlot> = Vec::new();
    let ghost vs = m.vertices@.map_values(|v: VertexKey| (ids::VERTICES, key3(v.position, bits), "vertex"@));
    let ghost es = m.edges@.map_values(|e: EdgeKey| (ids::EDGES, key3(e.midpoint, bits), "edge"@));
    let ghost fs = m.faces@.map_values(|f: FaceKey| (ids::FACES, key3(f.centroid, bits), "face"@));
    let ghost ss = m.shells@.map_values(|s: ShellKey| (ids::SHELLS, key3(s.centroid, bits), "shell"@));
    let ghost ds = m.solids@.map_values(|s: SolidKey| (ids::SOLIDS, key3(s.centroid, bits), "solid"@));
    let mut i: usize = 0;
    assert(slots(out@) =~= vs.take(0));
    while i < m.vertices.len()
        invariant
            i <= m.vertices@.len(),
            vs == m.vertices@.map_values(|v: VertexKey| (ids::VERTICES, key3(v.position, bits), "vertex"@)),
            slots(out@) == vs.take(i as int),
        decreases m.vertices@.len() - i,
    {
        let r = slot(ids::VERTICES, key3_of(&m.vertices[i].position, bits), "vertex".to_owned());
        let ghost before = out@;
        out.push(r);
        assert(slots(out@) =~= slots(before).push(slot_view(r)));
        assert(vs.take(i + 1) =~= vs.take(i as int).push(vs[i as int]));
        assert(slots(out@) =~= vs.take(i + 1));
        i = i + 1;
    }
    assert(vs.take(vs.len() as int) =~= vs);
    let ghost a = slots(out@);
    let mut i: usize = 0;
    assert(slots(out@) =~= a + es.take(0));
    while i < m.edges.len()
        invariant
            i <= m.edges@.len(),
            es == m.edges@.map_values(|e: EdgeKey| (ids::EDGES, key3(e.midpoint, bits), "edge"@)),
            slots(out@) == a + es.take(i as int),
        decreases m.edges@.len() - i,
    {
        let r = slot(ids::EDGES, key3_of(&m.edges[i].midpoint, bits), "edge".to_owned());
        let ghost before = out@;
        out.push(r);
        assert(slots(out@) =~= slots(before).push(slot_view(r)));
        assert(es.take(i + 1) =~= es.take(i as int).push(es[i as int]));
        assert(slots(out@) =~= a + es.take(i + 1));
        i = i + 1;
    }
    assert(es.take(es.len() as int) =~= es);
    let ghost b = slots(out@);
    let mut i: usize = 0;
    assert(slots(out@) =~= b + fs.take(0));
    while i < m.faces.len()
        invariant
            i <= m.faces@.len(),
            fs == m.faces@.map_values(|f: FaceKey| (ids::FACES, key3(f.centroid, bits), "face"@)),
            slots(out@) == b + fs.take(i as int),
        decreases m.faces@.len() - i,
    {
        let r = slot(ids::FACES, key3_of(&m.faces[i].centroid, bits), "face".to_owned());
        let ghost before = out@;
        out.push(r);
        assert(slots(out@) =~= slots(before).push(slot_view(r)));
        assert(fs.take(i + 1) =~= fs.take(i as int).push(fs[i as int]));
        assert(slots(out@) =~= b + fs.take(i + 1));
        i = i + 1;
    }
    assert(fs.take(fs.len() as int) =~= fs);
    let ghost c = slots(out@);
    let mut i: usize = 0;
    assert(slots(out@) =~= c + ss.take(0));
    while i < m.shells.len()
        invariant
            i <= m.shells@.len(),
            ss == m.shells@.map_values(|s: ShellKey| (ids::SHELLS, key3(s.centroid, bits), "shell"@)),
            slots(out@) == c + ss.take(i as int),
        decreases m.shells@.len() - i,
    {
        let r = slot(ids::SHELLS, key3_of(&m.shells[i].centroid, bits), "shell".to_owned());
        let ghost before = out@;
        out.push(r);
        assert(slots(out@) =~= slots(before).push(slot_view(r)));
        assert(ss.take(i + 1) =~= ss.take(i as int).push(ss[i as int]));
        assert(slots(out@) =~= c + ss.take(i + 1));
        i = i + 1;
    }
    assert(ss.take(ss.len() as int) =~= ss);
    let ghost d = slots(out@);
    let mut i: usize = 0;
    assert(slots(out@) =~= d + ds.take(0));
    while i < m.solids.len()
        invariant
            i <= m.solids@.len(),
            ds == m.solids@.map_values(|s: SolidKey| (ids::SOLIDS, key3(s.centroid, bits), "solid"@)),
            slots(out@) == d + ds.take(i as int),
        decreases m.solids@.len() - i,
    {
        let r = slot(ids::SOLIDS, key3_of(&m.solids[i].centroid, bits), "solid".to_owned());
        let ghost before = out@;
        out.push(r);
        assert(slots(out@) =~= slots(before).push(slot_view(r)));
        assert(ds.take(i + 1) =~= ds.take(i as int).push(ds[i as int]));
        assert(slots(out@) =~= d + ds.take(i + 1));
        i = i + 1;
    }
    assert(ds.take(ds.len() as int) =~= ds);
    assert(slots(out@) =~= record_slots(*m, bits));
    out
}

fn boundary_slots_of(m: &TopologyModel, bits: u32) -> (r: Vec<RecordSlot>)
    ensures
        slots(r@) == boundary_slots(*m, bits),
{
    let mut out: Vec<RecordSlot> = Vec::new();
    let ghost bs = boundary_slots(*m, bits);
    let mut i: usize = 0;
    assert(slots(out@) =~= bs.take(0));
    while i < m.faces.len()
        invariant
            i <= m.faces@.len(),
            bs == boundary_slots(*m, bits),
            slots(out@) == bs.take(i as int),
        decreases m.faces@.len() - i,
    {
        let f = &m.faces[i];
        let (kind, _, _) = boundary_fn_kind(&f.surface);
        let label = "boundary_fn::".to_owned().concat(kind.label());
        let r = slot(ids::BOUNDARY_FN, key6_of(&f.centroid, &f.normal, bits), label);
        let ghost before = out@;
        out.push(r);
        assert(slots(out@) =~= slots(before).push(slot_view(r)));
        assert(bs.take(i + 1) =~= bs.take(i as int).push(bs[i as int]));
        assert(slots(out@) =~= bs.take(i + 1));
        i = i + 1;
    }
    assert(bs.take(bs.len() as int) =~= bs);
    out
}

/// A space registration as plain values: id, name, dimensions, description.
pub open spec fn registration_view(r: SpaceRegistration) -> (u64, Seq<char>, usize, Seq<char>) {
    (r.id, r.name@, r.dims, r.description@)
}

/// The spaces of an encoded model.
pub open spec fn space_table() -> Seq<(u64, Seq<char>, usize, Seq<char>)> {
    seq![
        (ids::SOLIDS, "solids"@, dims::SPATIAL_3D, "Closed solid bodies"@),
        (ids::SHELLS, "shells"@, dims::SPATIAL_3D, "Open/closed shells"@),
        (ids::FACES, "faces"@, dims::SPATIAL_3D, "Individual faces with surface type"@),
        (ids::EDGES, "edges"@, dims::SPATIAL_3D, "Curve edges between vertices"@),
        (ids::VERTICES, "vertices"@, dims::SPATIAL_3D, "Point vertices"@),
        (ids::BOUNDARY_FN, "boundary_fn"@, dims::BOUNDARY_6D, "SDF boundary functions (centroid + normal)"@),
        (ids::TOPOLOGY, "topology_edges"@, dims::TOPOLOGY_2D, "Topological relationship hyperedges"@),
    ]
}

fn registration(id: u64, name: &str, dims: usize, description: &str) -> (r: SpaceRegistration)
    ensures
        registration_view(r) == (id, name@, dims, description@),
{
    SpaceRegistration { id, name: name.to_owned(), dims, description: description.to_owned() }
}

/// The space registry of an encoded model.
pub fn space_registrations() -> (r: Vec<SpaceRegistration>)
    ensures
        r@.map_values(|x: SpaceRegistration| registration_view(x)) == space_table(),
{
    let mut r: Vec<SpaceRegistration> = Vec::new();
    r.push(registration(ids::SOLIDS, "solids", dims::SPATIAL_3D, "Closed solid bodies"));
    r.push(registration(ids::SHELLS, "shells", dims::SPATIAL_3D, "Open/closed shells"));
    r.push(registration(ids::FACES, "faces", dims::SPATIAL_3D, "Individual faces with surface type"));
    r.push(registration(ids::EDGES, "edges", dims::SPATIAL_3D, "Curve edges between vertices"));
    r.push(registration(ids::VERTICES, "vertices", dims::SPATIAL_3D, "Point vertices"));
    r.push(
        registration(
            ids::BOUNDARY_FN,
            "boundary_fn",
            dims::BOUNDARY_6D,
            "SDF boundary functions (centroid + normal)",
        ),
    );
    r.push(
        registration(ids::TOPOLOGY, "topology_edges", dims::TOPOLOGY_2D, "Topological relationship hyperedges"),
    );
    assert(r@.map_values(|x: SpaceRegistration| registration_view(x)) =~= space_table());
    r
}

/// The hyperedges numbered from 100001; `None` when the last id would not fit in a `u64`.
fn number_hyperedges(drafts: Vec<DbHyperedge>) -> (r: Option<Vec<DbHyperedge>>)
    ensures
        r is None <==> drafts@.len() > u64::MAX - 100_000,
        r matches Some(v) ==> v@.len() == drafts@.len() && forall|i: int|
            0 <= i < v@.len() ==> (#[trigger] v@[i]).id == first_hyperedge_id() + i && shape_of(v@[i])
                == shape_of(drafts@[i]),
{
    let n = drafts.len();
    if n as u64 > u64::MAX - 100_000 {
        return None;
    }
    let ghost dv = drafts@;
    let mut out: Vec<DbHyperedge> = Vec::new();
    let mut next: u64 = 100_000;
    for h in it: drafts.into_iter()
        invariant
            it.seq() == dv,
            n == dv.len(),
            n <= u64::MAX - 100_000,
            out@.len() == it.index(),
            next == 100_000 + out@.len(),
            forall|i: int|
                0 <= i < out@.len() ==> (#[trigger] out@[i]).id == first_hyperedge_id() + i
                    && shape_of(out@[i]) == shape_of(dv[i]),
    {
        next = next + 1;
        out.push(
            DbHyperedge {
                id: next,
                kind: h.kind,
                endpoints: h.endpoints,
                weight_milli: h.weight_milli,
                metadata: h.metadata,
            },
        );
    }
    Some(out)
}

/// Encode a model's topology: the space registry, a spatial record per
/// vertex, edge, face, shell and solid, a boundary-function record per face,
/// and the hyperedges numbered from 100001. `None` when the number of
/// hyperedges would carry their ids past `u64::MAX`.
pub fn encode_topology(m: &TopologyModel, bits_per_dim: u32) -> (r: Option<EncodedTopology>)
    ensures
        r is None <==> hyperedge_shapes(*m, bits_per_dim).len() > u64::MAX - 100_000,
        r matches Some(t) ==> {
            &&& t.spaces@.map_values(|x: SpaceRegistration| registration_view(x)) == space_table()
            &&& slots(t.records@) == record_slots(*m, bits_per_dim)
            &&& slots(t.boundary_fns@) == boundary_slots(*m, bits_per_dim)
            &&& t.hyperedges@.len() == hyperedge_shapes(*m, bits_per_dim).len()
            &&& forall|i: int|
                0 <= i < t.hyperedges@.len() ==> (#[trigger] t.hyperedges@[i]).id
                    == first_hyperedge_id() + i && shape_of(t.hyperedges@[i]) == hyperedge_shapes(
                    *m,
                    bits_per_dim,
                )[i]
        },
{
    let bits = bits_per_dim;
    let mut drafts: Vec<DbHyperedge> = Vec::new();
    assert(shapes(drafts@) =~= Seq::<HyperedgeShape>::empty());
    push_edge_links(m, bits, &mut drafts);
    push_face_links(m, bits, &mut drafts);
    let (keys, members) = edge_groups_of(m);
    let face_index = face_index_of(m);
    push_adjacency_links(m, bits, &keys, &members, &face_index, &mut drafts);
    push_shell_links(m, bits, &mut drafts);
    push_solid_links(m, bits, &mut drafts);
    let ghost groups = edge_groups(*m, m.faces@.len() as int);
    assert(shapes(drafts@) =~= hyperedge_shapes(*m, bits));
    let ghost dv = drafts@;
    let hyperedges = match number_hyperedges(drafts) {
        Some(h) => h,
        None => return None,
    };
    assert forall|i: int| 0 <= i < dv.len() implies shape_of(dv[i]) == hyperedge_shapes(*m, bits)[i] by {
        assert(shapes(dv)[i] == shape_of(dv[i]));
    }
    Some(
        EncodedTopology {
            spaces: space_registrations(),
            records: record_slots_of(m, bits),
            boundary_fns: boundary_slots_of(m, bits),
            hyperedges,
        },
    )
}

// ---------------------------------------------------------------------------
// Laws
// ---------------------------------------------------------------------------

/// Hyperedges numbered from 100001 in order have distinct ids.
pub proof fn numbered_ids_distinct(hs: Seq<DbHyperedge>, i: int, j: int)
    requires
        forall|k: int| 0 <= k < hs.len() ==> (#[trigger] hs[k]).id == first_hyperedge_id() + k,
        0 <= i < hs.len(),
        0 <= j < hs.len(),
        i != j,
    ensures
        hs[i].id != hs[j].id,
{
}

/// Every edge yields exactly two hyperedges: to its start and to its end vertex.
pub proof fn two_hyperedges_per_edge(m: TopologyModel, bits: u32, k: int)
    requires
        0 <= k <= m.edges@.len(),
    ensures
        edges_part(m, bits, k).len() == 2 * k,
        forall|i: int|
            0 <= i < k ==> (#[trigger] edges_part(m, bits, k)[2 * i]).kind == "edge.has_start_vertex"@
                && edges_part(m, bits, k)[2 * i + 1].kind == "edge.has_end_vertex"@,
    decreases k,
{
    if k > 0 {
        two_hyperedges_per_edge(m, bits, k - 1);
        let prev = edges_part(m, bits, k - 1);
        let cur = edges_part(m, bits, k);
        assert forall|i: int| 0 <= i < k implies (#[trigger] cur[2 * i]).kind
            == "edge.has_start_vertex"@ && cur[2 * i + 1].kind == "edge.has_end_vertex"@ by {
            if i < k - 1 {
                assert(cur[2 * i] == prev[2 * i]);
                assert(cur[2 * i + 1] == prev[2 * i + 1]);
            }
        }
    }
}

/// Every face yields one boundary-function record, at its centroid and
/// normal, and the records of all entities come in the order vertices,
/// edges, faces, shells, solids.
pub proof fn one_record_per_entity(m: TopologyModel, bits: u32)
    ensures
        record_slots(m, bits).len() == m.vertices@.len() + m.edges@.len() + m.faces@.len()
            + m.shells@.len() + m.solids@.len(),
        boundary_slots(m, bits).len() == m.faces@.len(),
        forall|i: int|
            0 <= i < m.faces@.len() ==> #[trigger] boundary_slots(m, bits)[i] == (
                ids::BOUNDARY_FN,
                key6(m.faces@[i].centroid, m.faces@[i].normal, bits),
                boundary_entity_type(m.faces@[i]),
            ),
{
}


/// The number of occurrences of `e` in `s`.
pub open spec fn count_in(s: Seq<u64>, e: u64) -> nat
    decreases s.len(),
{
    if s.len() == 0 {
        0
    } else {
        count_in(s.drop_last(), e) + if s.last() == e {
            1nat
        } else {
            0nat
        }
    }
}

/// `n` copies of `x`.
pub open spec fn copies(x: u64, n: nat) -> Seq<u64> {
    Seq::new(n, |_i: int| x)
}

/// The faces among the first `k` that are bounded by edge `e`, a face once
/// per occurrence of `e` in its loop.
pub open spec fn faces_of_edge(m: TopologyModel, e: u64, k: int) -> Seq<u64>
    decreases k,
{
    if k <= 0 {
        Seq::empty()
    } else {
        let f = m.faces@[k - 1];
        faces_of_edge(m, e, k - 1) + copies(f.id, count_in(f.edge_loop@, e))
    }
}

/// The faces recorded for edge `e` in the groups `g`.
pub open spec fn list_of(g: Seq<(u64, Seq<u64>)>, e: u64) -> Seq<u64> {
    match group_index(g, e, 0) {
        Some(i) => g[i].1,
        None => Seq::empty(),
    }
}

proof fn lemma_group_add_list(g: Seq<(u64, Seq<u64>)>, e2: u64, f: u64, e: u64)
    ensures
        list_of(group_add(g, e2, f), e) == list_of(g, e) + if e == e2 {
            seq![f]
        } else {
            Seq::<u64>::empty()
        },
{
    lemma_group_index_found(g, e2, 0);
    lemma_group_index_found(g, e, 0);
    match group_index(g, e2, 0) {
        Some(i) => {
            let g2 = g.update(i, (e2, g[i].1.push(f)));
            lemma_group_index_keys(g2, g, e, 0);
            if e == e2 {
                assert(list_of(g2, e) =~= list_of(g, e) + seq![f]);
            } else {
                match group_index(g, e, 0) {
                    Some(k) => {
                        assert(k != i);
                        assert(g2[k] == g[k]);
                    },
                    None => {},
                }
                assert(list_of(g2, e) =~= list_of(g, e) + Seq::<u64>::empty());
            }
        },
        None => {
            let g2 = g.push((e2, seq![f]));
            lemma_group_index_push(g, (e2, seq![f]), e, 0);
            match group_index(g, e, 0) {
                Some(k) => {
                    assert(g2[k] == g[k]);
                    assert(e != e2);
                    assert(list_of(g2, e) =~= list_of(g, e) + Seq::<u64>::empty());
                },
                None => {
                    if e == e2 {
                        assert(g2[g.len() as int] == (e2, seq![f]));
                        assert(list_of(g2, e) =~= list_of(g, e) + seq![f]);
                    } else {
                        assert(list_of(g2, e) =~= list_of(g, e) + Seq::<u64>::empty());
                    }
                },
            }
        },
    }
}

proof fn lemma_group_loop_list(g: Seq<(u64, Seq<u64>)>, edges: Seq<u64>, f: u64, j: int, e: u64)
    requires
        0 <= j <= edges.len(),
    ensures
        list_of(group_loop(g, edges, f, j), e) == list_of(g, e) + copies(f, count_in(edges.take(j), e)),
    decreases j,
{
    if j == 0 {
        assert(edges.take(0) =~= Seq::<u64>::empty());
        assert(list_of(g, e) + copies(f, 0) =~= list_of(g, e));
    } else {
        lemma_group_loop_list(g, edges, f, j - 1, e);
        lemma_group_add_list(group_loop(g, edges, f, j - 1), edges[j - 1], f, e);
        assert(edges.take(j).drop_last() =~= edges.take(j - 1));
        let n = count_in(edges.take(j - 1), e);
        if edges[j - 1] == e {
            assert(copies(f, n) + seq![f] =~= copies(f, n + 1));
            assert(list_of(g, e) + copies(f, n) + seq![f] =~= list_of(g, e) + copies(f, n + 1));
        } else {
            assert(list_of(g, e) + copies(f, n) + Seq::<u64>::empty() =~= list_of(g, e) + copies(f, n));
        }
    }
}

proof fn lemma_edge_groups_list(m: TopologyModel, k: int, e: u64)
    requires
        0 <= k <= m.faces@.len(),
    ensures
        list_of(edge_groups(m, k), e) == faces_of_edge(m, e, k),
    decreases k,
{
    if k == 0 {
        assert(list_of(Seq::<(u64, Seq<u64>)>::empty(), e) =~= Seq::<u64>::empty());
    } else {
        lemma_edge_groups_list(m, k - 1, e);
        let f = m.faces@[k - 1];
        lemma_group_loop_list(edge_groups(m, k - 1), f.edge_loop@, f.id, f.edge_loop@.len() as int, e);
        assert(f.edge_loop@.take(f.edge_loop@.len() as int) =~= f.edge_loop@);
    }
}

proof fn lemma_count_in_contains(s: Seq<u64>, e: u64)
    requires
        s.contains(e),
    ensures
        count_in(s, e) >= 1,
    decreases s.len(),
{
    if s.last() != e {
        let k = choose|k: int| 0 <= k < s.len() && s[k] == e;
        assert(s.drop_last()[k] == e);
        lemma_count_in_contains(s.drop_last(), e);
    }
}

proof fn lemma_faces_of_edge_prefix(m: TopologyModel, e: u64, k1: int, k2: int)
    requires
        0 <= k1 <= k2 <= m.faces@.len(),
    ensures
        faces_of_edge(m, e, k1).len() <= faces_of_edge(m, e, k2).len(),
        forall|i: int|
            0 <= i < faces_of_edge(m, e, k1).len() ==> #[trigger] faces_of_edge(m, e, k2)[i]
                == faces_of_edge(m, e, k1)[i],
    decreases k2 - k1,
{
    if k1 < k2 {
        lemma_faces_of_edge_prefix(m, e, k1, k2 - 1);
    }
}

proof fn lemma_face_in_index_map(fs: Seq<FaceKey>, p: int, k: int)
    requires
        0 <= p < k <= fs.len(),
    ensures
        face_index_map(fs, k).contains_key(fs[p].id),
    decreases k,
{
    if k - 1 > p {
        lemma_face_in_index_map(fs, p, k - 1);
    }
}

proof fn lemma_contains_concat(a: Seq<HyperedgeShape>, b: Seq<HyperedgeShape>, x: HyperedgeShape)
    requires
        a.contains(x) || b.contains(x),
    ensures
        (a + b).contains(x),
{
    if a.contains(x) {
        let k = choose|k: int| 0 <= k < a.len() && a[k] == x;
        assert((a + b)[k] == x);
    } else {
        let k = choose|k: int| 0 <= k < b.len() && b[k] == x;
        assert((a + b)[a.len() + k] == x);
    }
}

proof fn lemma_pair_row_has(m: TopologyModel, e: u64, list: Seq<u64>, a: int, b: int, j: int, bits: u32)
    requires
        0 <= a < b < j <= list.len(),
        adjacency_shape(m, e, list[a], list[b], bits).len() == 1,
    ensures
        pair_row(m, e, list, a, j, bits).contains(adjacency_shape(m, e, list[a], list[b], bits)[0]),
    decreases j,
{
    let x = adjacency_shape(m, e, list[a], list[b], bits)[0];
    if j == b + 1 {
        assert(adjacency_shape(m, e, list[a], list[b], bits).contains(x));
    } else {
        lemma_pair_row_has(m, e, list, a, b, j - 1, bits);
    }
    lemma_contains_concat(
        pair_row(m, e, list, a, j - 1, bits),
        adjacency_shape(m, e, list[a], list[j - 1], bits),
        x,
    );
}

proof fn lemma_pair_rows_has(m: TopologyModel, e: u64, list: Seq<u64>, a: int, b: int, i: int, bits: u32)
    requires
        0 <= a < b < list.len(),
        a < i <= list.len(),
        adjacency_shape(m, e, list[a], list[b], bits).len() == 1,
    ensures
        pair_rows(m, e, list, i, bits).contains(adjacency_shape(m, e, list[a], list[b], bits)[0]),
    decreases i,
{
    let x = adjacency_shape(m, e, list[a], list[b], bits)[0];
    if i == a + 1 {
        lemma_pair_row_has(m, e, list, a, b, list.len() as int, bits);
    } else {
        lemma_pair_rows_has(m, e, list, a, b, i - 1, bits);
    }
    lemma_contains_concat(
        pair_rows(m, e, list, i - 1, bits),
        pair_row(m, e, list, i - 1, list.len() as int, bits),
        x,
    );
}

proof fn lemma_adjacency_part_has(
    m: TopologyModel,
    groups: Seq<(u64, Seq<u64>)>,
    g: int,
    k: int,
    a: int,
    b: int,
    bits: u32,
)
    requires
        0 <= g < k <= groups.len(),
        0 <= a < b < groups[g].1.len(),
        adjacency_shape(m, groups[g].0, groups[g].1[a], groups[g].1[b], bits).len() == 1,
    ensures
        adjacency_part(m, groups, bits, k).contains(
            adjacency_shape(m, groups[g].0, groups[g].1[a], groups[g].1[b], bits)[0],
        ),
    decreases k,
{
    let (e, list) = groups[g];
    let x = adjacency_shape(m, e, list[a], list[b], bits)[0];
    let (ek, lk) = groups[k - 1];
    let tail = if lk.len() >= 2 {
        pair_rows(m, ek, lk, lk.len() as int, bits)
    } else {
        Seq::empty()
    };
    if g == k - 1 {
        lemma_pair_rows_has(m, e, list, a, b, list.len() as int, bits);
    } else {
        lemma_adjacency_part_has(m, groups, g, k - 1, a, b, bits);
    }
    lemma_contains_concat(adjacency_part(m, groups, bits, k - 1), tail, x);
}

/// Two faces that share an edge are adjacent: for faces `p < q` whose loops
/// both contain edge `e`, the hyperedges hold one `face.is_adjacent_to_face`
/// between them, annotated with the shared edge's id (each face located by
/// the coordinates of the last face with its id).
pub proof fn faces_sharing_an_edge_are_adjacent(m: TopologyModel, bits: u32, p: int, q: int, e: u64)
    requires
        0 <= p < q < m.faces@.len(),
        m.faces@[p].edge_loop@.contains(e),
        m.faces@[q].edge_loop@.contains(e),
    ensures
        face_map_coords(m, m.faces@[p].id, bits) is Some,
        face_map_coords(m, m.faces@[q].id, bits) is Some,
        hyperedge_shapes(m, bits).contains(
            two_ends(
                "face.is_adjacent_to_face"@,
                ("face_a"@, ids::FACES, face_map_coords(m, m.faces@[p].id, bits)->0),
                ("face_b"@, ids::FACES, face_map_coords(m, m.faces@[q].id, bits)->0),
                None,
                seq![("shared_edge_id"@, decimal(e as nat))],
            ),
        ),
{
    let n = m.faces@.len() as int;
    let fp = m.faces@[p];
    let fq = m.faces@[q];
    lemma_face_in_index_map(m.faces@, p, n);
    lemma_face_in_index_map(m.faces@, q, n);
    lemma_count_in_contains(fp.edge_loop@, e);
    lemma_count_in_contains(fq.edge_loop@, e);
    // The list of faces of `e` holds `p` before `q`.
    let list = faces_of_edge(m, e, n);
    let a = faces_of_edge(m, e, p).len() as int;
    let b = faces_of_edge(m, e, q).len() as int;
    lemma_faces_of_edge_prefix(m, e, p + 1, n);
    lemma_faces_of_edge_prefix(m, e, q + 1, n);
    lemma_faces_of_edge_prefix(m, e, p + 1, q);
    assert(faces_of_edge(m, e, p + 1)[a] == fp.id);
    assert(faces_of_edge(m, e, q + 1)[b] == fq.id);
    assert(list[a] == fp.id);
    assert(list[b] == fq.id);
    assert(a < b);
    // The group of `e` holds that list.
    let groups = edge_groups(m, n);
    lemma_edge_groups_list(m, n, e);
    lemma_group_index_found(groups, e, 0);
    let g = group_index(groups, e, 0)->0;
    assert(groups[g].1 == list);
    assert(groups[g].0 == e);
    let x = two_ends(
        "face.is_adjacent_to_face"@,
        ("face_a"@, ids::FACES, face_map_coords(m, fp.id, bits)->0),
        ("face_b"@, ids::FACES, face_map_coords(m, fq.id, bits)->0),
        None,
        seq![("shared_edge_id"@, decimal(e as nat))],
    );
    assert(adjacency_shape(m, e, list[a], list[b], bits) =~= seq![x]);
    lemma_adjacency_part_has(m, groups, g, groups.len() as int, a, b, bits);
    let e_part = edges_part(m, bits, m.edges@.len() as int);
    let f_part = faces_part(m, bits, n);
    let adj = adjacency_part(m, groups, bits, groups.len() as int);
    let s_part = shells_part(m, bits, m.shells@.len() as int);
    let d_part = solids_part(m, bits, m.solids@.len() as int);
    lemma_contains_concat(e_part + f_part, adj, x);
    lemma_contains_concat(e_part + f_part + adj, s_part, x);
    lemma_contains_concat(e_part + f_part + adj + s_part, d_part, x);
}

/// The quantized coordinates of a point.
pub open spec fn quantized(p: [u32; 3], bits: u32) -> Seq<u32> {
    seq![quantize_spec(p@[0], bits), quantize_spec(p@[1], bits), quantize_spec(p@[2], bits)]
}

/// `c` is where the vertex with id `id` is found: the quantized position of
/// the first vertex with that id, or the origin when no vertex has it.
pub open spec fn locates_vertex(vs: Seq<VertexKey>, id: u64, bits: u32, c: Seq<u32>) -> bool {
    &&& forall|j: int|
        0 <= j < vs.len() && #[trigger] vs[j].id == id && (forall|k: int|
            0 <= k < j ==> vs[k].id != id) ==> c == quantized(vs[j].position, bits)
    &&& (forall|j: int| 0 <= j < vs.len() ==> #[trigger] vs[j].id != id) ==> c == seq![0u32, 0u32, 0u32]
}

proof fn lemma_vertex_from_first(vs: Seq<VertexKey>, id: u64, i: int)
    requires
        0 <= i <= vs.len(),
        forall|k: int| 0 <= k < i ==> vs[k].id != id,
    ensures
        match vertex_from(vs, id, i) {
            Some(j) => 0 <= j < vs.len() && vs[j].id == id && forall|k: int|
                0 <= k < j ==> vs[k].id != id,
            None => forall|j: int| 0 <= j < vs.len() ==> vs[j].id != id,
        },
    decreases vs.len() - i,
{
    if i < vs.len() && vs[i].id != id {
        lemma_vertex_from_first(vs, id, i + 1);
    }
}

/// The coordinates given for a vertex id are where that vertex is found: the
/// quantized position of the first vertex with the id, or the origin.
pub proof fn vertex_coordinates_locate_the_vertex(m: TopologyModel, id: u64, bits: u32)
    ensures
        locates_vertex(m.vertices@, id, bits, vertex_coords_spec(m, id, bits)),
{
    let vs = m.vertices@;
    lemma_vertex_from_first(vs, id, 0);
    assert forall|j: int|
        0 <= j < vs.len() && #[trigger] vs[j].id == id && (forall|k: int|
            0 <= k < j ==> vs[k].id != id) implies vertex_coords_spec(m, id, bits) == quantized(
        vs[j].position,
        bits,
    ) by {
        match vertex_from(vs, id, 0) {
            Some(f) => {
                if f < j {
                    assert(vs[f].id != id);
                } else if j < f {
                    assert(vs[j].id != id);
                }
            },
            None => {
                assert(vs[j].id != id);
            },
        }
    }
}

proof fn lemma_edges_part_at(m: TopologyModel, bits: u32, k: int, i: int)
    requires
        0 <= i < k <= m.edges@.len(),
    ensures
        edges_part(m, bits, k).len() == 2 * k,
        edges_part(m, bits, k)[2 * i] == edge_shapes(m, m.edges@[i], bits)[0],
        edges_part(m, bits, k)[2 * i + 1] == edge_shapes(m, m.edges@[i], bits)[1],
    decreases k,
{
    two_hyperedges_per_edge(m, bits, k);
    two_hyperedges_per_edge(m, bits, k - 1);
    if i < k - 1 {
        lemma_edges_part_at(m, bits, k - 1, i);
    }
}

/// Each edge gives, in order, two hyperedges: `edge.has_start_vertex`, from
/// the edge (at its quantized midpoint, weighted by its length) to its start
/// vertex, and `edge.has_end_vertex`, from the edge to its end vertex; each
/// vertex endpoint lies where that vertex is found in the model's vertices.
pub proof fn edge_hyperedges_join_their_own_vertices(m: TopologyModel, bits: u32, i: int)
    requires
        0 <= i < m.edges@.len(),
    ensures
        ({
            let e = m.edges@[i];
            let start = hyperedge_shapes(m, bits)[2 * i];
            let end = hyperedge_shapes(m, bits)[2 * i + 1];
            &&& start.kind == "edge.has_start_vertex"@
            &&& start.endpoints.len() == 2
            &&& start.endpoints[0] == ("edge"@, ids::EDGES, quantized(e.midpoint, bits))
            &&& start.endpoints[1].0 == "vertex"@
            &&& start.endpoints[1].1 == ids::VERTICES
            &&& locates_vertex(m.vertices@, e.start_vertex_id, bits, start.endpoints[1].2)
            &&& start.weight_milli == Some(e.length_milli)
            &&& end.kind == "edge.has_end_vertex"@
            &&& end.endpoints.len() == 2
            &&& end.endpoints[0] == ("edge"@, ids::EDGES, quantized(e.midpoint, bits))
            &&& end.endpoints[1].0 == "vertex"@
            &&& end.endpoints[1].1 == ids::VERTICES
            &&& locates_vertex(m.vertices@, e.end_vertex_id, bits, end.endpoints[1].2)
            &&& end.weight_milli == None::<i64>
        }),
{
    let n = m.edges@.len() as int;
    lemma_edges_part_at(m, bits, n, i);
    let groups = edge_groups(m, m.faces@.len() as int);
    let all = hyperedge_shapes(m, bits);
    assert(all[2 * i] == edges_part(m, bits, n)[2 * i]);
    assert(all[2 * i + 1] == edges_part(m, bits, n)[2 * i + 1]);
    let e = m.edges@[i];
    vertex_coordinates_locate_the_vertex(m, e.start_vertex_id, bits);
    vertex_coordinates_locate_the_vertex(m, e.end_vertex_id, bits);
    assert(key3(e.midpoint, bits) == quantized(e.midpoint, bits));
}

/// The spatial records come in the order vertices, edges, faces, shells,
/// solids, one per entity, each in its own space at the quantized position of
/// the entity (a vertex's position, an edge's midpoint, a face's, shell's or
/// solid's centroid) and labelled with the entity's kind.
pub proof fn records_follow_the_entities(m: TopologyModel, bits: u32)
    ensures
        ({
            let r = record_slots(m, bits);
            let nv = m.vertices@.len() as int;
            let ne = m.edges@.len() as int;
            let nf = m.faces@.len() as int;
            let ns = m.shells@.len() as int;
            let nd = m.solids@.len() as int;
            &&& r.len() == nv + ne + nf + ns + nd
            &&& forall|i: int| 0 <= i < nv ==> #[trigger] r[i] == (
                ids::VERTICES,
                quantized(m.vertices@[i].position, bits),
                "vertex"@,
            )
            &&& forall|i: int| 0 <= i < ne ==> #[trigger] r[nv + i] == (
                ids::EDGES,
                quantized(m.edges@[i].midpoint, bits),
                "edge"@,
            )
            &&& forall|i: int| 0 <= i < nf ==> #[trigger] r[nv + ne + i] == (
                ids::FACES,
                quantized(m.faces@[i].centroid, bits),
                "face"@,
            )
            &&& forall|i: int| 0 <= i < ns ==> #[trigger] r[nv + ne + nf + i] == (
                ids::SHELLS,
                quantized(m.shells@[i].centroid, bits),
                "shell"@,
            )
            &&& forall|i: int| 0 <= i < nd ==> #[trigger] r[nv + ne + nf + ns + i] == (
                ids::SOLIDS,
                quantized(m.solids@[i].centroid, bits),
                "solid"@,
            )
        }),
{
    let r = record_slots(m, bits);
    let nv = m.vertices@.len() as int;
    let ne = m.edges@.len() as int;
    let nf = m.faces@.len() as int;
    let ns = m.shells@.len() as int;
    let a = m.vertices@.map_values(|v: VertexKey| (ids::VERTICES, key3(v.position, bits), "vertex"@));
    let b = m.edges@.map_values(|e: EdgeKey| (ids::EDGES, key3(e.midpoint, bits), "edge"@));
    let c = m.faces@.map_values(|f: FaceKey| (ids::FACES, key3(f.centroid, bits), "face"@));
    let d = m.shells@.map_values(|s: ShellKey| (ids::SHELLS, key3(s.centroid, bits), "shell"@));
    let e = m.solids@.map_values(|s: SolidKey| (ids::SOLIDS, key3(s.centroid, bits), "solid"@));
    assert(r == a + b + c + d + e);
    assert forall|i: int| 0 <= i < nv implies #[trigger] r[i] == (
        ids::VERTICES,
        quantized(m.vertices@[i].position, bits),
        "vertex"@,
    ) by {
        assert(r[i] == a[i]);
    }
    assert forall|i: int| 0 <= i < ne implies #[trigger] r[nv + i] == (
        ids::EDGES,
        quantized(m.edges@[i].midpoint, bits),
        "edge"@,
    ) by {
        assert(r[nv + i] == b[i]);
    }
    assert forall|i: int| 0 <= i < nf implies #[trigger] r[nv + ne + i] == (
        ids::FACES,
        quantized(m.faces@[i].centroid, bits),
        "face"@,
    ) by {
        assert(r[nv + ne + i] == c[i]);
    }
    assert forall|i: int| 0 <= i < ns implies #[trigger] r[nv + ne + nf + i] == (
        ids::SHELLS,
        quantized(m.shells@[i].centroid, bits),
        "shell"@,
    ) by {
        assert(r[nv + ne + nf + i] == d[i]);
    }
    assert forall|i: int| 0 <= i < m.solids@.len() implies #[trigger] r[nv + ne + nf + ns + i] == (
        ids::SOLIDS,
        quantized(m.solids@[i].centroid, bits),
        "solid"@,
    ) by {
        assert(r[nv + ne + nf + ns + i] == e[i]);
    }
}

/// The name of the boundary function of a surface shape, as it appears in
/// the entity type of a boundary-function record.
pub open spec fn shape_record_type(s: SurfaceTag) -> Seq<char> {
    match s {
        SurfaceTag::Plane => "boundary_fn::plane"@,
        SurfaceTag::Cylinder => "boundary_fn::cylinder"@,
        SurfaceTag::Sphere => "boundary_fn::sphere"@,
        SurfaceTag::Cone => "boundary_fn::cone"@,
        SurfaceTag::Torus => "boundary_fn::torus"@,
        SurfaceTag::BSplineSurface => "boundary_fn::bspline_approx"@,
        SurfaceTag::Unknown { .. } => "boundary_fn::unknown"@,
    }
}

/// Each face has one boundary-function record, in face order, at its
/// quantized centroid followed by its quantized normal, typed by the shape
/// of the face's surface.
pub proof fn boundary_records_follow_the_faces(m: TopologyModel, bits: u32, i: int)
    requires
        0 <= i < m.faces@.len(),
    ensures
        boundary_slots(m, bits).len() == m.faces@.len(),
        boundary_slots(m, bits)[i] == (
            ids::BOUNDARY_FN,
            quantized(m.faces@[i].centroid, bits) + quantized(m.faces@[i].normal, bits),
            shape_record_type(m.faces@[i].surface),
        ),
{
    reveal_strlit("boundary_fn::");
    reveal_strlit("plane");
    reveal_strlit("cylinder");
    reveal_strlit("sphere");
    reveal_strlit("cone");
    reveal_strlit("torus");
    reveal_strlit("bspline_approx");
    reveal_strlit("unknown");
    reveal_strlit("boundary_fn::plane");
    reveal_strlit("boundary_fn::cylinder");
    reveal_strlit("boundary_fn::sphere");
    reveal_strlit("boundary_fn::cone");
    reveal_strlit("boundary_fn::torus");
    reveal_strlit("boundary_fn::bspline_approx");
    reveal_strlit("boundary_fn::unknown");
    let f = m.faces@[i];
    assert(boundary_entity_type(f) =~= shape_record_type(f.surface));
}

proof fn lemma_concat_keeps<A>(a: Seq<A>, b: Seq<A>, x: A)
    ensures
        a.contains(x) ==> (a + b).contains(x),
        b.contains(x) ==> (a + b).contains(x),
{
    if a.contains(x) {
        let i = choose|i: int| 0 <= i < a.len() && a[i] == x;
        assert((a + b)[i] == x);
    }
    if b.contains(x) {
        let i = choose|i: int| 0 <= i < b.len() && b[i] == x;
        assert((a + b)[a.len() + i] == x);
    }
}

proof fn lemma_in_shapes(m: TopologyModel, bits: u32, x: HyperedgeShape)
    ensures
        faces_part(m, bits, m.faces@.len() as int).contains(x) ==> hyperedge_shapes(m, bits).contains(x),
        shells_part(m, bits, m.shells@.len() as int).contains(x) ==> hyperedge_shapes(m, bits).contains(x),
        solids_part(m, bits, m.solids@.len() as int).contains(x) ==> hyperedge_shapes(m, bits).contains(x),
{
    let groups = edge_groups(m, m.faces@.len() as int);
    let e = edges_part(m, bits, m.edges@.len() as int);
    let f = faces_part(m, bits, m.faces@.len() as int);
    let a = adjacency_part(m, groups, bits, groups.len() as int);
    let sh = shells_part(m, bits, m.shells@.len() as int);
    let so = solids_part(m, bits, m.solids@.len() as int);
    lemma_concat_keeps(e, f, x);
    lemma_concat_keeps(e + f, a, x);
    lemma_concat_keeps(e + f + a, sh, x);
    lemma_concat_keeps(e + f + a + sh, so, x);
}

proof fn lemma_push_contains<A>(a: Seq<A>, y: A, x: A)
    ensures
        a.contains(x) ==> a.push(y).contains(x),
        a.push(y).contains(y),
{
    if a.contains(x) {
        let i = choose|i: int| 0 <= i < a.len() && a[i] == x;
        assert(a.push(y)[i] == x);
    }
    assert(a.push(y)[a.len() as int] == y);
}

/// `x` is the first edge of `es` with this id.
pub open spec fn first_edge(es: Seq<EdgeKey>, id: u64, x: int) -> bool {
    0 <= x < es.len() && es[x].id == id && forall|k: int| 0 <= k < x ==> es[k].id != id
}

/// `x` is the first face of `fs` with this id.
pub open spec fn first_face(fs: Seq<FaceKey>, id: u64, x: int) -> bool {
    0 <= x < fs.len() && fs[x].id == id && forall|k: int| 0 <= k < x ==> fs[k].id != id
}

/// `x` is the first shell of `ss` with this id.
pub open spec fn first_shell(ss: Seq<ShellKey>, id: u64, x: int) -> bool {
    0 <= x < ss.len() && ss[x].id == id && forall|k: int| 0 <= k < x ==> ss[k].id != id
}

proof fn lemma_edge_from_first(es: Seq<EdgeKey>, id: u64, i: int, x: int)
    requires
        0 <= i <= x,
        first_edge(es, id, x),
    ensures
        edge_from(es, id, i) == Some(x),
    decreases x - i,
{
    if i < x {
        lemma_edge_from_first(es, id, i + 1, x);
    }
}

proof fn lemma_face_from_first(fs: Seq<FaceKey>, id: u64, i: int, x: int)
    requires
        0 <= i <= x,
        first_face(fs, id, x),
    ensures
        face_from(fs, id, i) == Some(x),
    decreases x - i,
{
    if i < x {
        lemma_face_from_first(fs, id, i + 1, x);
    }
}

proof fn lemma_shell_from_first(ss: Seq<ShellKey>, id: u64, i: int, x: int)
    requires
        0 <= i <= x,
        first_shell(ss, id, x),
    ensures
        shell_from(ss, id, i) == Some(x),
    decreases x - i,
{
    if i < x {
        lemma_shell_from_first(ss, id, i + 1, x);
    }
}

/// The hyperedge from a face to its boundary function.
pub open spec fn face_boundary_link(f: FaceKey, bits: u32) -> HyperedgeShape {
    HyperedgeShape {
        kind: "face.has_boundary_fn"@,
        endpoints: seq![
            ("face"@, ids::FACES, quantized(f.centroid, bits)),
            ("boundary_fn"@, ids::BOUNDARY_FN, quantized(f.centroid, bits) + quantized(f.normal, bits)),
        ],
        weight_milli: Some(f.area_milli),
        metadata: seq![
            ("surface_type"@, surface_name_spec(f.surface)),
            (
                "is_exact_sdf"@,
                if f.surface is BSplineSurface || f.surface is Unknown {
                    "false"@
                } else {
                    "true"@
                },
            ),
        ],
    }
}

/// A hyperedge `kind` from an entity at `a` in space `sa` (role `ra`) to one
/// at `b` in space `sb` (role `rb`), unweighted and unannotated.
pub open spec fn link_shape(
    kind: Seq<char>,
    ra: Seq<char>,
    sa: u64,
    a: Seq<u32>,
    rb: Seq<char>,
    sb: u64,
    b: Seq<u32>,
) -> HyperedgeShape {
    HyperedgeShape {
        kind,
        endpoints: seq![(ra, sa, a), (rb, sb, b)],
        weight_milli: None,
        metadata: Seq::empty(),
    }
}

proof fn lemma_boundary_edges_contain(m: TopologyModel, f: FaceKey, bits: u32, n: int, j: int, x: int)
    requires
        0 <= j < n <= f.edge_loop@.len(),
        first_edge(m.edges@, f.edge_loop@[j], x),
    ensures
        boundary_edge_shapes(m, f, bits, n).contains(
            link_shape(
                "face.has_boundary_edge"@,
                "face"@,
                ids::FACES,
                quantized(f.centroid, bits),
                "edge"@,
                ids::EDGES,
                quantized(m.edges@[x].midpoint, bits),
            ),
        ),
    decreases n,
{
    lemma_edge_from_first(m.edges@, f.edge_loop@[j], 0, x);
    let target = link_shape(
        "face.has_boundary_edge"@,
        "face"@,
        ids::FACES,
        quantized(f.centroid, bits),
        "edge"@,
        ids::EDGES,
        quantized(m.edges@[x].midpoint, bits),
    );
    let prev = boundary_edge_shapes(m, f, bits, n - 1);
    if j < n - 1 {
        lemma_boundary_edges_contain(m, f, bits, n - 1, j, x);
        match edge_from(m.edges@, f.edge_loop@[n - 1], 0) {
            Some(y) => {
                lemma_push_contains(prev, boundary_edge_shapes(m, f, bits, n).last(), target);
                assert(boundary_edge_shapes(m, f, bits, n) == prev.push(
                    boundary_edge_shapes(m, f, bits, n).last(),
                ));
            },
            None => {},
        }
    } else {
        let link = two_ends(
            "face.has_boundary_edge"@,
            ("face"@, ids::FACES, key3(f.centroid, bits)),
            ("edge"@, ids::EDGES, key3(m.edges@[x].midpoint, bits)),
            None,
            Seq::empty(),
        );
        assert(link == target);
        lemma_push_contains(prev, link, target);
    }
}

proof fn lemma_faces_part_contains(m: TopologyModel, bits: u32, k: int, i: int, t: HyperedgeShape)
    requires
        0 <= i < k <= m.faces@.len(),
        t == boundary_fn_shape(m.faces@[i], bits) || boundary_edge_shapes(
            m,
            m.faces@[i],
            bits,
            m.faces@[i].edge_loop@.len() as int,
        ).contains(t),
    ensures
        faces_part(m, bits, k).contains(t),
    decreases k,
{
    let f = m.faces@[k - 1];
    let prev = faces_part(m, bits, k - 1);
    let mid = seq![boundary_fn_shape(f, bits)];
    let tail = boundary_edge_shapes(m, f, bits, f.edge_loop@.len() as int);
    if i < k - 1 {
        lemma_faces_part_contains(m, bits, k - 1, i, t);
        lemma_concat_keeps(prev, mid, t);
        lemma_concat_keeps(prev + mid, tail, t);
    } else {
        if t == boundary_fn_shape(f, bits) {
            assert(mid[0] == t);
            lemma_concat_keeps(prev, mid, t);
        }
        lemma_concat_keeps(prev + mid, tail, t);
    }
}

/// Every face is linked to its boundary function (weighted by its area and
/// annotated with its surface type and whether the function is exact), and
/// to each edge of its loop that the model holds (the first edge with that
/// id), at the quantized positions of both.
pub proof fn faces_link_their_boundary_function_and_edges(m: TopologyModel, bits: u32, i: int)
    requires
        0 <= i < m.faces@.len(),
    ensures
        hyperedge_shapes(m, bits).contains(face_boundary_link(m.faces@[i], bits)),
        forall|j: int, x: int|
            0 <= j < m.faces@[i].edge_loop@.len() && #[trigger] first_edge(
                m.edges@,
                m.faces@[i].edge_loop@[j],
                x,
            ) ==> hyperedge_shapes(m, bits).contains(
                link_shape(
                    "face.has_boundary_edge"@,
                    "face"@,
                    ids::FACES,
                    quantized(m.faces@[i].centroid, bits),
                    "edge"@,
                    ids::EDGES,
                    quantized(m.edges@[x].midpoint, bits),
                ),
            ),
{
    let f = m.faces@[i];
    let n = m.faces@.len() as int;
    reveal_strlit("true");
    reveal_strlit("false");
    assert(boundary_fn_shape(f, bits) =~= face_boundary_link(f, bits));
    lemma_faces_part_contains(m, bits, n, i, face_boundary_link(f, bits));
    lemma_in_shapes(m, bits, face_boundary_link(f, bits));
    assert forall|j: int, x: int|
        0 <= j < f.edge_loop@.len() && #[trigger] first_edge(m.edges@, f.edge_loop@[j], x) implies hyperedge_shapes(
        m,
        bits,
    ).contains(
        link_shape(
            "face.has_boundary_edge"@,
            "face"@,
            ids::FACES,
            quantized(f.centroid, bits),
            "edge"@,
            ids::EDGES,
            quantized(m.edges@[x].midpoint, bits),
        ),
    ) by {
        let t = link_shape(
            "face.has_boundary_edge"@,
            "face"@,
            ids::FACES,
            quantized(f.centroid, bits),
            "edge"@,
            ids::EDGES,
            quantized(m.edges@[x].midpoint, bits),
        );
        lemma_boundary_edges_contain(m, f, bits, f.edge_loop@.len() as int, j, x);
        lemma_faces_part_contains(m, bits, n, i, t);
        lemma_in_shapes(m, bits, t);
    }
}

proof fn lemma_shell_faces_contain(m: TopologyModel, sh: ShellKey, bits: u32, n: int, j: int, x: int)
    requires
        0 <= j < n <= sh.face_ids@.len(),
        first_face(m.faces@, sh.face_ids@[j], x),
    ensures
        shell_face_shapes(m, sh, bits, n).contains(
            link_shape(
                "shell.contains_face"@,
                "shell"@,
                ids::SHELLS,
                quantized(sh.centroid, bits),
                "face"@,
                ids::FACES,
                quantized(m.faces@[x].centroid, bits),
            ),
        ),
    decreases n,
{
    lemma_face_from_first(m.faces@, sh.face_ids@[j], 0, x);
    let target = link_shape(
        "shell.contains_face"@,
        "shell"@,
        ids::SHELLS,
        quantized(sh.centroid, bits),
        "face"@,
        ids::FACES,
        quantized(m.faces@[x].centroid, bits),
    );
    let prev = shell_face_shapes(m, sh, bits, n - 1);
    if j < n - 1 {
        lemma_shell_faces_contain(m, sh, bits, n - 1, j, x);
        match face_from(m.faces@, sh.face_ids@[n - 1], 0) {
            Some(y) => {
                lemma_push_contains(prev, shell_face_shapes(m, sh, bits, n).last(), target);
                assert(shell_face_shapes(m, sh, bits, n) == prev.push(
                    shell_face_shapes(m, sh, bits, n).last(),
                ));
            },
            None => {},
        }
    } else {
        let link = two_ends(
            "shell.contains_face"@,
            ("shell"@, ids::SHELLS, key3(sh.centroid, bits)),
            ("face"@, ids::FACES, key3(m.faces@[x].centroid, bits)),
            None,
            Seq::empty(),
        );
        assert(link == target);
        lemma_push_contains(prev, link, target);
    }
}

proof fn lemma_shells_part_contains(m: TopologyModel, bits: u32, k: int, i: int, t: HyperedgeShape)
    requires
        0 <= i < k <= m.shells@.len(),
        shell_face_shapes(m, m.shells@[i], bits, m.shells@[i].face_ids@.len() as int).contains(t),
    ensures
        shells_part(m, bits, k).contains(t),
    decreases k,
{
    let sh = m.shells@[k - 1];
    let prev = shells_part(m, bits, k - 1);
    let tail = shell_face_shapes(m, sh, bits, sh.face_ids@.len() as int);
    if i < k - 1 {
        lemma_shells_part_contains(m, bits, k - 1, i, t);
    }
    lemma_concat_keeps(prev, tail, t);
}

/// Every shell is linked to each face it lists that the model holds (the
/// first face with that id), from the shell's quantized centroid to the
/// face's.
pub proof fn shells_contain_their_faces(m: TopologyModel, bits: u32, i: int, j: int, x: int)
    requires
        0 <= i < m.shells@.len(),
        0 <= j < m.shells@[i].face_ids@.len(),
        first_face(m.faces@, m.shells@[i].face_ids@[j], x),
    ensures
        hyperedge_shapes(m, bits).contains(
            link_shape(
                "shell.contains_face"@,
                "shell"@,
                ids::SHELLS,
                quantized(m.shells@[i].centroid, bits),
                "face"@,
                ids::FACES,
                quantized(m.faces@[x].centroid, bits),
            ),
        ),
{
    let sh = m.shells@[i];
    let t = link_shape(
        "shell.contains_face"@,
        "shell"@,
        ids::SHELLS,
        quantized(sh.centroid, bits),
        "face"@,
        ids::FACES,
        quantized(m.faces@[x].centroid, bits),
    );
    lemma_shell_faces_contain(m, sh, bits, sh.face_ids@.len() as int, j, x);
    lemma_shells_part_contains(m, bits, m.shells@.len() as int, i, t);
    lemma_in_shapes(m, bits, t);
}

proof fn lemma_solid_shells_contain(m: TopologyModel, so: SolidKey, bits: u32, n: int, j: int, x: int)
    requires
        0 <= j < n <= so.shell_ids@.len(),
        first_shell(m.shells@, so.shell_ids@[j], x),
    ensures
        solid_shell_shapes(m, so, bits, n).contains(
            link_shape(
                "solid.contains_shell"@,
                "solid"@,
                ids::SOLIDS,
                quantized(so.centroid, bits),
                "shell"@,
                ids::SHELLS,
                quantized(m.shells@[x].centroid, bits),
            ),
        ),
    decreases n,
{
    lemma_shell_from_first(m.shells@, so.shell_ids@[j], 0, x);
    let target = link_shape(
        "solid.contains_shell"@,
        "solid"@,
        ids::SOLIDS,
        quantized(so.centroid, bits),
        "shell"@,
        ids::SHELLS,
        quantized(m.shells@[x].centroid, bits),
    );
    let prev = solid_shell_shapes(m, so, bits, n - 1);
    if j < n - 1 {
        lemma_solid_shells_contain(m, so, bits, n - 1, j, x);
        match shell_from(m.shells@, so.shell_ids@[n - 1], 0) {
            Some(y) => {
                lemma_push_contains(prev, solid_shell_shapes(m, so, bits, n).last(), target);
                assert(solid_shell_shapes(m, so, bits, n) == prev.push(
                    solid_shell_shapes(m, so, bits, n).last(),
                ));
            },
            None => {},
        }
    } else {
        let link = two_ends(
            "solid.contains_shell"@,
            ("solid"@, ids::SOLIDS, key3(so.centroid, bits)),
            ("shell"@, ids::SHELLS, key3(m.shells@[x].centroid, bits)),
            None,
            Seq::empty(),
        );
        assert(link == target);
        lemma_push_contains(prev, link, target);
    }
}

proof fn lemma_solids_part_contains(m: TopologyModel, bits: u32, k: int, i: int, t: HyperedgeShape)
    requires
        0 <= i < k <= m.solids@.len(),
        solid_shell_shapes(m, m.solids@[i], bits, m.solids@[i].shell_ids@.len() as int).contains(t),
    ensures
        solids_part(m, bits, k).contains(t),
    decreases k,
{
    let so = m.solids@[k - 1];
    let prev = solids_part(m, bits, k - 1);
    let tail = solid_shell_shapes(m, so, bits, so.shell_ids@.len() as int);
    if i < k - 1 {
        lemma_solids_part_contains(m, bits, k - 1, i, t);
    }
    lemma_concat_keeps(prev, tail, t);
}

/// Every solid is linked to each shell it lists that the model holds (the
/// first shell with that id), from the solid's quantized centroid to the
/// shell's.
pub proof fn solids_contain_their_shells(m: TopologyModel, bits: u32, i: int, j: int, x: int)
    requires
        0 <= i < m.solids@.len(),
        0 <= j < m.solids@[i].shell_ids@.len(),
        first_shell(m.shells@, m.solids@[i].shell_ids@[j], x),
    ensures
        hyperedge_shapes(m, bits).contains(
            link_shape(
                "solid.contains_shell"@,
                "solid"@,
                ids::SOLIDS,
                quantized(m.solids@[i].centroid, bits),
                "shell"@,
                ids::SHELLS,
                quantized(m.shells@[x].centroid, bits),
            ),
        ),
{
    let so = m.solids@[i];
    let t = link_shape(
        "solid.contains_shell"@,
        "solid"@,
        ids::SOLIDS,
        quantized(so.centroid, bits),
        "shell"@,
        ids::SHELLS,
        quantized(m.shells@[x].centroid, bits),
    );
    lemma_solid_shells_contain(m, so, bits, so.shell_ids@.len() as int, j, x);
    lemma_solids_part_contains(m, bits, m.solids@.len() as int, i, t);
    lemma_in_shapes(m, bits, t);
}

/// `x` is the last face of `fs` with this id.
pub open spec fn last_face(fs: Seq<FaceKey>, id: u64, x: int) -> bool {
    0 <= x < fs.len() && fs[x].id == id && forall|k: int| x < k < fs.len() ==> fs[k].id != id
}

proof fn lemma_face_index_last(fs: Seq<FaceKey>, k: int, id: u64)
    requires
        0 <= k <= fs.len(),
    ensures
        face_index_map(fs, k).contains_key(id) <==> exists|j: int| 0 <= j < k && fs[j].id == id,
        face_index_map(fs, k).contains_key(id) ==> ({
            let x = face_index_map(fs, k)[id];
            0 <= x < k && fs[x].id == id && forall|j: int| x < j < k ==> fs[j].id != id
        }),
    decreases k,
{
    if k > 0 {
        lemma_face_index_last(fs, k - 1, id);
        if fs[k - 1].id == id {
            assert(fs[k - 1].id == id);
        } else if face_index_map(fs, k).contains_key(id) {
            let j = choose|j: int| 0 <= j < k - 1 && fs[j].id == id;
        } else {
            assert forall|j: int| 0 <= j < k implies fs[j].id != id by {
                if j < k - 1 && fs[j].id == id {
                    assert(exists|j: int| 0 <= j < k - 1 && fs[j].id == id);
                }
            }
        }
    }
}

/// Adjacency hyperedges place a face at the quantized centroid of the last
/// face with its id, and name no face for an id that no face has.
pub proof fn adjacency_places_faces_by_their_last_entry(m: TopologyModel, bits: u32, id: u64, x: int)
    ensures
        last_face(m.faces@, id, x) ==> face_map_coords(m, id, bits) == Some(
            quantized(m.faces@[x].centroid, bits),
        ),
        (forall|j: int| 0 <= j < m.faces@.len() ==> #[trigger] m.faces@[j].id != id)
            ==> face_map_coords(m, id, bits) is None,
{
    let fs = m.faces@;
    lemma_face_index_last(fs, fs.len() as int, id);
    if last_face(fs, id, x) {
        let y = face_index_map(fs, fs.len() as int)[id];
        if y < x {
            assert(fs[x].id != id);
        } else if x < y {
            assert(fs[y].id != id);
        }
    }
}

} // verus!
