//! Resolving `#id` references between STEP entities.
//!
//! Each function reads one entity and returns the references and literal
//! tokens it holds; the topology chain
//! `ADVANCED_FACE -> FACE_BOUND -> EDGE_LOOP -> ORIENTED_EDGE -> EDGE_CURVE`
//! is followed here down to edge ids. Coordinates and other real-valued
//! arguments are handed out as their literal text.
use vstd::prelude::*;
use std::collections::HashMap;
use crate::parser::{
    arg_name, arg_name_spec, entities_view, lone_quote, parse_ref_chars, parse_ref_spec,
    parse_string_spec,
    split_args_chars, split_args_spec, texts, reference_in, reference_result, result_view,
    EntityView, RawEntity, ResolveError, ResolveErrorView,
};
use crate::text::{
    occurs_at, chars_equal, chars_of, string_of, contains, contains_chars, strip_end, strip_start, trim, trim_chars,
    trim_end_matches_chars, trim_matches, trim_matches_chars, trim_start_matches_chars, CharClass,
};

verus! {

broadcast use vstd::std_specs::hash::group_hash_axioms;

/// Looks entities up by id and follows their references.
pub struct EntityResolver<'a> {
    pub entities: &'a HashMap<u64, RawEntity>,
}


/// The references of a VERTEX_POINT: its name and its CARTESIAN_POINT.
pub struct VertexRefs {
    pub name: String,
    pub point_id: u64,
}

pub struct VertexRefsView {
    pub name: Seq<char>,
    pub point_id: u64,
}

impl View for VertexRefs {
    type V = VertexRefsView;

    open spec fn view(&self) -> VertexRefsView {
        VertexRefsView { name: self.name@, point_id: self.point_id }
    }
}

/// The references of an axis placement.
pub enum PlacementRefs {
    /// The entity is not an AXIS2_PLACEMENT: the identity frame stands for it.
    Identity,
    /// The CARTESIAN_POINT and DIRECTION references that are present.
    Frame { location: Option<u64>, axis: Option<u64>, ref_dir: Option<u64> },
}

/// The references and literal arguments of a surface entity.
pub enum SurfaceRefs {
    Plane { placement_id: u64 },
    Cylinder { placement_id: u64, radius: String },
    Sphere { placement_id: u64, radius: String },
    Cone { placement_id: u64, radius: String, semi_angle: String },
    Torus { placement_id: u64, major_radius: String, minor_radius: String },
    /// A spline surface: the CARTESIAN_POINT references found in its arguments.
    BSpline { point_ids: Vec<u64> },
    Unknown { entity_type: String },
}

pub enum SurfaceRefsView {
    Plane { placement_id: u64 },
    Cylinder { placement_id: u64, radius: Seq<char> },
    Sphere { placement_id: u64, radius: Seq<char> },
    Cone { placement_id: u64, radius: Seq<char>, semi_angle: Seq<char> },
    Torus { placement_id: u64, major_radius: Seq<char>, minor_radius: Seq<char> },
    BSpline { point_ids: Seq<u64> },
    Unknown { entity_type: Seq<char> },
}

impl View for SurfaceRefs {
    type V = SurfaceRefsView;

    open spec fn view(&self) -> SurfaceRefsView {
        match self {
            SurfaceRefs::Plane { placement_id } => SurfaceRefsView::Plane {
                placement_id: *placement_id,
            },
            SurfaceRefs::Cylinder { placement_id, radius } => SurfaceRefsView::Cylinder {
                placement_id: *placement_id,
                radius: radius@,
            },
            SurfaceRefs::Sphere { placement_id, radius } => SurfaceRefsView::Sphere {
                placement_id: *placement_id,
                radius: radius@,
            },
            SurfaceRefs::Cone { placement_id, radius, semi_angle } => SurfaceRefsView::Cone {
                placement_id: *placement_id,
                radius: radius@,
                semi_angle: semi_angle@,
            },
            SurfaceRefs::Torus { placement_id, major_radius, minor_radius } => SurfaceRefsView::Torus {
                placement_id: *placement_id,
                major_radius: major_radius@,
                minor_radius: minor_radius@,
            },
            SurfaceRefs::BSpline { point_ids } => SurfaceRefsView::BSpline { point_ids: point_ids@ },
            SurfaceRefs::Unknown { entity_type } => SurfaceRefsView::Unknown {
                entity_type: entity_type@,
            },
        }
    }
}

/// The references of an EDGE_CURVE: its name, its two vertices, and its
/// curve (0 when the curve argument is not a reference).
pub struct EdgeRefs {
    pub name: String,
    pub start_vertex_id: u64,
    pub end_vertex_id: u64,
    pub curve_id: u64,
}

pub struct EdgeRefsView {
    pub name: Seq<char>,
    pub start_vertex_id: u64,
    pub end_vertex_id: u64,
    pub curve_id: u64,
}

impl View for EdgeRefs {
    type V = EdgeRefsView;

    open spec fn view(&self) -> EdgeRefsView {
        EdgeRefsView {
            name: self.name@,
            start_vertex_id: self.start_vertex_id,
            end_vertex_id: self.end_vertex_id,
            curve_id: self.curve_id,
        }
    }
}

/// The references and literal arguments of a curve entity.
pub enum CurveRefs {
    /// A LINE: its CARTESIAN_POINT and its VECTOR (0 when not a reference).
    Line { point_id: u64, vector_id: u64 },
    Circle { placement_id: u64, radius: String },
    Ellipse { placement_id: u64, semi_axis_1: String, semi_axis_2: String },
    BSpline { point_ids: Vec<u64> },
    Unknown { entity_type: String },
}

pub enum CurveRefsView {
    Line { point_id: u64, vector_id: u64 },
    Circle { placement_id: u64, radius: Seq<char> },
    Ellipse { placement_id: u64, semi_axis_1: Seq<char>, semi_axis_2: Seq<char> },
    BSpline { point_ids: Seq<u64> },
    Unknown { entity_type: Seq<char> },
}

impl View for CurveRefs {
    type V = CurveRefsView;

    open spec fn view(&self) -> CurveRefsView {
        match self {
            CurveRefs::Line { point_id, vector_id } => CurveRefsView::Line {
                point_id: *point_id,
                vector_id: *vector_id,
            },
            CurveRefs::Circle { placement_id, radius } => CurveRefsView::Circle {
                placement_id: *placement_id,
                radius: radius@,
            },
            CurveRefs::Ellipse { placement_id, semi_axis_1, semi_axis_2 } => CurveRefsView::Ellipse {
                placement_id: *placement_id,
                semi_axis_1: semi_axis_1@,
                semi_axis_2: semi_axis_2@,
            },
            CurveRefs::BSpline { point_ids } => CurveRefsView::BSpline { point_ids: point_ids@ },
            CurveRefs::Unknown { entity_type } => CurveRefsView::Unknown { entity_type: entity_type@ },
        }
    }
}

/// The references of an ADVANCED_FACE: its name, the edges of its bounds,
/// its surface and its orientation flag.
pub struct FaceRefs {
    pub name: String,
    pub edge_ids: Vec<u64>,
    pub surface_id: u64,
    pub same_sense: bool,
}

pub struct FaceRefsView {
    pub name: Seq<char>,
    pub edge_ids: Seq<u64>,
    pub surface_id: u64,
    pub same_sense: bool,
}

impl View for FaceRefs {
    type V = FaceRefsView;

    open spec fn view(&self) -> FaceRefsView {
        FaceRefsView {
            name: self.name@,
            edge_ids: self.edge_ids@,
            surface_id: self.surface_id,
            same_sense: self.same_sense,
        }
    }
}

/// The references of a shell: its name, its faces and whether it is closed.
pub struct ShellRefs {
    pub name: String,
    pub face_ids: Vec<u64>,
    pub is_closed: bool,
}

pub struct ShellRefsView {
    pub name: Seq<char>,
    pub face_ids: Seq<u64>,
    pub is_closed: bool,
}

impl View for ShellRefs {
    type V = ShellRefsView;

    open spec fn view(&self) -> ShellRefsView {
        ShellRefsView { name: self.name@, face_ids: self.face_ids@, is_closed: self.is_closed }
    }
}

/// The references of a MANIFOLD_SOLID_BREP: its name and its shell.
pub struct SolidRefs {
    pub name: String,
    pub shell_id: u64,
}

pub struct SolidRefsView {
    pub name: Seq<char>,
    pub shell_id: u64,
}

impl View for SolidRefs {
    type V = SolidRefsView;

    open spec fn view(&self) -> SolidRefsView {
        SolidRefsView { name: self.name@, shell_id: self.shell_id }
    }
}

/// The arguments of an entity.
pub open spec fn args_of(e: EntityView) -> Seq<Seq<char>> {
    split_args_spec(e.2)
}

/// The argument at `i`, or `$` (the STEP null value) when there is none.
pub open spec fn arg_or_null(args: Seq<Seq<char>>, i: int) -> Seq<char> {
    if 0 <= i < args.len() {
        args[i]
    } else {
        seq!['$']
    }
}

/// The reference held by the argument at `i`.
pub open spec fn ref_arg(args: Seq<Seq<char>>, i: int) -> Result<u64, ResolveErrorView> {
    reference_result(arg_or_null(args, i))
}

/// The entity with this id.
pub open spec fn get_spec(m: Map<u64, EntityView>, id: u64) -> Result<EntityView, ResolveErrorView> {
    if m.contains_key(id) {
        Ok(m[id])
    } else {
        Err(ResolveErrorView::MissingEntity(id))
    }
}

/// The items of a parenthesised list argument such as `(#1, #2)`.
pub open spec fn list_items(arg: Seq<char>) -> Seq<Seq<char>> {
    split_args_spec(trim_matches(trim_matches(trim(arg), '('), ')'))
}

/// The items that are `#id` references, in order.
pub open spec fn refs_in(items: Seq<Seq<char>>) -> Seq<u64>
    decreases items.len(),
{
    if items.len() == 0 {
        Seq::empty()
    } else {
        let r = refs_in(items.drop_last());
        match parse_ref_spec(items.last()) {
            Some(v) => r.push(v),
            None => r,
        }
    }
}

/// `resolve_oriented_edge`: the EDGE_CURVE that an ORIENTED_EDGE refers to.
pub open spec fn oriented_edge_spec(m: Map<u64, EntityView>, id: u64) -> Result<u64, ResolveErrorView> {
    match get_spec(m, id) {
        Err(e) => Err(e),
        Ok(e) => if e.1 != "ORIENTED_EDGE"@ {
            Err(ResolveErrorView::NotOrientedEdge)
        } else {
            ref_arg(args_of(e), 3)
        },
    }
}

/// The edges of the oriented edges listed in `items` that resolve.
pub open spec fn loop_edges_in(m: Map<u64, EntityView>, items: Seq<Seq<char>>) -> Seq<u64>
    decreases items.len(),
{
    if items.len() == 0 {
        Seq::empty()
    } else {
        let r = loop_edges_in(m, items.drop_last());
        match parse_ref_spec(items.last()) {
            Some(oe) => match oriented_edge_spec(m, oe) {
                Ok(edge) => r.push(edge),
                Err(_) => r,
            },
            None => r,
        }
    }
}

/// `resolve_edge_loop`: the edges of an EDGE_LOOP, in order.
pub open spec fn edge_loop_spec(m: Map<u64, EntityView>, id: u64) -> Result<Seq<u64>, ResolveErrorView> {
    match get_spec(m, id) {
        Err(e) => Err(e),
        Ok(e) => if e.1 != "EDGE_LOOP"@ {
            Err(ResolveErrorView::NotEdgeLoop)
        } else {
            let args = args_of(e);
            let items = if args.len() > 1 {
                list_items(args[1])
            } else {
                Seq::empty()
            };
            Ok(loop_edges_in(m, items))
        },
    }
}

/// `resolve_face_bound`: the edges of the loop of a FACE_BOUND or FACE_OUTER_BOUND
/// (or of another bound type whose name contains either).
pub open spec fn face_bound_spec(m: Map<u64, EntityView>, id: u64) -> Result<Seq<u64>, ResolveErrorView> {
    match get_spec(m, id) {
        Err(e) => Err(e),
        Ok(e) => if !(contains(e.1, "FACE_BOUND"@) || contains(e.1, "FACE_OUTER_BOUND"@)) {
            Err(ResolveErrorView::NotFaceBound)
        } else {
            match ref_arg(args_of(e), 1) {
                Err(err) => Err(err),
                Ok(loop_id) => edge_loop_spec(m, loop_id),
            }
        },
    }
}

/// The argument at `i`, or `default` when there is none.
pub open spec fn arg_or(args: Seq<Seq<char>>, i: int, default: Seq<char>) -> Seq<char> {
    if 0 <= i < args.len() {
        args[i]
    } else {
        default
    }
}

/// The reference held by the argument at `i`, or 0 when it holds none.
pub open spec fn optional_ref_arg(args: Seq<Seq<char>>, i: int) -> u64 {
    if 0 <= i < args.len() {
        match parse_ref_spec(args[i]) {
            Some(v) => v,
            None => 0,
        }
    } else {
        0
    }
}

/// The entity's name argument can be read: reading a name fails on a first
/// argument that is a lone quote, which this excludes for entities with at
/// least `min_args` arguments.
pub open spec fn name_safe(m: Map<u64, EntityView>, id: u64, min_args: int) -> bool {
    m.contains_key(id) ==> {
        let a = args_of(m[id]);
        a.len() >= min_args && a.len() > 0 ==> !lone_quote(trim(a[0]))
    }
}

/// The coordinate tokens of a tuple argument `(x, y, z)`.
pub open spec fn tuple_items(arg: Seq<char>) -> Seq<Seq<char>> {
    split_args_spec(
        strip_end(strip_start(trim(arg), CharClass::Exactly('(')), CharClass::Exactly(')')),
    )
}

/// The type name of the entities whose coordinates are read: CARTESIAN_POINT
/// for a point, DIRECTION otherwise.
pub open spec fn coordinates_type(point: bool) -> Seq<char> {
    if point {
        "CARTESIAN_POINT"@
    } else {
        "DIRECTION"@
    }
}

/// The coordinate tokens of a CARTESIAN_POINT (when `point` holds) or of a DIRECTION.
pub open spec fn coordinates_spec(m: Map<u64, EntityView>, id: u64, point: bool) -> Result<
    Seq<Seq<char>>,
    ResolveErrorView,
> {
    match get_spec(m, id) {
        Err(e) => Err(e),
        Ok(e) => if e.1 != coordinates_type(point) {
            if point {
                Err(ResolveErrorView::NotCartesianPoint(id, e.1))
            } else {
                Err(ResolveErrorView::NotDirection(id))
            }
        } else if args_of(e).len() < 2 {
            if point {
                Err(ResolveErrorView::PointCoordinates)
            } else {
                Err(ResolveErrorView::DirectionCoordinates)
            }
        } else {
            Ok(tuple_items(args_of(e)[1]))
        },
    }
}

/// `resolve_vertex`, without the point: the name and point of a VERTEX_POINT.
pub open spec fn vertex_spec(m: Map<u64, EntityView>, id: u64) -> Result<VertexRefsView, ResolveErrorView> {
    match get_spec(m, id) {
        Err(e) => Err(e),
        Ok(e) => {
            let a = args_of(e);
            if a.len() < 2 {
                Err(ResolveErrorView::VertexArguments(id))
            } else {
                match ref_arg(a, 1) {
                    Err(err) => Err(err),
                    Ok(p) => Ok(VertexRefsView { name: arg_name_spec(a, 0), point_id: p }),
                }
            }
        },
    }
}

/// The reference in the argument at `i`, if there is such an argument.
pub open spec fn present_ref(a: Seq<Seq<char>>, i: int) -> Result<Option<u64>, ResolveErrorView> {
    if i < a.len() {
        match parse_ref_spec(a[i]) {
            Some(v) => Ok(Some(v)),
            None => Err(ResolveErrorView::BadReference(trim(a[i]))),
        }
    } else {
        Ok(None)
    }
}

/// `resolve_axis2_placement`, without the points and directions.
pub open spec fn placement_spec(m: Map<u64, EntityView>, id: u64) -> Result<PlacementRefs, ResolveErrorView> {
    match get_spec(m, id) {
        Err(e) => Err(e),
        Ok(e) => if !contains(e.1, "AXIS2_PLACEMENT"@) {
            Ok(PlacementRefs::Identity)
        } else {
            let a = args_of(e);
            match present_ref(a, 1) {
                Err(err) => Err(err),
                Ok(location) => match present_ref(a, 2) {
                    Err(err) => Err(err),
                    Ok(axis) => match present_ref(a, 3) {
                        Err(err) => Err(err),
                        Ok(ref_dir) => Ok(PlacementRefs::Frame { location, axis, ref_dir }),
                    },
                },
            }
        },
    }
}

/// `resolve_vector_direction`, without the direction: the DIRECTION that a
/// VECTOR refers to, or the entity itself when it is a DIRECTION.
pub open spec fn vector_direction_spec(m: Map<u64, EntityView>, id: u64) -> Result<u64, ResolveErrorView> {
    match get_spec(m, id) {
        Err(e) => Err(e),
        Ok(e) => if e.1 == "VECTOR"@ {
            ref_arg(args_of(e), 1)
        } else if e.1 == "DIRECTION"@ {
            Ok(id)
        } else {
            Err(ResolveErrorView::NotVectorOrDirection(id))
        },
    }
}

/// The references listed in the arguments `args`, argument by argument.
pub open spec fn spline_points(args: Seq<Seq<char>>) -> Seq<u64>
    decreases args.len(),
{
    if args.len() == 0 {
        Seq::empty()
    } else {
        spline_points(args.drop_last()) + refs_in(list_items(args.last()))
    }
}

/// A surface type name handled as a spline surface.
pub open spec fn is_spline_surface(t: Seq<char>) -> bool {
    contains(t, "B_SPLINE"@) || contains(t, "BEZIER"@) || contains(t, "NURBS"@)
}

/// A curve type name handled as a spline curve.
pub open spec fn is_spline_curve(t: Seq<char>) -> bool {
    contains(t, "B_SPLINE"@) || contains(t, "BEZIER"@)
}

/// A spline entity has the two leading arguments that its reading skips.
pub open spec fn spline_args_present(m: Map<u64, EntityView>, id: u64, curve: bool) -> bool {
    m.contains_key(id) && (if curve {
        is_spline_curve(m[id].1)
    } else {
        is_spline_surface(m[id].1)
    }) ==> args_of(m[id]).len() >= 2
}

/// `resolve_surface`, without the placements and the numbers.
pub open spec fn surface_spec(m: Map<u64, EntityView>, id: u64) -> Result<SurfaceRefsView, ResolveErrorView> {
    match get_spec(m, id) {
        Err(e) => Err(e),
        Ok(e) => {
            let t = e.1;
            let a = args_of(e);
            if t == "PLANE"@ {
                match ref_arg(a, 1) {
                    Err(err) => Err(err),
                    Ok(p) => Ok(SurfaceRefsView::Plane { placement_id: p }),
                }
            } else if t == "CYLINDRICAL_SURFACE"@ {
                match ref_arg(a, 1) {
                    Err(err) => Err(err),
                    Ok(p) => Ok(SurfaceRefsView::Cylinder { placement_id: p, radius: arg_or(a, 2, "0"@) }),
                }
            } else if t == "SPHERICAL_SURFACE"@ {
                match ref_arg(a, 1) {
                    Err(err) => Err(err),
                    Ok(p) => Ok(SurfaceRefsView::Sphere { placement_id: p, radius: arg_or(a, 2, "0"@) }),
                }
            } else if t == "CONICAL_SURFACE"@ {
                match ref_arg(a, 1) {
                    Err(err) => Err(err),
                    Ok(p) => Ok(
                        SurfaceRefsView::Cone {
                            placement_id: p,
                            radius: arg_or(a, 2, "0"@),
                            semi_angle: arg_or(a, 3, "0"@),
                        },
                    ),
                }
            } else if t == "TOROIDAL_SURFACE"@ {
                match ref_arg(a, 1) {
                    Err(err) => Err(err),
                    Ok(p) => Ok(
                        SurfaceRefsView::Torus {
                            placement_id: p,
                            major_radius: arg_or(a, 2, "0"@),
                            minor_radius: arg_or(a, 3, "0"@),
                        },
                    ),
                }
            } else if is_spline_surface(t) {
                Ok(SurfaceRefsView::BSpline { point_ids: spline_points(a.skip(2)) })
            } else {
                Ok(SurfaceRefsView::Unknown { entity_type: t })
            }
        },
    }
}

/// `resolve_edge`, without the positions: the references of an EDGE_CURVE.
pub open spec fn edge_spec(m: Map<u64, EntityView>, id: u64) -> Result<EdgeRefsView, ResolveErrorView> {
    match get_spec(m, id) {
        Err(e) => Err(e),
        Ok(e) => {
            let a = args_of(e);
            match ref_arg(a, 1) {
                Err(err) => Err(err),
                Ok(start) => match ref_arg(a, 2) {
                    Err(err) => Err(err),
                    Ok(end) => Ok(
                        EdgeRefsView {
                            name: arg_name_spec(a, 0),
                            start_vertex_id: start,
                            end_vertex_id: end,
                            curve_id: optional_ref_arg(a, 3),
                        },
                    ),
                },
            }
        },
    }
}

/// `resolve_curve`, without the points, placements and numbers.
pub open spec fn curve_spec(m: Map<u64, EntityView>, id: u64) -> Result<CurveRefsView, ResolveErrorView> {
    match get_spec(m, id) {
        Err(e) => Err(e),
        Ok(e) => {
            let t = e.1;
            let a = args_of(e);
            if t == "LINE"@ {
                match ref_arg(a, 1) {
                    Err(err) => Err(err),
                    Ok(p) => Ok(CurveRefsView::Line { point_id: p, vector_id: optional_ref_arg(a, 2) }),
                }
            } else if t == "CIRCLE"@ {
                match ref_arg(a, 1) {
                    Err(err) => Err(err),
                    Ok(p) => Ok(CurveRefsView::Circle { placement_id: p, radius: arg_or(a, 2, "0"@) }),
                }
            } else if t == "ELLIPSE"@ {
                match ref_arg(a, 1) {
                    Err(err) => Err(err),
                    Ok(p) => Ok(
                        CurveRefsView::Ellipse {
                            placement_id: p,
                            semi_axis_1: arg_or(a, 2, "0"@),
                            semi_axis_2: arg_or(a, 3, "0"@),
                        },
                    ),
                }
            } else if is_spline_curve(t) {
                Ok(CurveRefsView::BSpline { point_ids: spline_points(a.skip(2)) })
            } else {
                Ok(CurveRefsView::Unknown { entity_type: t })
            }
        },
    }
}

/// The edges of the face bounds listed in `items` (a bound that does not
/// resolve contributes none).
pub open spec fn face_edges_in(m: Map<u64, EntityView>, items: Seq<Seq<char>>) -> Seq<u64>
    decreases items.len(),
{
    if items.len() == 0 {
        Seq::empty()
    } else {
        face_edges_in(m, items.drop_last()) + match parse_ref_spec(items.last()) {
            Some(b) => match face_bound_spec(m, b) {
                Ok(es) => es,
                Err(_) => Seq::empty(),
            },
            None => Seq::empty(),
        }
    }
}

/// The items of the list argument at `i`, or none when it is missing.
pub open spec fn list_arg(a: Seq<Seq<char>>, i: int) -> Seq<Seq<char>> {
    if 0 <= i < a.len() {
        list_items(a[i])
    } else {
        Seq::empty()
    }
}

/// `resolve_face`, without the surface and the measures.
pub open spec fn face_spec(m: Map<u64, EntityView>, id: u64) -> Result<FaceRefsView, ResolveErrorView> {
    match get_spec(m, id) {
        Err(e) => Err(e),
        Ok(e) => {
            let a = args_of(e);
            match ref_arg(a, 2) {
                Err(err) => Err(err),
                Ok(surface) => Ok(
                    FaceRefsView {
                        name: arg_name_spec(a, 0),
                        edge_ids: face_edges_in(m, list_arg(a, 1)),
                        surface_id: surface,
                        same_sense: contains(
                            if a.len() > 3 {
                                trim(a[3])
                            } else {
                                ".T."@
                            },
                            "T"@,
                        ),
                    },
                ),
            }
        },
    }
}

/// `resolve_shell`, without the centroid.
pub open spec fn shell_spec(m: Map<u64, EntityView>, id: u64) -> Result<ShellRefsView, ResolveErrorView> {
    match get_spec(m, id) {
        Err(e) => Err(e),
        Ok(e) => {
            let a = args_of(e);
            Ok(
                ShellRefsView {
                    name: arg_name_spec(a, 0),
                    face_ids: refs_in(list_arg(a, 1)),
                    is_closed: contains(e.1, "CLOSED"@),
                },
            )
        },
    }
}

/// `resolve_solid`, without the measures.
pub open spec fn solid_spec(m: Map<u64, EntityView>, id: u64) -> Result<SolidRefsView, ResolveErrorView> {
    match get_spec(m, id) {
        Err(e) => Err(e),
        Ok(e) => {
            let a = args_of(e);
            match ref_arg(a, 1) {
                Err(err) => Err(err),
                Ok(shell) => Ok(SolidRefsView { name: arg_name_spec(a, 0), shell_id: shell }),
            }
        },
    }
}

impl<'a> EntityResolver<'a> {
    /// The entities, as plain values.
    pub open spec fn model(&self) -> Map<u64, EntityView> {
        entities_view(self.entities@)
    }

    /// The entity with this id.
    pub fn get(&self, id: u64) -> (r: Result<&'a RawEntity, ResolveError>)
        ensures
            match r {
                Ok(e) => get_spec(self.model(), id) == Ok::<EntityView, ResolveErrorView>(
                    crate::parser::entity_view(*e),
                ),
                Err(err) => get_spec(self.model(), id) == Err::<EntityView, ResolveErrorView>(err@),
            },
    {
        match self.entities.get(&id) {
            Some(e) => Ok(e),
            None => Err(ResolveError::MissingEntity(id)),
        }
    }

    /// The arguments of the entity with this id.
    fn entity_args(&self, id: u64) -> (r: Result<(Vec<char>, Vec<String>), ResolveError>)
        ensures
            match r {
                Ok((t, a)) => get_spec(self.model(), id) matches Ok(e) && t@ == e.1 && texts(a@)
                    == args_of(e),
                Err(err) => get_spec(self.model(), id) == Err::<EntityView, ResolveErrorView>(err@),
            },
    {
        let e = self.get(id)?;
        let t = chars_of(e.entity_type.as_str());
        let args_chars = chars_of(e.args.as_str());
        let a = split_args_chars(args_chars.as_slice());
        Ok((t, a))
    }

    /// `resolve_oriented_edge`: resolve an ORIENTED_EDGE to the underlying EDGE_CURVE id.
    pub fn resolve_oriented_edge(&self, id: u64) -> (r: Result<u64, ResolveError>)
        ensures
            result_view(r) == oriented_edge_spec(self.model(), id),
    {
        let (t, args) = self.entity_args(id)?;
        let expected = chars_of("ORIENTED_EDGE");
        if !chars_equal(t.as_slice(), expected.as_slice()) {
            return Err(ResolveError::NotOrientedEdge);
        }
        ref_argument(&args, 3)
    }

    /// `resolve_edge_loop`: resolve an EDGE_LOOP to its list of edge ids.
    pub fn resolve_edge_loop(&self, id: u64) -> (r: Result<Vec<u64>, ResolveError>)
        ensures
            match r {
                Ok(v) => edge_loop_spec(self.model(), id) == Ok::<Seq<u64>, ResolveErrorView>(v@),
                Err(err) => edge_loop_spec(self.model(), id) == Err::<Seq<u64>, ResolveErrorView>(err@),
            },
    {
        let (t, args) = self.entity_args(id)?;
        let expected = chars_of("EDGE_LOOP");
        if !chars_equal(t.as_slice(), expected.as_slice()) {
            return Err(ResolveError::NotEdgeLoop);
        }
        let items: Vec<String> = if args.len() > 1 {
            list_items_of(&args[1])
        } else {
            Vec::new()
        };
        assert(args@.len() <= 1 ==> texts(items@) =~= Seq::<Seq<char>>::empty());
        let ghost iv = texts(items@);
        let mut edges: Vec<u64> = Vec::new();
        let mut i: usize = 0;
        assert(iv.take(0) =~= Seq::<Seq<char>>::empty());
        while i < items.len()
            invariant
                iv == texts(items@),
                i <= items@.len(),
                edges@ == loop_edges_in(self.model(), iv.take(i as int)),
            decreases items@.len() - i,
        {
            assert(iv.take(i + 1).drop_last() =~= iv.take(i as int));
            assert(iv.take(i + 1).last() == items@[i as int]@);
            let item = chars_of(items[i].as_str());
            match parse_ref_chars(item.as_slice()) {
                Some(oe) => match self.resolve_oriented_edge(oe) {
                    Ok(edge) => {
                        edges.push(edge);
                    },
                    Err(_) => {},
                },
                None => {},
            }
            i = i + 1;
        }
        assert(iv.take(items@.len() as int) =~= iv);
        Ok(edges)
    }

    /// `resolve_face_bound`: resolve a FACE_BOUND / FACE_OUTER_BOUND to its list of edge ids.
    pub fn resolve_face_bound(&self, id: u64) -> (r: Result<Vec<u64>, ResolveError>)
        ensures
            match r {
                Ok(v) => face_bound_spec(self.model(), id) == Ok::<Seq<u64>, ResolveErrorView>(v@),
                Err(err) => face_bound_spec(self.model(), id) == Err::<Seq<u64>, ResolveErrorView>(err@),
            },
    {
        let (t, args) = self.entity_args(id)?;
        if !(type_contains(&t, "FACE_BOUND") || type_contains(&t, "FACE_OUTER_BOUND")) {
            return Err(ResolveError::NotFaceBound);
        }
        let loop_id = ref_argument(&args, 1)?;
        self.resolve_edge_loop(loop_id)
    }

    /// Whether the name argument of the entity can be read when it has at
    /// least `min_args` arguments.
    pub fn name_is_safe(&self, id: u64, min_args: usize) -> (b: bool)
        ensures
            b == name_safe(self.model(), id, min_args as int),
    {
        match self.entity_args(id) {
            Err(_) => true,
            Ok((_, args)) => {
                if args.len() >= min_args && args.len() > 0 {
                    !crate::parser::is_lone_quote(args[0].as_str())
                } else {
                    true
                }
            },
        }
    }

    /// Whether a spline entity (a curve when `curve` holds, else a surface)
    /// has the two leading arguments that its reading skips.
    pub fn spline_args_ok(&self, id: u64, curve: bool) -> (b: bool)
        ensures
            b == spline_args_present(self.model(), id, curve),
    {
        match self.entity_args(id) {
            Err(_) => true,
            Ok((t, args)) => {
                let spline = if curve {
                    is_spline_curve_name(&t)
                } else {
                    is_spline_surface_name(&t)
                };
                !spline || args.len() >= 2
            },
        }
    }

    fn coordinates(&self, id: u64, point: bool) -> (r: Result<Vec<String>, ResolveError>)
        ensures
            match r {
                Ok(v) => coordinates_spec(self.model(), id, point) == Ok::<
                    Seq<Seq<char>>,
                    ResolveErrorView,
                >(texts(v@)),
                Err(err) => coordinates_spec(self.model(), id, point) == Err::<
                    Seq<Seq<char>>,
                    ResolveErrorView,
                >(err@),
            },
    {
        let (t, args) = self.entity_args(id)?;
        let ty = if point {
            "CARTESIAN_POINT"
        } else {
            "DIRECTION"
        };
        if !type_is(&t, ty) {
            if point {
                return Err(ResolveError::NotCartesianPoint(id, string_of(t.as_slice())));
            } else {
                return Err(ResolveError::NotDirection(id));
            }
        }
        if args.len() < 2 {
            if point {
                return Err(ResolveError::PointCoordinates);
            } else {
                return Err(ResolveError::DirectionCoordinates);
            }
        }
        let chars = chars_of(args[1].as_str());
        let inner = trim_end_matches_chars(
            trim_start_matches_chars(trim_chars(chars.as_slice()), '('),
            ')',
        );
        Ok(split_args_chars(inner))
    }

    /// `resolve_cartesian_point`, without the numbers: the coordinate tokens
    /// of a CARTESIAN_POINT.
    pub fn cartesian_point_coordinates(&self, id: u64) -> (r: Result<Vec<String>, ResolveError>)
        ensures
            match r {
                Ok(v) => coordinates_spec(self.model(), id, true) == Ok::<
                    Seq<Seq<char>>,
                    ResolveErrorView,
                >(texts(v@)),
                Err(err) => coordinates_spec(self.model(), id, true) == Err::<
                    Seq<Seq<char>>,
                    ResolveErrorView,
                >(err@),
            },
    {
        self.coordinates(id, true)
    }

    /// `resolve_direction`, without the numbers: the coordinate tokens of a DIRECTION.
    pub fn direction_coordinates(&self, id: u64) -> (r: Result<Vec<String>, ResolveError>)
        ensures
            match r {
                Ok(v) => coordinates_spec(self.model(), id, false) == Ok::<
                    Seq<Seq<char>>,
                    ResolveErrorView,
                >(texts(v@)),
                Err(err) => coordinates_spec(self.model(), id, false) == Err::<
                    Seq<Seq<char>>,
                    ResolveErrorView,
                >(err@),
            },
    {
        self.coordinates(id, false)
    }

    /// `resolve_vertex`, without the point: the name and CARTESIAN_POINT of a VERTEX_POINT.
    pub fn vertex_refs(&self, id: u64) -> (r: Result<VertexRefs, ResolveError>)
        requires
            name_safe(self.model(), id, 2),
        ensures
            match r {
                Ok(v) => vertex_spec(self.model(), id) == Ok::<VertexRefsView, ResolveErrorView>(v@),
                Err(err) => vertex_spec(self.model(), id) == Err::<VertexRefsView, ResolveErrorView>(err@),
            },
    {
        let (_, args) = self.entity_args(id)?;
        if args.len() < 2 {
            return Err(ResolveError::VertexArguments(id));
        }
        let name = arg_name(args.as_slice(), 0);
        let point_id = ref_argument(&args, 1)?;
        Ok(VertexRefs { name, point_id })
    }

    /// `resolve_axis2_placement`, without the points and directions.
    pub fn placement_refs(&self, id: u64) -> (r: Result<PlacementRefs, ResolveError>)
        ensures
            result_view(r) == placement_spec(self.model(), id),
    {
        let (t, args) = self.entity_args(id)?;
        if !type_contains(&t, "AXIS2_PLACEMENT") {
            return Ok(PlacementRefs::Identity);
        }
        let location = present_ref_argument(&args, 1)?;
        let axis = present_ref_argument(&args, 2)?;
        let ref_dir = present_ref_argument(&args, 3)?;
        Ok(PlacementRefs::Frame { location, axis, ref_dir })
    }

    /// `resolve_vector_direction`, without the direction: the DIRECTION that
    /// a VECTOR refers to, or the entity itself when it is a DIRECTION.
    pub fn vector_direction_id(&self, id: u64) -> (r: Result<u64, ResolveError>)
        ensures
            result_view(r) == vector_direction_spec(self.model(), id),
    {
        let (t, args) = self.entity_args(id)?;
        if type_is(&t, "VECTOR") {
            ref_argument(&args, 1)
        } else if type_is(&t, "DIRECTION") {
            Ok(id)
        } else {
            Err(ResolveError::NotVectorOrDirection(id))
        }
    }

    /// `resolve_surface`, without the placements and numbers.
    pub fn surface_refs(&self, id: u64) -> (r: Result<SurfaceRefs, ResolveError>)
        requires
            spline_args_present(self.model(), id, false),
        ensures
            match r {
                Ok(v) => surface_spec(self.model(), id) == Ok::<SurfaceRefsView, ResolveErrorView>(v@),
                Err(err) => surface_spec(self.model(), id) == Err::<SurfaceRefsView, ResolveErrorView>(err@),
            },
    {
        let (t, args) = self.entity_args(id)?;
        if type_is(&t, "PLANE") {
            let placement_id = ref_argument(&args, 1)?;
            Ok(SurfaceRefs::Plane { placement_id })
        } else if type_is(&t, "CYLINDRICAL_SURFACE") {
            let placement_id = ref_argument(&args, 1)?;
            Ok(SurfaceRefs::Cylinder { placement_id, radius: arg_text_or(&args, 2, "0") })
        } else if type_is(&t, "SPHERICAL_SURFACE") {
            let placement_id = ref_argument(&args, 1)?;
            Ok(SurfaceRefs::Sphere { placement_id, radius: arg_text_or(&args, 2, "0") })
        } else if type_is(&t, "CONICAL_SURFACE") {
            let placement_id = ref_argument(&args, 1)?;
            Ok(
                SurfaceRefs::Cone {
                    placement_id,
                    radius: arg_text_or(&args, 2, "0"),
                    semi_angle: arg_text_or(&args, 3, "0"),
                },
            )
        } else if type_is(&t, "TOROIDAL_SURFACE") {
            let placement_id = ref_argument(&args, 1)?;
            Ok(
                SurfaceRefs::Torus {
                    placement_id,
                    major_radius: arg_text_or(&args, 2, "0"),
                    minor_radius: arg_text_or(&args, 3, "0"),
                },
            )
        } else if is_spline_surface_name(&t) {
            Ok(SurfaceRefs::BSpline { point_ids: spline_point_ids(&args) })
        } else {
            Ok(SurfaceRefs::Unknown { entity_type: crate::text::string_of(t.as_slice()) })
        }
    }

    /// `resolve_edge`, without the positions: the references of an EDGE_CURVE.
    pub fn edge_refs(&self, id: u64) -> (r: Result<EdgeRefs, ResolveError>)
        requires
            name_safe(self.model(), id, 0),
        ensures
            match r {
                Ok(v) => edge_spec(self.model(), id) == Ok::<EdgeRefsView, ResolveErrorView>(v@),
                Err(err) => edge_spec(self.model(), id) == Err::<EdgeRefsView, ResolveErrorView>(err@),
            },
    {
        let (_, args) = self.entity_args(id)?;
        let name = arg_name(args.as_slice(), 0);
        let start_vertex_id = ref_argument(&args, 1)?;
        let end_vertex_id = ref_argument(&args, 2)?;
        let curve_id = optional_ref_argument(&args, 3);
        Ok(EdgeRefs { name, start_vertex_id, end_vertex_id, curve_id })
    }

    /// `resolve_curve`, without the points, placements and numbers.
    pub fn curve_refs(&self, id: u64) -> (r: Result<CurveRefs, ResolveError>)
        requires
            spline_args_present(self.model(), id, true),
        ensures
            match r {
                Ok(v) => curve_spec(self.model(), id) == Ok::<CurveRefsView, ResolveErrorView>(v@),
                Err(err) => curve_spec(self.model(), id) == Err::<CurveRefsView, ResolveErrorView>(err@),
            },
    {
        let (t, args) = self.entity_args(id)?;
        if type_is(&t, "LINE") {
            let point_id = ref_argument(&args, 1)?;
            Ok(CurveRefs::Line { point_id, vector_id: optional_ref_argument(&args, 2) })
        } else if type_is(&t, "CIRCLE") {
            let placement_id = ref_argument(&args, 1)?;
            Ok(CurveRefs::Circle { placement_id, radius: arg_text_or(&args, 2, "0") })
        } else if type_is(&t, "ELLIPSE") {
            let placement_id = ref_argument(&args, 1)?;
            Ok(
                CurveRefs::Ellipse {
                    placement_id,
                    semi_axis_1: arg_text_or(&args, 2, "0"),
                    semi_axis_2: arg_text_or(&args, 3, "0"),
                },
            )
        } else if is_spline_curve_name(&t) {
            Ok(CurveRefs::BSpline { point_ids: spline_point_ids(&args) })
        } else {
            Ok(CurveRefs::Unknown { entity_type: crate::text::string_of(t.as_slice()) })
        }
    }

    /// The edges of the face bounds listed in `items`.
    fn face_bound_edges(&self, items: &Vec<String>) -> (r: Vec<u64>)
        ensures
            r@ == face_edges_in(self.model(), texts(items@)),
    {
        let ghost iv = texts(items@);
        let mut edges: Vec<u64> = Vec::new();
        let mut i: usize = 0;
        assert(iv.take(0) =~= Seq::<Seq<char>>::empty());
        while i < items.len()
            invariant
                iv == texts(items@),
                i <= items@.len(),
                edges@ == face_edges_in(self.model(), iv.take(i as int)),
            decreases items@.len() - i,
        {
            assert(iv.take(i + 1).drop_last() =~= iv.take(i as int));
            assert(iv.take(i + 1).last() == items@[i as int]@);
            let item = chars_of(items[i].as_str());
            let ghost before = edges@;
            match parse_ref_chars(item.as_slice()) {
                Some(bound_id) => match self.resolve_face_bound(bound_id) {
                    Ok(es) => {
                        let mut es = es;
                        edges.append(&mut es);
                    },
                    Err(_) => {
                        assert(before + Seq::<u64>::empty() =~= before);
                    },
                },
                None => {
                    assert(before + Seq::<u64>::empty() =~= before);
                },
            }
            i = i + 1;
        }
        assert(iv.take(items@.len() as int) =~= iv);
        edges
    }

    /// `resolve_face`, without the surface and the measures: the name,
    /// bounding edges, surface and orientation of an ADVANCED_FACE.
    pub fn face_refs(&self, id: u64) -> (r: Result<FaceRefs, ResolveError>)
        requires
            name_safe(self.model(), id, 0),
        ensures
            match r {
                Ok(v) => face_spec(self.model(), id) == Ok::<FaceRefsView, ResolveErrorView>(v@),
                Err(err) => face_spec(self.model(), id) == Err::<FaceRefsView, ResolveErrorView>(err@),
            },
    {
        let (_, args) = self.entity_args(id)?;
        let name = arg_name(args.as_slice(), 0);
        let items = list_argument(&args, 1);
        let edge_ids = self.face_bound_edges(&items);
        let surface_id = ref_argument(&args, 2)?;
        let sense: Vec<char> = if args.len() > 3 {
            let chars = chars_of(args[3].as_str());
            let t = trim_chars(chars.as_slice());
            crate::text::slice_to_chars(t)
        } else {
            chars_of(".T.")
        };
        let letter = chars_of("T");
        let same_sense = contains_chars(sense.as_slice(), letter.as_slice());
        Ok(FaceRefs { name, edge_ids, surface_id, same_sense })
    }

    /// `resolve_shell`, without the centroid: the name, faces and closedness of a shell.
    pub fn shell_refs(&self, id: u64) -> (r: Result<ShellRefs, ResolveError>)
        requires
            name_safe(self.model(), id, 0),
        ensures
            match r {
                Ok(v) => shell_spec(self.model(), id) == Ok::<ShellRefsView, ResolveErrorView>(v@),
                Err(err) => shell_spec(self.model(), id) == Err::<ShellRefsView, ResolveErrorView>(err@),
            },
    {
        let (t, args) = self.entity_args(id)?;
        let name = arg_name(args.as_slice(), 0);
        let is_closed = type_contains(&t, "CLOSED");
        let items = list_argument(&args, 1);
        let face_ids = refs_in_items(&items);
        Ok(ShellRefs { name, face_ids, is_closed })
    }

    /// `resolve_solid`, without the measures: the name and shell of a MANIFOLD_SOLID_BREP.
    pub fn solid_refs(&self, id: u64) -> (r: Result<SolidRefs, ResolveError>)
        requires
            name_safe(self.model(), id, 0),
        ensures
            match r {
                Ok(v) => solid_spec(self.model(), id) == Ok::<SolidRefsView, ResolveErrorView>(v@),
                Err(err) => solid_spec(self.model(), id) == Err::<SolidRefsView, ResolveErrorView>(err@),
            },
    {
        let (_, args) = self.entity_args(id)?;
        let name = arg_name(args.as_slice(), 0);
        let shell_id = ref_argument(&args, 1)?;
        Ok(SolidRefs { name, shell_id })
    }
}

/// Whether the type name is exactly `name`.
fn type_is(t: &Vec<char>, name: &str) -> (b: bool)
    ensures
        b == (t@ == name@),
{
    let n = chars_of(name);
    chars_equal(t.as_slice(), n.as_slice())
}

/// Whether the type name contains `pattern`.
fn type_contains(t: &Vec<char>, pattern: &str) -> (b: bool)
    ensures
        b == contains(t@, pattern@),
{
    let p = chars_of(pattern);
    contains_chars(t.as_slice(), p.as_slice())
}

fn is_spline_surface_name(t: &Vec<char>) -> (b: bool)
    ensures
        b == is_spline_surface(t@),
{
    type_contains(t, "B_SPLINE") || type_contains(t, "BEZIER") || type_contains(t, "NURBS")
}

fn is_spline_curve_name(t: &Vec<char>) -> (b: bool)
    ensures
        b == is_spline_curve(t@),
{
    type_contains(t, "B_SPLINE") || type_contains(t, "BEZIER")
}

/// The argument at `i`, or `default` when there is none.
pub fn arg_text_or(args: &Vec<String>, i: usize, default: &str) -> (r: String)
    ensures
        r@ == arg_or(texts(args@), i as int, default@),
{
    if i < args.len() {
        args[i].clone()
    } else {
        default.to_owned()
    }
}

/// The reference in the argument at `i`, or 0 when it holds none.
pub fn optional_ref_argument(args: &Vec<String>, i: usize) -> (r: u64)
    ensures
        r == optional_ref_arg(texts(args@), i as int),
{
    if i < args.len() {
        let text = chars_of(args[i].as_str());
        match parse_ref_chars(text.as_slice()) {
            Some(v) => v,
            None => 0,
        }
    } else {
        0
    }
}

/// The reference in the argument at `i`, if there is such an argument.
pub fn present_ref_argument(args: &Vec<String>, i: usize) -> (r: Result<Option<u64>, ResolveError>)
    ensures
        result_view(r) == present_ref(texts(args@), i as int),
{
    if i < args.len() {
        let text = chars_of(args[i].as_str());
        match reference_in(text.as_slice()) {
            Ok(v) => Ok(Some(v)),
            Err(e) => Err(e),
        }
    } else {
        Ok(None)
    }
}

/// The items of the list argument at `i`, or none when it is missing.
pub fn list_argument(args: &Vec<String>, i: usize) -> (r: Vec<String>)
    ensures
        texts(r@) == list_arg(texts(args@), i as int),
{
    if i < args.len() {
        list_items_of(&args[i])
    } else {
        let r: Vec<String> = Vec::new();
        assert(texts(r@) =~= Seq::<Seq<char>>::empty());
        r
    }
}

/// The items that are `#id` references, in order.
pub fn refs_in_items(items: &Vec<String>) -> (r: Vec<u64>)
    ensures
        r@ == refs_in(texts(items@)),
{
    let ghost iv = texts(items@);
    let mut refs: Vec<u64> = Vec::new();
    let mut i: usize = 0;
    assert(iv.take(0) =~= Seq::<Seq<char>>::empty());
    while i < items.len()
        invariant
            iv == texts(items@),
            i <= items@.len(),
            refs@ == refs_in(iv.take(i as int)),
        decreases items@.len() - i,
    {
        assert(iv.take(i + 1).drop_last() =~= iv.take(i as int));
        assert(iv.take(i + 1).last() == items@[i as int]@);
        let item = chars_of(items[i].as_str());
        match parse_ref_chars(item.as_slice()) {
            Some(v) => {
                refs.push(v);
            },
            None => {},
        }
        i = i + 1;
    }
    assert(iv.take(items@.len() as int) =~= iv);
    refs
}

/// The references listed in the arguments after the first two.
fn spline_point_ids(args: &Vec<String>) -> (r: Vec<u64>)
    requires
        args@.len() >= 2,
    ensures
        r@ == spline_points(texts(args@).skip(2)),
{
    let ghost rest = texts(args@).skip(2);
    let mut points: Vec<u64> = Vec::new();
    let mut i: usize = 2;
    assert(rest.take(0) =~= Seq::<Seq<char>>::empty());
    while i < args.len()
        invariant
            rest == texts(args@).skip(2),
            2 <= i <= args@.len(),
            points@ == spline_points(rest.take(i - 2)),
        decreases args@.len() - i,
    {
        assert(rest.take(i - 1).drop_last() =~= rest.take(i - 2));
        assert(rest.take(i - 1).last() == args@[i as int]@);
        let items = list_items_of(&args[i]);
        let mut found = refs_in_items(&items);
        points.append(&mut found);
        i = i + 1;
    }
    assert(rest.take(args@.len() - 2) =~= rest);
    points
}

/// The reference held by the argument at `i` (the argument `$` when missing).
pub fn ref_argument(args: &Vec<String>, i: usize) -> (r: Result<u64, ResolveError>)
    ensures
        result_view(r) == ref_arg(texts(args@), i as int),
{
    let text: Vec<char> = if i < args.len() {
        chars_of(args[i].as_str())
    } else {
        vec!['$']
    };
    assert(text@ =~= arg_or_null(texts(args@), i as int));
    reference_in(text.as_slice())
}

/// The items of a parenthesised list argument.
pub fn list_items_of(arg: &String) -> (r: Vec<String>)
    ensures
        texts(r@) == list_items(arg@),
{
    let chars = chars_of(arg.as_str());
    let inner = trim_matches_chars(trim_matches_chars(trim_chars(chars.as_slice()), '('), ')');
    split_args_chars(inner)
}

/// The pass of the model assembly in which entities of a type are read:
/// vertices first, then edges, faces, shells and solids, each pass seeing
/// what the earlier ones produced.
#[derive(Debug, Clone, Copy, PartialEq, Eq, Structural)]
pub enum ModelPass {
    Vertex,
    Edge,
    Face,
    Shell,
    Solid,
}

/// The pass that reads entities of type `t`, if any.
pub open spec fn model_pass_spec(t: Seq<char>) -> Option<ModelPass> {
    if t == "VERTEX_POINT"@ {
        Some(ModelPass::Vertex)
    } else if t == "EDGE_CURVE"@ {
        Some(ModelPass::Edge)
    } else if t == "ADVANCED_FACE"@ {
        Some(ModelPass::Face)
    } else if t == "CLOSED_SHELL"@ || t == "OPEN_SHELL"@ || t == "SHELL_BASED_SURFACE_MODEL"@ {
        Some(ModelPass::Shell)
    } else if t == "MANIFOLD_SOLID_BREP"@ {
        Some(ModelPass::Solid)
    } else {
        None
    }
}

/// The pass of the model assembly that reads entities of this type.
pub fn model_pass(entity_type: &str) -> (r: Option<ModelPass>)
    ensures
        r == model_pass_spec(entity_type@),
{
    let t = chars_of(entity_type);
    if type_is(&t, "VERTEX_POINT") {
        Some(ModelPass::Vertex)
    } else if type_is(&t, "EDGE_CURVE") {
        Some(ModelPass::Edge)
    } else if type_is(&t, "ADVANCED_FACE") {
        Some(ModelPass::Face)
    } else if type_is(&t, "CLOSED_SHELL") || type_is(&t, "OPEN_SHELL") || type_is(
        &t,
        "SHELL_BASED_SURFACE_MODEL",
    ) {
        Some(ModelPass::Shell)
    } else if type_is(&t, "MANIFOLD_SOLID_BREP") {
        Some(ModelPass::Solid)
    } else {
        None
    }
}

/// Whether the model gets a synthetic solid over all its shells: it does
/// when no solid was read but some shell was.
pub fn needs_synthetic_solid(solid_count: usize, shell_count: usize) -> (b: bool)
    ensures
        b == (solid_count == 0 && shell_count > 0),
{
    solid_count == 0 && shell_count > 0
}

/// An ORIENTED_EDGE stands for the edge that its fourth argument refers to,
/// whatever its orientation argument says.
pub proof fn oriented_edge_is_its_fourth_argument(m: Map<u64, EntityView>, id: u64, k: u64)
    requires
        m.contains_key(id),
        m[id].1 == "ORIENTED_EDGE"@,
        split_args_spec(m[id].2).len() > 3,
        parse_ref_spec(split_args_spec(m[id].2)[3]) == Some(k),
    ensures
        oriented_edge_spec(m, id) == Ok::<u64, ResolveErrorView>(k),
{
}

/// `item` refers to an ORIENTED_EDGE whose fourth argument refers to `k`.
pub open spec fn refers_to_oriented_edge(m: Map<u64, EntityView>, item: Seq<char>, k: u64) -> bool {
    match parse_ref_spec(item) {
        Some(o) => m.contains_key(o) && m[o].1 == "ORIENTED_EDGE"@ && split_args_spec(m[o].2).len()
            > 3 && parse_ref_spec(split_args_spec(m[o].2)[3]) == Some(k),
        None => false,
    }
}

proof fn lemma_loop_edges(m: Map<u64, EntityView>, items: Seq<Seq<char>>, ks: Seq<u64>)
    requires
        items.len() == ks.len(),
        forall|j: int| 0 <= j < items.len() ==> #[trigger] refers_to_oriented_edge(m, items[j], ks[j]),
    ensures
        loop_edges_in(m, items) == ks,
    decreases items.len(),
{
    if items.len() > 0 {
        let n = items.len() - 1;
        assert forall|j: int| 0 <= j < items.drop_last().len() implies #[trigger] refers_to_oriented_edge(
            m,
            items.drop_last()[j],
            ks.drop_last()[j],
        ) by {
            assert(refers_to_oriented_edge(m, items[j], ks[j]));
        }
        lemma_loop_edges(m, items.drop_last(), ks.drop_last());
        assert(refers_to_oriented_edge(m, items[n], ks[n]));
        let o = parse_ref_spec(items[n])->0;
        oriented_edge_is_its_fourth_argument(m, o, ks[n]);
        assert(ks.drop_last().push(ks[n]) =~= ks);
    }
}

/// The surfaces read their arguments by position: after the name, the
/// placement reference, then the radius (cylinder, sphere), the radius and
/// semi-angle (cone), or the major and then the minor radius (torus).
pub proof fn surface_arguments_by_position(m: Map<u64, EntityView>, id: u64, p: u64)
    requires
        m.contains_key(id),
        split_args_spec(m[id].2).len() >= 2,
        parse_ref_spec(split_args_spec(m[id].2)[1]) == Some(p),
    ensures
        ({
            let t = m[id].1;
            let a = split_args_spec(m[id].2);
            &&& t == "PLANE"@ ==> surface_spec(m, id) == Ok::<SurfaceRefsView, ResolveErrorView>(
                SurfaceRefsView::Plane { placement_id: p },
            )
            &&& t == "CYLINDRICAL_SURFACE"@ && a.len() >= 3 ==> surface_spec(m, id) == Ok::<
                SurfaceRefsView,
                ResolveErrorView,
            >(SurfaceRefsView::Cylinder { placement_id: p, radius: a[2] })
            &&& t == "SPHERICAL_SURFACE"@ && a.len() >= 3 ==> surface_spec(m, id) == Ok::<
                SurfaceRefsView,
                ResolveErrorView,
            >(SurfaceRefsView::Sphere { placement_id: p, radius: a[2] })
            &&& t == "CONICAL_SURFACE"@ && a.len() >= 4 ==> surface_spec(m, id) == Ok::<
                SurfaceRefsView,
                ResolveErrorView,
            >(SurfaceRefsView::Cone { placement_id: p, radius: a[2], semi_angle: a[3] })
            &&& t == "TOROIDAL_SURFACE"@ && a.len() >= 4 ==> surface_spec(m, id) == Ok::<
                SurfaceRefsView,
                ResolveErrorView,
            >(SurfaceRefsView::Torus { placement_id: p, major_radius: a[2], minor_radius: a[3] })
        }),
{
    reveal_strlit("PLANE");
    reveal_strlit("CYLINDRICAL_SURFACE");
    reveal_strlit("SPHERICAL_SURFACE");
    reveal_strlit("CONICAL_SURFACE");
    reveal_strlit("TOROIDAL_SURFACE");
    assert("PLANE"@.len() == 5);
    assert("CYLINDRICAL_SURFACE"@.len() == 19);
    assert("SPHERICAL_SURFACE"@.len() == 17);
    assert("CONICAL_SURFACE"@.len() == 15);
    assert("TOROIDAL_SURFACE"@.len() == 16);
}

/// The curves read their arguments by position: a line its point and then
/// its vector, a circle its placement and radius, an ellipse its placement
/// and then its first and second semi-axes.
pub proof fn curve_arguments_by_position(m: Map<u64, EntityView>, id: u64, p: u64)
    requires
        m.contains_key(id),
        split_args_spec(m[id].2).len() >= 2,
        parse_ref_spec(split_args_spec(m[id].2)[1]) == Some(p),
    ensures
        ({
            let t = m[id].1;
            let a = split_args_spec(m[id].2);
            &&& t == "LINE"@ && a.len() >= 3 && parse_ref_spec(a[2]) is Some ==> curve_spec(m, id)
                == Ok::<CurveRefsView, ResolveErrorView>(
                CurveRefsView::Line { point_id: p, vector_id: parse_ref_spec(a[2])->0 },
            )
            &&& t == "CIRCLE"@ && a.len() >= 3 ==> curve_spec(m, id) == Ok::<
                CurveRefsView,
                ResolveErrorView,
            >(CurveRefsView::Circle { placement_id: p, radius: a[2] })
            &&& t == "ELLIPSE"@ && a.len() >= 4 ==> curve_spec(m, id) == Ok::<
                CurveRefsView,
                ResolveErrorView,
            >(CurveRefsView::Ellipse { placement_id: p, semi_axis_1: a[2], semi_axis_2: a[3] })
        }),
{
    reveal_strlit("LINE");
    reveal_strlit("CIRCLE");
    reveal_strlit("ELLIPSE");
    assert("LINE"@.len() == 4);
    assert("CIRCLE"@.len() == 6);
    assert("ELLIPSE"@.len() == 7);
}

/// An axis placement is its location, then its axis, then its reference
/// direction: the second, third and fourth arguments.
pub proof fn placement_arguments_by_position(
    m: Map<u64, EntityView>,
    id: u64,
    location: u64,
    axis: u64,
    ref_dir: u64,
)
    requires
        m.contains_key(id),
        contains(m[id].1, "AXIS2_PLACEMENT"@),
        split_args_spec(m[id].2).len() >= 4,
        parse_ref_spec(split_args_spec(m[id].2)[1]) == Some(location),
        parse_ref_spec(split_args_spec(m[id].2)[2]) == Some(axis),
        parse_ref_spec(split_args_spec(m[id].2)[3]) == Some(ref_dir),
    ensures
        placement_spec(m, id) == Ok::<PlacementRefs, ResolveErrorView>(
            PlacementRefs::Frame { location: Some(location), axis: Some(axis), ref_dir: Some(ref_dir) },
        ),
{
}

/// An entity that is not an axis placement is read as the identity frame.
pub proof fn non_placement_is_identity(m: Map<u64, EntityView>, id: u64)
    requires
        m.contains_key(id),
        !contains(m[id].1, "AXIS2_PLACEMENT"@),
    ensures
        placement_spec(m, id) == Ok::<PlacementRefs, ResolveErrorView>(PlacementRefs::Identity),
{
}

/// An edge curve runs from the vertex of its second argument to that of its
/// third, along the curve of its fourth, and is named by its first.
pub proof fn edge_arguments_by_position(m: Map<u64, EntityView>, id: u64, start: u64, end: u64, curve: u64)
    requires
        m.contains_key(id),
        split_args_spec(m[id].2).len() >= 4,
        parse_ref_spec(split_args_spec(m[id].2)[1]) == Some(start),
        parse_ref_spec(split_args_spec(m[id].2)[2]) == Some(end),
        parse_ref_spec(split_args_spec(m[id].2)[3]) == Some(curve),
    ensures
        edge_spec(m, id) == Ok::<EdgeRefsView, ResolveErrorView>(
            EdgeRefsView {
                name: parse_string_spec(split_args_spec(m[id].2)[0]),
                start_vertex_id: start,
                end_vertex_id: end,
                curve_id: curve,
            },
        ),
{
}

/// A vertex point is named by its first argument and lies at the point its
/// second argument refers to.
pub proof fn vertex_arguments_by_position(m: Map<u64, EntityView>, id: u64, point: u64)
    requires
        m.contains_key(id),
        split_args_spec(m[id].2).len() >= 2,
        parse_ref_spec(split_args_spec(m[id].2)[1]) == Some(point),
    ensures
        vertex_spec(m, id) == Ok::<VertexRefsView, ResolveErrorView>(
            VertexRefsView { name: parse_string_spec(split_args_spec(m[id].2)[0]), point_id: point },
        ),
{
}

/// A face lies on the surface its third argument refers to, with the sense
/// `.T.` or `.F.` of its fourth; a solid is bounded by the shell its second
/// argument refers to; a shell is closed exactly when its type says so.
pub proof fn face_solid_and_shell_arguments(m: Map<u64, EntityView>, id: u64, r: u64)
    requires
        m.contains_key(id),
    ensures
        ({
            let a = split_args_spec(m[id].2);
            &&& a.len() >= 4 && parse_ref_spec(a[2]) == Some(r) ==> (face_spec(m, id) matches Ok(f)
                && f.surface_id == r && f.name == parse_string_spec(a[0]) && (trim(a[3]) == ".T."@
                ==> f.same_sense) && (trim(a[3]) == ".F."@ ==> !f.same_sense))
            &&& a.len() >= 2 && parse_ref_spec(a[1]) == Some(r) ==> solid_spec(m, id) == Ok::<
                SolidRefsView,
                ResolveErrorView,
            >(SolidRefsView { name: parse_string_spec(a[0]), shell_id: r })
            &&& m[id].1 == "CLOSED_SHELL"@ ==> (shell_spec(m, id) matches Ok(s) && s.is_closed)
            &&& m[id].1 == "OPEN_SHELL"@ ==> (shell_spec(m, id) matches Ok(s) && !s.is_closed)
        }),
{
    reveal_strlit(".T.");
    reveal_strlit(".F.");
    reveal_strlit("T");
    reveal_strlit("CLOSED");
    reveal_strlit("CLOSED_SHELL");
    reveal_strlit("OPEN_SHELL");
    let a = split_args_spec(m[id].2);
    if a.len() >= 4 {
        let t = trim(a[3]);
        if t == ".T."@ {
            assert(occurs_at(t, "T"@, 1)) by {
                assert(t.subrange(1, 2) =~= "T"@);
            }
        }
        if t == ".F."@ {
            assert forall|x: int| !occurs_at(t, "T"@, x) by {
                if occurs_at(t, "T"@, x) {
                    assert(t.subrange(x, x + 1)[0] == t[x]);
                }
            }
        }
    }
    let ty = m[id].1;
    if ty == "CLOSED_SHELL"@ {
        assert(occurs_at(ty, "CLOSED"@, 0)) by {
            assert(ty.subrange(0, 6) =~= "CLOSED"@);
        }
    }
    if ty == "OPEN_SHELL"@ {
        assert forall|x: int| !occurs_at(ty, "CLOSED"@, x) by {
            if occurs_at(ty, "CLOSED"@, x) {
                assert(ty.subrange(x, x + 6)[0] == ty[x]);
            }
        }
    }
}

/// `arg` is, up to surrounding whitespace, the list `(x)`, where `x` neither
/// starts nor ends with a parenthesis.
pub open spec fn parenthesised(arg: Seq<char>, x: Seq<char>) -> bool {
    &&& trim(arg) == seq!['('] + x + seq![')']
    &&& x.len() > 0 ==> x[0] != '(' && x[0] != ')' && x.last() != '(' && x.last() != ')'
}

/// A parenthesised list argument `(x)` holds the arguments of `x`: its
/// top-level comma-separated items.
pub proof fn list_items_of_parenthesised(arg: Seq<char>, x: Seq<char>)
    requires
        parenthesised(arg, x),
    ensures
        list_items(arg) == split_args_spec(x),
{
    let u = seq!['('] + x + seq![')'];
    let open = CharClass::Exactly('(');
    let close = CharClass::Exactly(')');
    let xc = x + seq![')'];
    assert(u.drop_first() =~= xc);
    assert(strip_start(xc, open) == xc);
    assert(strip_start(u, open) == xc);
    assert(strip_end(xc, open) == xc);
    assert(trim_matches(u, '(') == xc);
    assert(xc.drop_last() =~= x);
    if x.len() == 0 {
        assert(strip_start(Seq::<char>::empty(), close) == Seq::<char>::empty());
        assert(xc.len() == 1 && xc[0] == ')');
        assert(xc.drop_first() =~= Seq::<char>::empty());
        assert(strip_start(xc, close) == strip_start(xc.drop_first(), close));
        assert(strip_start(xc, close) =~= Seq::<char>::empty());
        assert(strip_end(Seq::<char>::empty(), close) == Seq::<char>::empty());
        assert(trim_matches(xc, ')') =~= x);
    } else {
        assert(strip_start(xc, close) == xc);
        assert(strip_end(x, close) == x);
        assert(strip_end(xc, close) == x);
        assert(trim_matches(xc, ')') == x);
    }
}

/// An EDGE_LOOP whose second argument is the list `(x)` of references to
/// oriented edges yields, in the order listed, the edges those oriented
/// edges stand for.
pub proof fn edge_loop_follows_its_list(m: Map<u64, EntityView>, id: u64, x: Seq<char>, ks: Seq<u64>)
    requires
        m.contains_key(id),
        m[id].1 == "EDGE_LOOP"@,
        split_args_spec(m[id].2).len() > 1,
        parenthesised(split_args_spec(m[id].2)[1], x),
        split_args_spec(x).len() == ks.len(),
        forall|j: int|
            0 <= j < ks.len() ==> #[trigger] refers_to_oriented_edge(m, split_args_spec(x)[j], ks[j]),
    ensures
        edge_loop_spec(m, id) == Ok::<Seq<u64>, ResolveErrorView>(ks),
{
    list_items_of_parenthesised(split_args_spec(m[id].2)[1], x);
    lemma_loop_edges(m, split_args_spec(x), ks);
}

/// A FACE_BOUND or FACE_OUTER_BOUND has the edges of the loop that its
/// second argument refers to.
pub proof fn face_bound_is_its_loop(m: Map<u64, EntityView>, id: u64, l: u64)
    requires
        m.contains_key(id),
        m[id].1 == "FACE_BOUND"@ || m[id].1 == "FACE_OUTER_BOUND"@,
        split_args_spec(m[id].2).len() > 1,
        parse_ref_spec(split_args_spec(m[id].2)[1]) == Some(l),
    ensures
        face_bound_spec(m, id) == edge_loop_spec(m, l),
{
    reveal_strlit("FACE_BOUND");
    reveal_strlit("FACE_OUTER_BOUND");
    let t = m[id].1;
    if t == "FACE_BOUND"@ {
        assert(occurs_at(t, "FACE_BOUND"@, 0)) by {
            assert(t.subrange(0, 10) =~= "FACE_BOUND"@);
        }
    } else {
        assert(occurs_at(t, "FACE_OUTER_BOUND"@, 0)) by {
            assert(t.subrange(0, 16) =~= "FACE_OUTER_BOUND"@);
        }
    }
}

proof fn lemma_face_edges(m: Map<u64, EntityView>, items: Seq<Seq<char>>, bs: Seq<u64>, es: Seq<Seq<u64>>)
    requires
        items.len() == bs.len(),
        bs.len() == es.len(),
        forall|j: int|
            0 <= j < items.len() ==> #[trigger] parse_ref_spec(items[j]) == Some(bs[j])
                && face_bound_spec(m, bs[j]) == Ok::<Seq<u64>, ResolveErrorView>(es[j]),
    ensures
        face_edges_in(m, items) == es.flatten_alt(),
    decreases items.len(),
{
    if items.len() > 0 {
        let n = items.len() - 1;
        assert forall|j: int| 0 <= j < items.drop_last().len() implies #[trigger] parse_ref_spec(
            items.drop_last()[j],
        ) == Some(bs.drop_last()[j]) && face_bound_spec(m, bs.drop_last()[j]) == Ok::<
            Seq<u64>,
            ResolveErrorView,
        >(es.drop_last()[j]) by {
            assert(items.drop_last()[j] == items[j]);
            assert(parse_ref_spec(items[j]) == Some(bs[j]));
        }
        lemma_face_edges(m, items.drop_last(), bs.drop_last(), es.drop_last());
        assert(parse_ref_spec(items[n]) == Some(bs[n]));
    }
}

/// An ADVANCED_FACE whose second argument is the list `(x)` of references to
/// its bounds has the edges of those bounds, bound after bound, in order.
pub proof fn face_edges_follow_its_bounds(
    m: Map<u64, EntityView>,
    id: u64,
    x: Seq<char>,
    bs: Seq<u64>,
    es: Seq<Seq<u64>>,
)
    requires
        m.contains_key(id),
        split_args_spec(m[id].2).len() >= 3,
        parse_ref_spec(split_args_spec(m[id].2)[2]) is Some,
        parenthesised(split_args_spec(m[id].2)[1], x),
        split_args_spec(x).len() == bs.len(),
        bs.len() == es.len(),
        forall|j: int|
            0 <= j < bs.len() ==> #[trigger] parse_ref_spec(split_args_spec(x)[j]) == Some(bs[j])
                && face_bound_spec(m, bs[j]) == Ok::<Seq<u64>, ResolveErrorView>(es[j]),
    ensures
        face_spec(m, id) matches Ok(f) && f.edge_ids == es.flatten(),
{
    list_items_of_parenthesised(split_args_spec(m[id].2)[1], x);
    lemma_face_edges(m, split_args_spec(x), bs, es);
    es.lemma_flatten_and_flatten_alt_are_equivalent();
}

proof fn lemma_refs_in(items: Seq<Seq<char>>, ks: Seq<u64>)
    requires
        items.len() == ks.len(),
        forall|j: int| 0 <= j < items.len() ==> #[trigger] parse_ref_spec(items[j]) == Some(ks[j]),
    ensures
        refs_in(items) == ks,
    decreases items.len(),
{
    if items.len() > 0 {
        let n = items.len() - 1;
        assert forall|j: int| 0 <= j < items.drop_last().len() implies #[trigger] parse_ref_spec(
            items.drop_last()[j],
        ) == Some(ks.drop_last()[j]) by {
            assert(items.drop_last()[j] == items[j]);
            assert(parse_ref_spec(items[j]) == Some(ks[j]));
        }
        lemma_refs_in(items.drop_last(), ks.drop_last());
        assert(parse_ref_spec(items[n]) == Some(ks[n]));
        assert(ks.drop_last().push(ks[n]) =~= ks);
    }
}

/// A shell whose second argument is the list `(x)` of references to faces
/// holds those faces, in the order listed.
pub proof fn shell_faces_follow_its_list(m: Map<u64, EntityView>, id: u64, x: Seq<char>, ks: Seq<u64>)
    requires
        m.contains_key(id),
        split_args_spec(m[id].2).len() >= 2,
        parenthesised(split_args_spec(m[id].2)[1], x),
        split_args_spec(x).len() == ks.len(),
        forall|j: int| 0 <= j < ks.len() ==> #[trigger] parse_ref_spec(split_args_spec(x)[j]) == Some(ks[j]),
    ensures
        shell_spec(m, id) matches Ok(s) && s.face_ids == ks,
{
    list_items_of_parenthesised(split_args_spec(m[id].2)[1], x);
    lemma_refs_in(split_args_spec(x), ks);
}

} // verus!
