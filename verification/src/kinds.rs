//! The kinds of surfaces, curves and boundary functions, and their names.
//!
//! Each STEP surface type maps to a boundary function (a signed distance
//! function); planes, cylinders, spheres, cones and tori have exact ones,
//! splines an approximation, and other surfaces none.
use vstd::prelude::*;

verus! {

/// The kind of surface a face lies on.
pub enum SurfaceTag {
    Plane,
    Cylinder,
    Sphere,
    Cone,
    Torus,
    BSplineSurface,
    /// An unsupported surface, by its STEP type name.
    Unknown { entity_type: String },
}

/// The kind of curve an edge lies on.
pub enum CurveTag {
    Line,
    Circle,
    Ellipse,
    BSplineCurve,
    /// An unsupported curve, by its STEP type name.
    Unknown { entity_type: String },
}

/// The kind of a boundary function.
#[derive(Debug, Clone, Copy, PartialEq, Eq, Structural)]
pub enum BoundaryKind {
    Plane,
    Cylinder,
    Sphere,
    Cone,
    Torus,
    BSplineApprox,
    Unknown,
}

/// The STEP type name of a surface kind.
pub open spec fn surface_name_spec(s: SurfaceTag) -> Seq<char> {
    match s {
        SurfaceTag::Plane => "PLANE"@,
        SurfaceTag::Cylinder => "CYLINDRICAL_SURFACE"@,
        SurfaceTag::Sphere => "SPHERICAL_SURFACE"@,
        SurfaceTag::Cone => "CONICAL_SURFACE"@,
        SurfaceTag::Torus => "TOROIDAL_SURFACE"@,
        SurfaceTag::BSplineSurface => "B_SPLINE_SURFACE"@,
        SurfaceTag::Unknown { entity_type } => entity_type@,
    }
}

/// The STEP type name of a curve kind.
pub open spec fn curve_name_spec(c: CurveTag) -> Seq<char> {
    match c {
        CurveTag::Line => "LINE"@,
        CurveTag::Circle => "CIRCLE"@,
        CurveTag::Ellipse => "ELLIPSE"@,
        CurveTag::BSplineCurve => "B_SPLINE_CURVE"@,
        CurveTag::Unknown { entity_type } => entity_type@,
    }
}

/// The boundary function that represents a surface kind.
pub open spec fn boundary_kind_spec(s: SurfaceTag) -> BoundaryKind {
    match s {
        SurfaceTag::Plane => BoundaryKind::Plane,
        SurfaceTag::Cylinder => BoundaryKind::Cylinder,
        SurfaceTag::Sphere => BoundaryKind::Sphere,
        SurfaceTag::Cone => BoundaryKind::Cone,
        SurfaceTag::Torus => BoundaryKind::Torus,
        SurfaceTag::BSplineSurface => BoundaryKind::BSplineApprox,
        SurfaceTag::Unknown { .. } => BoundaryKind::Unknown,
    }
}

/// Whether the boundary function of a surface kind is exact.
pub open spec fn is_exact_spec(s: SurfaceTag) -> bool {
    !(s is BSplineSurface || s is Unknown)
}

/// The name of a boundary function kind.
pub open spec fn boundary_label_spec(k: BoundaryKind) -> Seq<char> {
    match k {
        BoundaryKind::Plane => "plane"@,
        BoundaryKind::Cylinder => "cylinder"@,
        BoundaryKind::Sphere => "sphere"@,
        BoundaryKind::Cone => "cone"@,
        BoundaryKind::Torus => "torus"@,
        BoundaryKind::BSplineApprox => "bspline_approx"@,
        BoundaryKind::Unknown => "unknown"@,
    }
}

/// The STEP type name of a surface kind.
pub fn surface_type_name(s: &SurfaceTag) -> (r: &str)
    ensures
        r@ == surface_name_spec(*s),
{
    match s {
        SurfaceTag::Plane => "PLANE",
        SurfaceTag::Cylinder => "CYLINDRICAL_SURFACE",
        SurfaceTag::Sphere => "SPHERICAL_SURFACE",
        SurfaceTag::Cone => "CONICAL_SURFACE",
        SurfaceTag::Torus => "TOROIDAL_SURFACE",
        SurfaceTag::BSplineSurface => "B_SPLINE_SURFACE",
        SurfaceTag::Unknown { entity_type } => entity_type.as_str(),
    }
}

/// The STEP type name of a curve kind.
pub fn curve_type_name(c: &CurveTag) -> (r: &str)
    ensures
        r@ == curve_name_spec(*c),
{
    match c {
        CurveTag::Line => "LINE",
        CurveTag::Circle => "CIRCLE",
        CurveTag::Ellipse => "ELLIPSE",
        CurveTag::BSplineCurve => "B_SPLINE_CURVE",
        CurveTag::Unknown { entity_type } => entity_type.as_str(),
    }
}

impl BoundaryKind {
    /// A human-readable name for the function kind.
    pub fn label(&self) -> (r: &'static str)
        ensures
            r@ == boundary_label_spec(*self),
    {
        match self {
            BoundaryKind::Plane => "plane",
            BoundaryKind::Cylinder => "cylinder",
            BoundaryKind::Sphere => "sphere",
            BoundaryKind::Cone => "cone",
            BoundaryKind::Torus => "torus",
            BoundaryKind::BSplineApprox => "bspline_approx",
            BoundaryKind::Unknown => "unknown",
        }
    }
}

/// The boundary function of a face's surface: its kind, whether it is exact,
/// and the surface's type name (the part of `boundary_fn_from_surface` that
/// does not depend on the surface's dimensions).
pub fn boundary_fn_kind(s: &SurfaceTag) -> (r: (BoundaryKind, bool, String))
    ensures
        r.0 == boundary_kind_spec(*s),
        r.1 == is_exact_spec(*s),
        r.2@ == surface_name_spec(*s),
{
    let name = surface_type_name(s).to_owned();
    match s {
        SurfaceTag::Plane => (BoundaryKind::Plane, true, name),
        SurfaceTag::Cylinder => (BoundaryKind::Cylinder, true, name),
        SurfaceTag::Sphere => (BoundaryKind::Sphere, true, name),
        SurfaceTag::Cone => (BoundaryKind::Cone, true, name),
        SurfaceTag::Torus => (BoundaryKind::Torus, true, name),
        SurfaceTag::BSplineSurface => (BoundaryKind::BSplineApprox, false, name),
        SurfaceTag::Unknown { .. } => (BoundaryKind::Unknown, false, name),
    }
}

/// The boundary function of a face is exact exactly for the analytic
/// surfaces: planes, cylinders, spheres, cones and tori.
pub proof fn exact_sdf_iff_analytic(s: SurfaceTag)
    ensures
        is_exact_spec(s) <==> !(boundary_kind_spec(s) == BoundaryKind::BSplineApprox
            || boundary_kind_spec(s) == BoundaryKind::Unknown),
{
}

/// Each surface is represented by the boundary function of its own shape:
/// a plane by a plane, a cylinder by a cylinder, a sphere by a sphere, a cone
/// by a cone and a torus by a torus; a spline surface by a spline
/// approximation, and any other surface by none. No two shapes share a kind.
pub proof fn boundary_function_has_the_surface_shape(s: SurfaceTag)
    ensures
        (s is Plane) <==> boundary_kind_spec(s) == BoundaryKind::Plane,
        (s is Cylinder) <==> boundary_kind_spec(s) == BoundaryKind::Cylinder,
        (s is Sphere) <==> boundary_kind_spec(s) == BoundaryKind::Sphere,
        (s is Cone) <==> boundary_kind_spec(s) == BoundaryKind::Cone,
        (s is Torus) <==> boundary_kind_spec(s) == BoundaryKind::Torus,
        (s is BSplineSurface) <==> boundary_kind_spec(s) == BoundaryKind::BSplineApprox,
        (s is Unknown) <==> boundary_kind_spec(s) == BoundaryKind::Unknown,
{
}

/// Distinct boundary function kinds have distinct names.
pub proof fn boundary_labels_are_distinct(a: BoundaryKind, b: BoundaryKind)
    requires
        boundary_label_spec(a) == boundary_label_spec(b),
    ensures
        a == b,
{
    reveal_strlit("plane");
    reveal_strlit("cylinder");
    reveal_strlit("sphere");
    reveal_strlit("cone");
    reveal_strlit("torus");
    reveal_strlit("bspline_approx");
    reveal_strlit("unknown");
    if a != b {
        let la = boundary_label_spec(a);
        let lb = boundary_label_spec(b);
        assert(la.len() != lb.len() || la[0] != lb[0] || la[1] != lb[1]);
    }
}

/// The surface kinds other than an unknown surface have distinct STEP names.
pub proof fn surface_names_are_distinct(a: SurfaceTag, b: SurfaceTag)
    requires
        !(a is Unknown),
        !(b is Unknown),
        surface_name_spec(a) == surface_name_spec(b),
    ensures
        a == b,
{
    reveal_strlit("PLANE");
    reveal_strlit("CYLINDRICAL_SURFACE");
    reveal_strlit("SPHERICAL_SURFACE");
    reveal_strlit("CONICAL_SURFACE");
    reveal_strlit("TOROIDAL_SURFACE");
    reveal_strlit("B_SPLINE_SURFACE");
    if a != b {
        let la = surface_name_spec(a);
        let lb = surface_name_spec(b);
        assert(la.len() != lb.len() || la[0] != lb[0]);
    }
}

/// The curve kinds other than an unknown curve have distinct STEP names.
pub proof fn curve_names_are_distinct(a: CurveTag, b: CurveTag)
    requires
        !(a is Unknown),
        !(b is Unknown),
        curve_name_spec(a) == curve_name_spec(b),
    ensures
        a == b,
{
    reveal_strlit("LINE");
    reveal_strlit("CIRCLE");
    reveal_strlit("ELLIPSE");
    reveal_strlit("B_SPLINE_CURVE");
    if a != b {
        let la = curve_name_spec(a);
        let lb = curve_name_spec(b);
        assert(la.len() != lb.len());
    }
}

} // verus!
