use infinite_db_step::parser::{
    arg_name, extract_balanced_args, is_lone_quote, parse_entity_line, parse_raw, parse_ref,
    parse_string, split_args, ResolveError,
};
use infinite_db_step::resolver::{
    model_pass, needs_synthetic_solid, CurveRefs, EntityResolver, ModelPass, PlacementRefs, SurfaceRefs,
};

const MINIMAL_STEP: &str = r#"ISO-10303-21;
HEADER;
FILE_DESCRIPTION(('Test'),'2;1');
FILE_NAME('test.stp','2024-01-01',(''),(''),'','','');
FILE_SCHEMA(('AUTOMOTIVE_DESIGN { 1 0 10303 214 1 1 1 1 }'));
ENDSEC;
DATA;
#1 = CARTESIAN_POINT('origin',(0.0,0.0,0.0));
#2 = CARTESIAN_POINT('x_unit',(1.0,0.0,0.0));
#3 = DIRECTION('z_axis',(0.0,0.0,1.0));
#4 = VERTEX_POINT('v1',#1);
#5 = VERTEX_POINT('v2',#2);
ENDSEC;
END-ISO-10303-21;"#;

const FACE_STEP: &str = r#"ISO-10303-21;
HEADER;
ENDSEC;
DATA;
#1 = CARTESIAN_POINT('',(0.0,0.0,0.0));
#2 = CARTESIAN_POINT('',(1.0,0.0,0.0));
#3 = VERTEX_POINT('',#1);
#4 = VERTEX_POINT('',#2);
#5 = EDGE_CURVE('e1',#3,#4,#6,.T.);
#6 = LINE('',#1,#7);
#7 = VECTOR('',#8,1.0);
#8 = DIRECTION('',(1.0,0.0,0.0));
#9 = ORIENTED_EDGE('',*,*,#5,.T.);
#10 = EDGE_LOOP('',(#9));
#11 = FACE_OUTER_BOUND('',#10,.T.);
#12 = ADVANCED_FACE('f1',(#11),#13,.F.);
#13 = PLANE('',#14);
#14 = AXIS2_PLACEMENT_3D('',#1,#8,#8);
#15 = CLOSED_SHELL('s1',(#12,#99));
#16 = MANIFOLD_SOLID_BREP('body',#15);
#17 = CYLINDRICAL_SURFACE('',#14,2.5);
#18 = B_SPLINE_SURFACE_WITH_KNOTS('',3,((#1,#2),(#1)),.UNSPECIFIED.);
#19 = CIRCLE('',#14,4.0);
#20 = UNKNOWN_THING('',#1);
ENDSEC;
END-ISO-10303-21;"#;

#[test]
fn split_args_handles_nested_parens() {
    let args = split_args("'name', (#1, #2), 5.0");
    assert_eq!(args.len(), 3);
    assert_eq!(args[0], "'name'");
}

#[test]
fn split_args_respects_strings_and_escaped_quotes() {
    let args = split_args("'a, b', 'it''s', #3");
    assert_eq!(args, vec!["'a, b'".to_string(), "'it's'".to_string(), "#3".to_string()]);
    assert!(split_args("").is_empty());
    assert_eq!(split_args("a,,b"), vec!["a".to_string(), "".to_string(), "b".to_string()]);
    assert_eq!(split_args("a, "), vec!["a".to_string()]);
}

#[test]
fn extract_balanced_args_stops_at_matching_paren() {
    assert_eq!(extract_balanced_args("'',(0.0,1.0));"), "'',(0.0,1.0)");
    assert_eq!(extract_balanced_args("no close"), "");
    assert_eq!(extract_balanced_args(")rest"), "");
}

#[test]
fn parse_string_strips_quotes() {
    assert_eq!(parse_string("  'v1' "), "v1");
    assert_eq!(parse_string("plain"), "plain");
    assert_eq!(parse_string("''"), "");
    assert!(is_lone_quote(" ' "));
    assert!(!is_lone_quote("''"));
    let args = split_args("'name', #2");
    assert_eq!(arg_name(&args, 0), "name");
    assert_eq!(arg_name(&args, 5), "");
}

#[test]
fn parse_ref_reads_references() {
    assert_eq!(parse_ref(" #42 "), Ok(42));
    assert_eq!(parse_ref("#+7"), Ok(7));
    assert_eq!(parse_ref("42"), Err(ResolveError::BadReference("42".to_string())));
    assert_eq!(parse_ref(" # "), Err(ResolveError::BadReference("#".to_string())));
    assert_eq!(
        parse_ref("#18446744073709551616"),
        Err(ResolveError::BadReference("#18446744073709551616".to_string()))
    );
    assert_eq!(parse_ref("#18446744073709551615"), Ok(u64::MAX));
    assert_eq!(parse_ref("$"), Err(ResolveError::BadReference("$".to_string())));
}

#[test]
fn reference_round_trip_on_values() {
    for n in [0u64, 7, 10, 12345, u64::MAX] {
        assert_eq!(parse_ref(&format!("#{}", n)), Ok(n));
    }
}

#[test]
fn parse_entity_line_reads_id_type_and_args() {
    let e = parse_entity_line("#12 = cartesian_point('',( 0.0,0.0,0.0));").unwrap();
    assert_eq!(e.id, 12);
    assert_eq!(e.entity_type, "CARTESIAN_POINT");
    assert_eq!(e.args, "'',( 0.0,0.0,0.0)");
    assert!(parse_entity_line("#x = FOO();").is_none());
    assert!(parse_entity_line("#1 FOO();").is_none());
    assert!(parse_entity_line("#1 = FOO;").is_none());
}

#[test]
fn parse_raw_reads_data_section() {
    let step = parse_raw(MINIMAL_STEP);
    assert_eq!(step.entities.len(), 5);
    assert_eq!(step.entities[&4].entity_type, "VERTEX_POINT");
    assert_eq!(step.entities[&4].args, "'v1',#1");
    let no_data = parse_raw("#1 = CARTESIAN_POINT('',(0.0,0.0,0.0));\n");
    assert!(no_data.entities.is_empty());
    let after_end = parse_raw("DATA;\nENDSEC;\n#1 = FOO();\n");
    assert!(after_end.entities.is_empty());
    let crlf = parse_raw("DATA;\r\n#1 = FOO(1);\r\n#1 = BAR(2);\r\nENDSEC;\r\n");
    assert_eq!(crlf.entities.len(), 1);
    assert_eq!(crlf.entities[&1].entity_type, "BAR");
}

fn generate_step_with_vertices(n: usize) -> String {
    let mut body = String::new();
    for i in 1..=n {
        body.push_str(&format!("#{} = CARTESIAN_POINT('',({}.0,0.0,0.0));\n", i, i));
        body.push_str(&format!("#{} = VERTEX_POINT('v{i}',#{i});\n", n + i, i = i));
    }
    format!("ISO-10303-21;\nHEADER;\nENDSEC;\nDATA;\n{body}ENDSEC;\nEND-ISO-10303-21;")
}

#[test]
fn parse_raw_ten_thousand_vertices() {
    const N: usize = 10_000;
    let step = parse_raw(&generate_step_with_vertices(N));
    assert_eq!(step.entities.len(), N * 2);
    let resolver = EntityResolver { entities: &step.entities };
    let v = resolver.vertex_refs((N + 7) as u64).unwrap();
    assert_eq!(v.name, "v7");
    assert_eq!(v.point_id, 7);
}

#[test]
fn vertices_resolve_to_points() {
    let step = parse_raw(MINIMAL_STEP);
    let r = EntityResolver { entities: &step.entities };
    let v1 = r.vertex_refs(4).unwrap();
    assert_eq!(v1.name, "v1");
    assert_eq!(v1.point_id, 1);
    assert_eq!(r.cartesian_point_coordinates(1).unwrap(), vec!["0.0", "0.0", "0.0"]);
    assert_eq!(r.direction_coordinates(3).unwrap(), vec!["0.0", "0.0", "1.0"]);
    assert_eq!(r.direction_coordinates(1).err(), Some(ResolveError::NotDirection(1)));
    assert_eq!(
        r.cartesian_point_coordinates(3).err(),
        Some(ResolveError::NotCartesianPoint(3, "DIRECTION".to_string()))
    );
    assert_eq!(r.vertex_refs(9).err(), Some(ResolveError::MissingEntity(9)));
    assert!(r.get(2).is_ok());
}

#[test]
fn shell_with_empty_args_resolves() {
    let step = parse_raw("DATA;\n#1 = CARTESIAN_POINT('',(0.0,0.0,0.0));\n#2 = OPEN_SHELL();\nENDSEC;\n");
    let r = EntityResolver { entities: &step.entities };
    assert!(r.name_is_safe(2, 0));
    let shell = r.shell_refs(2).unwrap();
    assert_eq!(shell.name, "");
    assert!(shell.face_ids.is_empty());
    assert!(!shell.is_closed);
}

#[test]
fn face_topology_chain_resolves() {
    let step = parse_raw(FACE_STEP);
    let r = EntityResolver { entities: &step.entities };
    assert_eq!(r.resolve_oriented_edge(9), Ok(5));
    assert_eq!(r.resolve_edge_loop(10), Ok(vec![5]));
    assert_eq!(r.resolve_face_bound(11), Ok(vec![5]));
    assert_eq!(r.resolve_face_bound(10).err(), Some(ResolveError::NotFaceBound));
    assert_eq!(r.resolve_edge_loop(11).err(), Some(ResolveError::NotEdgeLoop));
    assert_eq!(r.resolve_oriented_edge(10).err(), Some(ResolveError::NotOrientedEdge));
    let face = r.face_refs(12).unwrap();
    assert_eq!(face.name, "f1");
    assert_eq!(face.edge_ids, vec![5]);
    assert_eq!(face.surface_id, 13);
    assert!(!face.same_sense);
    let edge = r.edge_refs(5).unwrap();
    assert_eq!((edge.start_vertex_id, edge.end_vertex_id, edge.curve_id), (3, 4, 6));
    let shell = r.shell_refs(15).unwrap();
    assert_eq!(shell.face_ids, vec![12, 99]);
    assert!(shell.is_closed);
    let solid = r.solid_refs(16).unwrap();
    assert_eq!((solid.name.as_str(), solid.shell_id), ("body", 15));
    assert_eq!(r.vector_direction_id(7), Ok(8));
    assert_eq!(r.vector_direction_id(8), Ok(8));
    assert_eq!(r.vector_direction_id(1), Err(ResolveError::NotVectorOrDirection(1)));
}

#[test]
fn surfaces_and_curves_resolve() {
    let step = parse_raw(FACE_STEP);
    let r = EntityResolver { entities: &step.entities };
    assert!(matches!(r.surface_refs(13), Ok(SurfaceRefs::Plane { placement_id: 14 })));
    match r.surface_refs(17) {
        Ok(SurfaceRefs::Cylinder { placement_id, radius }) => {
            assert_eq!(placement_id, 14);
            assert_eq!(radius, "2.5");
        }
        _ => panic!("expected a cylinder"),
    }
    assert!(r.spline_args_ok(18, false));
    match r.surface_refs(18) {
        Ok(SurfaceRefs::BSpline { point_ids }) => assert_eq!(point_ids, vec![1]),
        _ => panic!("expected a spline surface"),
    }
    match r.surface_refs(20) {
        Ok(SurfaceRefs::Unknown { entity_type }) => assert_eq!(entity_type, "UNKNOWN_THING"),
        _ => panic!("expected an unknown surface"),
    }
    assert!(matches!(r.curve_refs(6), Ok(CurveRefs::Line { point_id: 1, vector_id: 7 })));
    match r.curve_refs(19) {
        Ok(CurveRefs::Circle { placement_id, radius }) => {
            assert_eq!(placement_id, 14);
            assert_eq!(radius, "4.0");
        }
        _ => panic!("expected a circle"),
    }
    match r.placement_refs(14) {
        Ok(PlacementRefs::Frame { location, axis, ref_dir }) => {
            assert_eq!((location, axis, ref_dir), (Some(1), Some(8), Some(8)));
        }
        _ => panic!("expected a frame"),
    }
    assert!(matches!(r.placement_refs(1), Ok(PlacementRefs::Identity)));
}

#[test]
fn spline_and_name_checks() {
    let step = parse_raw("DATA;\n#1 = B_SPLINE_CURVE();\n#2 = OPEN_SHELL(');\n#3 = VERTEX_POINT(');\nENDSEC;\n");
    let r = EntityResolver { entities: &step.entities };
    assert!(!r.spline_args_ok(1, true));
    assert!(!r.name_is_safe(2, 0));
    assert!(r.name_is_safe(3, 2));
    assert_eq!(r.vertex_refs(3).err(), Some(ResolveError::VertexArguments(3)));
}

#[test]
fn error_messages_match_the_reader() {
    assert_eq!(ResolveError::MissingEntity(5).message(), "missing entity #5");
    assert_eq!(ResolveError::VertexArguments(12).message(), "VERTEX_POINT #12 needs 2 args");
    assert_eq!(
        ResolveError::NotCartesianPoint(3, "DIRECTION".to_string()).message(),
        "expected CARTESIAN_POINT at #3, got DIRECTION"
    );
    assert_eq!(ResolveError::PointCoordinates.message(), "CARTESIAN_POINT needs coords");
    assert_eq!(ResolveError::NotDirection(7).message(), "expected DIRECTION at #7");
    assert_eq!(ResolveError::DirectionCoordinates.message(), "DIRECTION needs coords");
    assert_eq!(ResolveError::NotVectorOrDirection(0).message(), "expected VECTOR/DIRECTION at #0");
    assert_eq!(ResolveError::NotFaceBound.message(), "not a face bound");
    assert_eq!(ResolveError::NotEdgeLoop.message(), "not an EDGE_LOOP");
    assert_eq!(ResolveError::NotOrientedEdge.message(), "not ORIENTED_EDGE");
    assert_eq!(parse_ref(" $ ").unwrap_err().message(), "expected #ref, got \"$\"");
    assert_eq!(parse_ref("#").unwrap_err().message(), "bad ref \"#\": cannot parse integer from empty string");
    assert_eq!(parse_ref("#1x").unwrap_err().message(), "bad ref \"#1x\": invalid digit found in string");
    assert_eq!(
        parse_ref("#99999999999999999999").unwrap_err().message(),
        "bad ref \"#99999999999999999999\": number too large to fit in target type"
    );
}

#[test]
fn reference_messages_agree_with_integer_parsing() {
    for text in ["#", "#+", "#-", "#-5", "#+x", "#12a", "#99999999999999999999", "#99999999999999999999x", "#1 2", "#\"q\"", "x\ty", "#\u{7f}"] {
        let expected = match text.strip_prefix('#') {
            Some(rest) => format!("bad ref {:?}: {}", text, rest.parse::<u64>().unwrap_err()),
            None => format!("expected #ref, got {:?}", text),
        };
        assert_eq!(parse_ref(text).unwrap_err().message(), expected);
    }
}

#[test]
fn split_args_without_nesting_is_a_comma_split() {
    for text in ["a, b ,c", "a,,b", " x ", "a,b, ", "1.0,2.0,3.0", ",", ""] {
        let mut plain: Vec<String> = text.split(',').map(|p| p.trim().to_string()).collect();
        if plain.last().map(|p| p.is_empty()).unwrap_or(false) {
            plain.pop();
        }
        assert_eq!(split_args(text), plain);
    }
    assert_eq!(split_args("a, b ,c"), vec!["a", "b", "c"]);
    assert_eq!(split_args("a,,b"), vec!["a", "", "b"]);
    assert_eq!(split_args("a,b, "), vec!["a", "b"]);
}

#[test]
fn model_passes_by_entity_type() {
    assert_eq!(model_pass("VERTEX_POINT"), Some(ModelPass::Vertex));
    assert_eq!(model_pass("EDGE_CURVE"), Some(ModelPass::Edge));
    assert_eq!(model_pass("ADVANCED_FACE"), Some(ModelPass::Face));
    assert_eq!(model_pass("CLOSED_SHELL"), Some(ModelPass::Shell));
    assert_eq!(model_pass("OPEN_SHELL"), Some(ModelPass::Shell));
    assert_eq!(model_pass("SHELL_BASED_SURFACE_MODEL"), Some(ModelPass::Shell));
    assert_eq!(model_pass("MANIFOLD_SOLID_BREP"), Some(ModelPass::Solid));
    assert_eq!(model_pass("CARTESIAN_POINT"), None);
    assert_eq!(model_pass("vertex_point"), None);
    assert!(needs_synthetic_solid(0, 2));
    assert!(!needs_synthetic_solid(0, 0));
    assert!(!needs_synthetic_solid(1, 2));
}
