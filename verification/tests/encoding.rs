use infinite_db_step::cli::{parse_cli, CliCommand, CliError};
use infinite_db_step::emitter::tally_labels;
use infinite_db_step::encoder::{
    encode_topology, key3_of, key6_of, space_registrations, vertex_coords_for, EdgeKey, FaceKey,
    ShellKey, SolidKey, TopologyModel, VertexKey,
};
use infinite_db_step::kinds::{boundary_fn_kind, curve_type_name, surface_type_name, BoundaryKind, CurveTag, SurfaceTag};
use infinite_db_step::spaces::{dims, ids, quantize_bits};
use infinite_db_step::store::{
    flush_order, hyperedge_log_wanted, hyperedge_storage_coords, is_bulk_write,
    is_duplicate_space_error, progress_milestone, record_log_kind, RecordLog, WriteOptions,
};
use infinite_db_step::text::{chars_of, lines_of, trim_chars, u64_to_decimal};

#[test]
fn quantize_bits_reduces_precision() {
    let full = u32::MAX;
    let q8 = quantize_bits(full, 8);
    assert_eq!(q8 & 0x00FF_FFFF, 0);
}

#[test]
fn quantize_bits_clamps_and_orders() {
    assert_eq!(quantize_bits(0x1234_5678, 32), 0x1234_5678);
    assert_eq!(quantize_bits(0x1234_5678, 40), 0x1234_5678);
    assert_eq!(quantize_bits(0xFFFF_FFFF, 0), 0x8000_0000);
    assert_eq!(quantize_bits(0xFFFF_FFFF, 1), 0x8000_0000);
    assert_eq!(quantize_bits(0x1234_5678, 8), 0x1200_0000);
    assert_eq!(quantize_bits(quantize_bits(0x1234_5678, 12), 12), quantize_bits(0x1234_5678, 12));
    assert!(quantize_bits(0x1000_0000, 4) <= quantize_bits(0x1FFF_FFFF, 4));
}

fn sample_model() -> TopologyModel {
    TopologyModel {
        vertices: vec![
            VertexKey { id: 1, position: [0x8000_0000, 0, u32::MAX] },
            VertexKey { id: 2, position: [1, 2, 3] },
        ],
        edges: vec![
            EdgeKey { id: 10, start_vertex_id: 1, end_vertex_id: 2, midpoint: [0x4000_0000, 0, 0], length_milli: 1500 },
            EdgeKey { id: 11, start_vertex_id: 2, end_vertex_id: 9, midpoint: [0, 0x4000_0000, 0], length_milli: 20 },
        ],
        faces: vec![
            FaceKey {
                id: 20,
                edge_loop: vec![10, 11],
                centroid: [0x0100_0000, 0, 0],
                normal: [u32::MAX, 0, 0],
                area_milli: 7,
                surface: SurfaceTag::Plane,
            },
            FaceKey {
                id: 21,
                edge_loop: vec![10, 99],
                centroid: [0x0200_0000, 0, 0],
                normal: [0, 0, 0],
                area_milli: 0,
                surface: SurfaceTag::BSplineSurface,
            },
        ],
        shells: vec![ShellKey { id: 30, face_ids: vec![20, 21, 77], centroid: [0, 0, 0x0300_0000] }],
        solids: vec![SolidKey { id: 40, shell_ids: vec![30], centroid: [5, 5, 5] }],
    }
}

#[test]
fn encode_topology_builds_records_and_hyperedges() {
    let model = sample_model();
    let t = encode_topology(&model, 8).unwrap();
    assert_eq!(t.spaces.len(), 7);
    assert_eq!(t.records.len(), 2 + 2 + 2 + 1 + 1);
    assert_eq!(t.records[0].entity_type, "vertex");
    assert_eq!(t.records[0].address.space_id, ids::VERTICES);
    assert_eq!(t.records[0].address.coords, vec![0x8000_0000, 0, 0xFF00_0000]);
    assert_eq!(t.records[7].entity_type, "solid");
    assert_eq!(t.boundary_fns.len(), 2);
    assert_eq!(t.boundary_fns[0].entity_type, "boundary_fn::plane");
    assert_eq!(t.boundary_fns[1].entity_type, "boundary_fn::bspline_approx");
    assert_eq!(t.boundary_fns[0].address.coords, vec![0x0100_0000, 0, 0, 0xFF00_0000, 0, 0]);

    let kinds: Vec<&str> = t.hyperedges.iter().map(|h| h.kind.as_str()).collect();
    assert_eq!(
        kinds,
        vec![
            "edge.has_start_vertex",
            "edge.has_end_vertex",
            "edge.has_start_vertex",
            "edge.has_end_vertex",
            "face.has_boundary_fn",
            "face.has_boundary_edge",
            "face.has_boundary_edge",
            "face.has_boundary_fn",
            "face.has_boundary_edge",
            "face.is_adjacent_to_face",
            "shell.contains_face",
            "shell.contains_face",
            "solid.contains_shell",
        ]
    );
    for (i, h) in t.hyperedges.iter().enumerate() {
        assert_eq!(h.id, 100_001 + i as u64);
        assert_eq!(h.endpoints.len(), 2);
    }
    assert_eq!(t.hyperedges[0].weight_milli, Some(1500));
    assert_eq!(t.hyperedges[1].weight_milli, None);
    assert_eq!(t.hyperedges[3].endpoints[1].coords, vec![0, 0, 0]);
    assert_eq!(t.hyperedges[4].weight_milli, Some(7));
    assert_eq!(
        t.hyperedges[4].metadata,
        vec![
            ("surface_type".to_string(), "PLANE".to_string()),
            ("is_exact_sdf".to_string(), "true".to_string()),
        ]
    );
    assert_eq!(t.hyperedges[7].metadata[1].1, "false");
    let adj = &t.hyperedges[9];
    assert_eq!(adj.metadata, vec![("shared_edge_id".to_string(), "10".to_string())]);
    assert_eq!(adj.endpoints[0].role, "face_a");
    assert_eq!(adj.endpoints[0].coords, vec![0x0100_0000, 0, 0]);
    assert_eq!(adj.endpoints[1].coords, vec![0x0200_0000, 0, 0]);
}

#[test]
fn encode_empty_model() {
    let model = TopologyModel { vertices: vec![], edges: vec![], faces: vec![], shells: vec![], solids: vec![] };
    let t = encode_topology(&model, 8).unwrap();
    assert!(t.records.is_empty());
    assert!(t.hyperedges.is_empty());
    assert_eq!(t.spaces.len(), 7);
}

#[test]
fn coordinates_and_lookups() {
    let model = sample_model();
    assert_eq!(vertex_coords_for(&model, 1, 8), vec![0x8000_0000, 0, 0xFF00_0000]);
    assert_eq!(vertex_coords_for(&model, 5, 8), vec![0, 0, 0]);
    assert_eq!(key3_of(&[u32::MAX, 0x00FF_FFFF, 0x0100_0000], 8), vec![0xFF00_0000, 0, 0x0100_0000]);
    assert_eq!(key6_of(&[1, 2, 3], &[u32::MAX, u32::MAX, u32::MAX], 32), vec![1, 2, 3, u32::MAX, u32::MAX, u32::MAX]);
}

#[test]
fn space_registry_matches_space_ids() {
    let spaces = space_registrations();
    let ids_seen: Vec<u64> = spaces.iter().map(|s| s.id).collect();
    assert_eq!(ids_seen, vec![ids::SOLIDS, ids::SHELLS, ids::FACES, ids::EDGES, ids::VERTICES, ids::BOUNDARY_FN, ids::TOPOLOGY]);
    assert_eq!(spaces[5].dims, dims::BOUNDARY_6D);
    assert_eq!(spaces[6].name, "topology_edges");
    assert_eq!(flush_order(), ids_seen);
}

#[test]
fn kinds_have_step_names() {
    assert_eq!(surface_type_name(&SurfaceTag::Cylinder), "CYLINDRICAL_SURFACE");
    assert_eq!(surface_type_name(&SurfaceTag::Unknown { entity_type: "FOO".to_string() }), "FOO");
    assert_eq!(curve_type_name(&CurveTag::BSplineCurve), "B_SPLINE_CURVE");
    assert_eq!(curve_type_name(&CurveTag::Unknown { entity_type: "BAR".to_string() }), "BAR");
    let (kind, exact, name) = boundary_fn_kind(&SurfaceTag::Torus);
    assert_eq!((kind, exact, name.as_str()), (BoundaryKind::Torus, true, "TOROIDAL_SURFACE"));
    let (kind, exact, _) = boundary_fn_kind(&SurfaceTag::Unknown { entity_type: "X".to_string() });
    assert_eq!((kind, exact), (BoundaryKind::Unknown, false));
    assert_eq!(BoundaryKind::BSplineApprox.label(), "bspline_approx");
}

#[test]
fn tally_counts_labels_in_first_appearance_order() {
    let labels: Vec<String> = ["face", "edge", "face", "vertex", "face"].iter().map(|s| s.to_string()).collect();
    let t = tally_labels(&labels);
    assert_eq!(t, vec![("face".to_string(), 3), ("edge".to_string(), 1), ("vertex".to_string(), 1)]);
    assert!(tally_labels(&vec![]).is_empty());
}

#[test]
fn store_decisions() {
    assert!(is_duplicate_space_error("Duplicate space id 3"));
    assert!(!is_duplicate_space_error("io error"));
    assert!(!is_bulk_write(99));
    assert!(is_bulk_write(100));
    assert!(progress_milestone(1, 1000));
    assert!(progress_milestone(250, 1000));
    assert!(progress_milestone(1000, 1000));
    assert!(!progress_milestone(251, 1000));
    assert_eq!(hyperedge_storage_coords(100_001), vec![0, 100_001]);
    assert_eq!(hyperedge_storage_coords((7u64 << 32) | 9), vec![7, 9]);
    assert_eq!(record_log_kind("face", false), RecordLog::Face);
    assert_eq!(record_log_kind("boundary_fn::plane", false), RecordLog::BoundaryFn);
    assert_eq!(record_log_kind("edge", true), RecordLog::Other);
    assert_eq!(record_log_kind("edge", false), RecordLog::Silent);
    assert!(!WriteOptions::default().verbose);
    let t = encode_topology(&sample_model(), 8).unwrap();
    assert!(!hyperedge_log_wanted(&t.hyperedges[0], false));
    assert!(hyperedge_log_wanted(&t.hyperedges[0], true));
    assert!(hyperedge_log_wanted(&t.hyperedges[4], false));
    assert!(hyperedge_log_wanted(&t.hyperedges[10], false));
    assert!(!hyperedge_log_wanted(&t.hyperedges[12], false));
}

fn args(v: &[&str]) -> Vec<String> {
    v.iter().map(|s| s.to_string()).collect()
}

#[test]
fn command_line_is_read() {
    match parse_cli(&args(&["model.step", "db", "--json", "dump.json", "-v"])) {
        Ok(CliCommand::Import { step_path, db_dir, json_path, verbose }) => {
            assert_eq!(step_path, "model.step");
            assert_eq!(db_dir, "db");
            assert_eq!(json_path.as_deref(), Some("dump.json"));
            assert!(verbose);
        }
        _ => panic!("expected an import"),
    }
    assert!(matches!(parse_cli(&args(&[])), Err(CliError::MissingStepPath)));
    assert!(matches!(parse_cli(&args(&["a", "--help"])), Ok(CliCommand::Help)));
    assert!(matches!(parse_cli(&args(&["a", "b", "--json"])), Err(CliError::JsonNeedsPath)));
    assert!(matches!(parse_cli(&args(&["a"])), Err(CliError::MissingDbDir)));
    assert!(matches!(parse_cli(&args(&["--verbose"])), Err(CliError::MissingStepPath)));
    match parse_cli(&args(&["a", "b", "--fast"])) {
        Err(CliError::UnknownArgument(a)) => assert_eq!(a, "--fast"),
        _ => panic!("expected an unknown argument"),
    }
}

#[test]
fn text_helpers() {
    assert_eq!(u64_to_decimal(0), vec!['0']);
    assert_eq!(u64_to_decimal(1230), vec!['1', '2', '3', '0']);
    let text = chars_of("a\r\n\nb\r");
    let lines = lines_of(&text);
    assert_eq!(lines, vec![vec!['a'], vec![], vec!['b', '\r']]);
    let padded = chars_of("\u{3000} x \t");
    assert_eq!(trim_chars(&padded), &['x']);
}
