use model_loader::geometry::{
    has_short_indices, parse, scan_next, Element, Geometry, IndexScan, LineState, Object,
    VTNTriple, Vector2, Vector3, INDEX_DIGITS,
};
use model_loader::loader::{load_mesh_vertices, vertex_from_triple};
use model_loader::model::Vertex;
use model_loader::text::ParseError;

fn v3(x: f64, y: f64, z: f64) -> Vector3 {
    Vector3 { x: x.to_bits(), y: y.to_bits(), z: z.to_bits() }
}

fn v2(x: f64, y: f64) -> Vector2 {
    Vector2 { x: x.to_bits(), y: y.to_bits() }
}

fn sample_object(elements: Vec<Element>) -> Object {
    Object {
        name: String::from("sample"),
        vertex_set: vec![v3(0.0, 0.0, 0.0), v3(1.0, 0.0, 0.0), v3(0.0, 1.0, 0.0), v3(1.0, 1.0, 0.0)],
        texture_vertex_set: vec![v2(0.0, 0.0), v2(1.0, 0.0), v2(0.0, 1.0)],
        normal_vertex_set: vec![v3(0.0, 0.0, 1.0), v3(0.0, 0.0, -1.0)],
        geometry_set: vec![Geometry { material_name: Some(String::from("Brick")), elements }],
    }
}

#[test]
fn zero_vectors_are_the_number_zero() {
    assert_eq!(Vector3::zero(), v3(0.0, 0.0, 0.0));
    assert_eq!(Vector2::zero(), v2(0.0, 0.0));
    assert_eq!(f64::from_bits(Vector3::zero().x), 0.0);
}

#[test]
fn triple_has_the_shape_of_its_indices() {
    let object = sample_object(vec![]);
    assert_eq!(object.get_vtn_triple((1, None, None)), Some(VTNTriple::V(v3(1.0, 0.0, 0.0))));
    assert_eq!(
        object.get_vtn_triple((2, Some(1), None)),
        Some(VTNTriple::VT(v3(0.0, 1.0, 0.0), v2(1.0, 0.0)))
    );
    assert_eq!(
        object.get_vtn_triple((3, None, Some(1))),
        Some(VTNTriple::VN(v3(1.0, 1.0, 0.0), v3(0.0, 0.0, -1.0)))
    );
    assert_eq!(
        object.get_vtn_triple((0, Some(2), Some(0))),
        Some(VTNTriple::VTN(v3(0.0, 0.0, 0.0), v2(0.0, 1.0), v3(0.0, 0.0, 1.0)))
    );
}

#[test]
fn triple_of_an_index_out_of_range_is_none() {
    let object = sample_object(vec![]);
    assert_eq!(object.get_vtn_triple((4, None, None)), None);
    assert_eq!(object.get_vtn_triple((0, Some(3), None)), None);
    assert_eq!(object.get_vtn_triple((0, None, Some(2))), None);
    assert_eq!(object.get_vtn_triple((0, Some(0), Some(2))), None);
    assert!(object.index_in_range((3, Some(2), Some(1))));
    assert!(!object.index_in_range((usize::MAX, None, None)));
}

#[test]
fn well_formedness_looks_at_every_corner() {
    let good = sample_object(vec![
        Element::Point((0, None, None)),
        Element::Line((0, None, None), (1, None, None)),
        Element::Face((0, Some(0), Some(0)), (1, Some(1), Some(0)), (2, Some(2), Some(1))),
    ]);
    assert!(good.is_well_formed());
    let bad_third = sample_object(vec![
        Element::Face((0, None, None), (1, None, None), (4, None, None)),
    ]);
    assert!(!bad_third.is_well_formed());
    let bad_line = sample_object(vec![Element::Line((0, None, None), (0, Some(9), None))]);
    assert!(!bad_line.is_well_formed());
    assert!(!bad_line.element_in_range(&Element::Point((0, None, Some(2)))));
    assert!(sample_object(vec![]).is_well_formed());
}

#[test]
fn vertex_takes_zero_for_what_a_triple_lacks() {
    let p = v3(1.0, 2.0, 3.0);
    let t = v2(0.25, 0.75);
    let n = v3(0.0, 1.0, 0.0);
    let zero3 = Vector3::zero();
    let zero2 = Vector2::zero();
    assert_eq!(
        vertex_from_triple(VTNTriple::V(p)),
        Vertex { position: p, normal: zero3, tex_coords: zero2, tangent: zero3, bitangent: zero3 }
    );
    assert_eq!(
        vertex_from_triple(VTNTriple::VT(p, t)),
        Vertex { position: p, normal: zero3, tex_coords: t, tangent: zero3, bitangent: zero3 }
    );
    assert_eq!(
        vertex_from_triple(VTNTriple::VN(p, n)),
        Vertex { position: p, normal: n, tex_coords: zero2, tangent: zero3, bitangent: zero3 }
    );
    assert_eq!(
        vertex_from_triple(VTNTriple::VTN(p, t, n)),
        Vertex { position: p, normal: n, tex_coords: t, tangent: zero3, bitangent: zero3 }
    );
}

#[test]
fn faces_expand_to_three_vertices_each() {
    let object = sample_object(vec![
        Element::Face((0, None, None), (1, None, None), (2, None, None)),
        Element::Point((3, None, None)),
        Element::Face((1, Some(0), Some(1)), (3, Some(1), Some(1)), (2, Some(2), Some(1))),
        Element::Line((0, None, None), (3, None, None)),
    ]);
    let vertices = load_mesh_vertices(&object);
    assert_eq!(vertices.len(), 6);
    let positions: Vec<Vector3> = vertices.iter().map(|v| v.position).collect();
    assert_eq!(
        positions,
        vec![
            v3(0.0, 0.0, 0.0),
            v3(1.0, 0.0, 0.0),
            v3(0.0, 1.0, 0.0),
            v3(1.0, 0.0, 0.0),
            v3(1.0, 1.0, 0.0),
            v3(0.0, 1.0, 0.0),
        ]
    );
    assert_eq!(vertices[0].normal, Vector3::zero());
    assert_eq!(vertices[0].tex_coords, Vector2::zero());
    assert_eq!(vertices[3].normal, v3(0.0, 0.0, -1.0));
    assert_eq!(vertices[4].tex_coords, v2(1.0, 0.0));
    for vertex in vertices.iter() {
        assert_eq!(vertex.tangent, Vector3::zero());
        assert_eq!(vertex.bitangent, Vector3::zero());
    }
}

#[test]
fn an_object_without_faces_expands_to_nothing() {
    let object = sample_object(vec![Element::Point((0, None, None))]);
    assert!(load_mesh_vertices(&object).is_empty());
    let mut empty = sample_object(vec![]);
    empty.geometry_set.clear();
    assert!(load_mesh_vertices(&empty).is_empty());
}

#[test]
fn expansion_walks_every_geometry_group() {
    let mut object = sample_object(vec![
        Element::Face((0, None, None), (1, None, None), (2, None, None)),
    ]);
    object.geometry_set.push(Geometry {
        material_name: None,
        elements: vec![Element::Face((3, None, None), (2, None, None), (1, None, None))],
    });
    let vertices = load_mesh_vertices(&object);
    assert_eq!(vertices.len(), 6);
    assert_eq!(vertices[3].position, v3(1.0, 1.0, 0.0));
    assert_eq!(vertices[5].position, v3(1.0, 0.0, 0.0));
}

#[test]
fn parse_reads_tables_groups_and_library() {
    let text = "mtllib scene.mtl\n\
                o First\n\
                v 0.0 0.0 0.0\n\
                v 1.5 0.0 0.0\n\
                v 0.0 -2.0 0.0\n\
                vt 0.0 0.0\n\
                vt 1.0 0.5\n\
                vn 0.0 0.0 1.0\n\
                usemtl Brick\n\
                f 1/1/1 2/2/1 3/1/1\n";
    let set = parse(text).unwrap();
    assert_eq!(set.material_libraries, vec!["scene.mtl"]);
    assert_eq!(set.objects.len(), 1);
    let object = &set.objects[0];
    assert_eq!(object.name, "First");
    assert_eq!(
        object.vertex_set,
        vec![v3(0.0, 0.0, 0.0), v3(1.5, 0.0, 0.0), v3(0.0, -2.0, 0.0)]
    );
    assert_eq!(object.texture_vertex_set, vec![v2(0.0, 0.0), v2(1.0, 0.5)]);
    assert_eq!(object.normal_vertex_set, vec![v3(0.0, 0.0, 1.0)]);
    assert_eq!(object.geometry_set.len(), 1);
    assert_eq!(object.geometry_set[0].material_name.as_deref(), Some("Brick"));
    assert_eq!(
        object.geometry_set[0].elements,
        vec![Element::Face((2, Some(0), Some(0)), (0, Some(0), Some(0)), (1, Some(1), Some(0)))]
    );
    assert!(object.is_well_formed());
}

#[test]
fn parse_without_a_library_declares_none() {
    let set = parse("o Lone\nv 0 0 0\nv 1 0 0\nv 0 1 0\nf 1 2 3\n").unwrap();
    assert!(set.material_libraries.is_empty());
    assert_eq!(set.objects[0].geometry_set[0].material_name, None);
    assert_eq!(
        set.objects[0].geometry_set[0].elements,
        vec![Element::Face((2, None, None), (0, None, None), (1, None, None))]
    );
}

#[test]
fn parse_keeps_points_and_lines() {
    let set = parse("o Mixed\nv 0 0 0\nv 1 0 0\nv 0 1 0\nf 1\nl 1 2\nf 1 2 3\n").unwrap();
    assert_eq!(
        set.objects[0].geometry_set[0].elements,
        vec![
            Element::Point((0, None, None)),
            Element::Line((0, None, None), (1, None, None)),
            Element::Face((2, None, None), (0, None, None), (1, None, None)),
        ]
    );
}

#[test]
fn parse_splits_a_quad_into_two_faces() {
    let set = parse("o Quad\nv 0 0 0\nv 1 0 0\nv 1 1 0\nv 0 1 0\nf 1 2 3 4\n").unwrap();
    assert_eq!(set.objects[0].geometry_set[0].elements.len(), 2);
    assert_eq!(load_mesh_vertices(&set.objects[0]).len(), 6);
}

#[test]
fn parse_reports_the_line_of_an_error() {
    let error = parse("o Broken\nv 0 0 0\nv 1 0 zero\n").unwrap_err();
    assert_eq!(error, ParseError { line: Some(3) });
}

#[test]
fn parse_refuses_an_index_out_of_range() {
    assert!(parse("o Broken\nv 0 0 0\nv 1 0 0\nv 0 1 0\nf 1 2 7\n").is_err());
}

#[test]
fn parse_of_an_empty_text_is_an_empty_set() {
    let set = parse("").unwrap();
    assert!(set.objects.is_empty());
    assert!(set.material_libraries.is_empty());
}

#[test]
fn faces_in_range_looks_at_faces_only() {
    let stray_point = sample_object(vec![
        Element::Point((9, None, None)),
        Element::Line((0, None, None), (0, Some(9), None)),
        Element::Face((0, None, None), (1, None, None), (2, None, None)),
    ]);
    assert!(!stray_point.is_well_formed());
    assert!(stray_point.has_faces_in_range());
    assert_eq!(load_mesh_vertices(&stray_point).len(), 3);
    let stray_face = sample_object(vec![
        Element::Face((0, None, None), (1, None, Some(2)), (2, None, None)),
    ]);
    assert!(!stray_face.has_faces_in_range());
    assert!(sample_object(vec![]).has_faces_in_range());
}

#[test]
fn scan_counts_digits_after_a_minus_on_face_lines() {
    assert_eq!(INDEX_DIGITS, 9);
    assert!(has_short_indices(""));
    assert!(has_short_indices("f 1 2 3\n"));
    assert!(has_short_indices("f -1 -2 -3\n"));
    assert!(has_short_indices("f -123456789/-123456789 2 3\n"));
    assert!(!has_short_indices("f -1234567890 2 3\n"));
    assert!(!has_short_indices("f 1 2 -9223372036854775808"));
    assert!(!has_short_indices("  \tl 1//-9223372036854775808 2\n"));
    assert!(!has_short_indices("v 0 0 0\r\nf 1/-2147483648 2 3\r\n"));
    assert!(!has_short_indices("f 1 2 3\nf 1 2 -0000000001\n"));
}

#[test]
fn scan_leaves_other_lines_alone() {
    assert!(has_short_indices("v -12345678901 0 0\n"));
    assert!(has_short_indices("# f -12345678901\n"));
    assert!(has_short_indices("f 1 2 3 # -12345678901\n"));
    assert!(has_short_indices("fl -12345678901\n"));
    assert!(has_short_indices("g f -12345678901\n"));
    assert!(has_short_indices("f 12345678901234567890 2 3\n"));
    assert!(has_short_indices("f -12345 67890123456\n"));
}

#[test]
fn scan_steps_through_the_states_of_a_line() {
    let start = IndexScan { line: LineState::Blank, digits: None, refused: false };
    let letter = scan_next(start, b'f');
    assert_eq!(letter.line, LineState::Letter);
    let face = scan_next(letter, b' ');
    assert_eq!(face.line, LineState::Face);
    let minus = scan_next(face, b'-');
    assert_eq!(minus.digits, Some(0));
    let digit = scan_next(minus, b'7');
    assert_eq!(digit.digits, Some(1));
    assert_eq!(scan_next(digit, b'/').digits, None);
    assert_eq!(scan_next(face, b'#').line, LineState::Other);
    assert_eq!(scan_next(start, b'v').line, LineState::Other);
    assert_eq!(scan_next(letter, b'x').line, LineState::Other);
    let full = IndexScan { line: LineState::Face, digits: Some(9), refused: false };
    assert!(scan_next(full, b'0').refused);
    let refused = scan_next(scan_next(full, b'0'), b'\n');
    assert_eq!(refused, IndexScan { line: LineState::Blank, digits: None, refused: true });
}

#[test]
fn parse_refuses_an_overlong_negative_index() {
    let text = "o Broken\nv 0 0 0\nv 1 0 0\nv 0 1 0\nf 1 2 -9223372036854775808\n";
    assert_eq!(parse(text).unwrap_err(), ParseError { line: None });
    let short = "o Broken\nv 0 0 0\nv 1 0 0\nv 0 1 0\nf 1 2 -1\n";
    assert_eq!(parse(short).unwrap_err(), ParseError { line: Some(5) });
}
