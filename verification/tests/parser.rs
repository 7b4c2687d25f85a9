use rend_ox::mesh::MeshGeometry;
use rend_ox::obj_parser::parse_usize;

fn bits(v: f32) -> u32 {
    v.to_bits()
}

fn vec_bits(x: f32, y: f32, z: f32) -> [u32; 3] {
    [x.to_bits(), y.to_bits(), z.to_bits()]
}

/// The computed face normal of a triangle, as the engine defines it:
/// normalize(cross(a - b, a - c)).
fn face_normal(a: [f32; 3], b: [f32; 3], c: [f32; 3]) -> [u32; 3] {
    let va = glam::Vec3A::from_array(a);
    let vb = glam::Vec3A::from_array(b);
    let vc = glam::Vec3A::from_array(c);
    let n = (va - vb).cross(va - vc).normalize().to_array();
    [n[0].to_bits(), n[1].to_bits(), n[2].to_bits()]
}

#[test]
fn unit_square_end_to_end() {
    // A unit square: 4 positions, 4 uvs, no normals, one 4-corner face.
    let src = b"v 0 0 0\nv 1 0 0\nv 1 1 0\nv 0 1 0\n\
                vt 0 0 0\nvt 1 0 0\nvt 1 1 0\nvt 0 1 0\n\
                f 1/1 2/2 3/3 4/4\n";
    let g = MeshGeometry::from_obj("square.obj", src).unwrap();
    // Two triangles, six corner references, four unique vertices.
    assert_eq!(g.faces, vec![0u16, 1, 2, 0, 2, 3]);
    assert_eq!(g.vertices.len(), 4);
    assert_eq!(g.uvs.len(), 4);
    assert_eq!(g.normals.len(), 4);
    assert_eq!(g.vertices[0], vec_bits(0.0, 0.0, 0.0));
    assert_eq!(g.vertices[1], vec_bits(1.0, 0.0, 0.0));
    assert_eq!(g.vertices[2], vec_bits(1.0, 1.0, 0.0));
    assert_eq!(g.vertices[3], vec_bits(0.0, 1.0, 0.0));
    assert_eq!(g.uvs[2], vec_bits(1.0, 1.0, 0.0));
    // Every emitted normal is the computed face normal of the plane.
    let n1 = face_normal([0.0, 0.0, 0.0], [1.0, 0.0, 0.0], [1.0, 1.0, 0.0]);
    let n2 = face_normal([0.0, 0.0, 0.0], [1.0, 1.0, 0.0], [0.0, 1.0, 0.0]);
    assert_eq!(n1, n2);
    assert_eq!(g.normals[0], n1);
    assert_eq!(g.normals[1], n1);
    assert_eq!(g.normals[2], n1);
    assert_eq!(g.normals[3], n1);
    assert_eq!(g.path, "square.obj");
}

#[test]
fn triangle_counts() {
    // A face with 3 corners yields 1 triangle (3 indices); 4 corners
    // yield 2 triangles (6 indices).
    let tri = b"v 0 0 0\nv 1 0 0\nv 0 1 0\nf 1 2 3\n";
    let g = MeshGeometry::from_obj("t", tri).unwrap();
    assert_eq!(g.faces.len(), 3);
    let quad = b"v 0 0 0\nv 1 0 0\nv 1 1 0\nv 0 1 0\nf 1 2 3 4\n";
    let g = MeshGeometry::from_obj("q", quad).unwrap();
    assert_eq!(g.faces.len(), 6);
}

#[test]
fn out_of_range_face_index_fails() {
    // Position index 5 with only 4 positions declared: a parse error.
    let src = b"v 0 0 0\nv 1 0 0\nv 1 1 0\nv 0 1 0\nf 1 2 5\n";
    let r = MeshGeometry::from_obj("bad", src);
    assert!(r.is_err());
    let msg = r.err().unwrap();
    assert!(msg.message().contains("f 1 2 5"));
}

#[test]
fn zero_and_negative_indices_fail() {
    let zero = b"v 0 0 0\nv 1 0 0\nv 0 1 0\nf 0 1 2\n";
    assert!(MeshGeometry::from_obj("z", zero).is_err());
    let neg = b"v 0 0 0\nv 1 0 0\nv 0 1 0\nf -1 1 2\n";
    assert!(MeshGeometry::from_obj("n", neg).is_err());
}

#[test]
fn malformed_component_fails() {
    let src = b"v 0 zero 0\n";
    assert!(MeshGeometry::from_obj("m", src).is_err());
}

#[test]
fn unknown_keyword_fails() {
    let src = b"v 0 0 0\ncurve 1 2 3\n";
    assert!(MeshGeometry::from_obj("u", src).is_err());
}

#[test]
fn comments_blanks_and_metadata_are_ignored() {
    let src = b"# a comment\n\n   \no cube\ns off\nusemtl stone\nmtllib scene.mtl\n\
                v 0 0 0\nv 1 0 0\nv 0 1 0\nf 1 2 3\n";
    let g = MeshGeometry::from_obj("c", src).unwrap();
    assert_eq!(g.vertices.len(), 3);
    assert_eq!(g.faces.len(), 3);
}

#[test]
fn missing_trailing_components_default_to_zero() {
    let src = b"v 1.5\nvt 0.25 0.75\nv 2 3 4\nv 0 0 0\nf 1/1 2/1 3/1\n";
    let g = MeshGeometry::from_obj("d", src).unwrap();
    assert_eq!(g.vertices[0], [bits(1.5), 0, 0]);
    assert_eq!(g.uvs[0], [bits(0.25), bits(0.75), 0]);
}

#[test]
fn parsed_scalars_carry_exact_bit_patterns() {
    let src = b"v 1.5 -2.25 3e2\nv 0 0 0\nv 0 0 0\nf 1 2 3\n";
    let g = MeshGeometry::from_obj("s", src).unwrap();
    assert_eq!(g.vertices[0], [bits(1.5), bits(-2.25), bits(300.0)]);
}

#[test]
fn vn_lines_are_normalized() {
    let src = b"vn 0 0 10\nv 0 0 0\nv 1 0 0\nv 0 1 0\nf 1//1 2//1 3//1\n";
    let g = MeshGeometry::from_obj("vn", src).unwrap();
    assert_eq!(g.normals[0], vec_bits(0.0, 0.0, 1.0));
}

#[test]
fn corner_segment_forms() {
    // p, p/t, p//n and p/t/n corners all parse.
    let src = b"v 0 0 0\nv 1 0 0\nv 0 1 0\nvt 0 0 0\nvn 0 0 1\n\
                f 1 2 3\nf 1/1 2/1 3/1\nf 1//1 2//1 3//1\nf 1/1/1 2/1/1 3/1/1\n";
    let g = MeshGeometry::from_obj("forms", src).unwrap();
    assert_eq!(g.faces.len(), 12);
}

#[test]
fn face_with_wrong_corner_count_fails() {
    let two = b"v 0 0 0\nv 1 0 0\nf 1 2\n";
    assert!(MeshGeometry::from_obj("two", two).is_err());
    let five = b"v 0 0 0\nv 1 0 0\nv 1 1 0\nv 0 1 0\nv 0 0 1\nf 1 2 3 4 5\n";
    assert!(MeshGeometry::from_obj("five", five).is_err());
}

#[test]
fn all_or_nothing_uv_policy() {
    // One corner lacks a uv, so the whole face is treated as uv-less:
    // corners with equal position indices collapse and uvs come out zero.
    let src = b"v 0 0 0\nv 1 0 0\nv 0 1 0\nvt 0.5 0.5 0\nf 1/1 2/1 3\n";
    let g = MeshGeometry::from_obj("aon", src).unwrap();
    assert_eq!(g.vertices.len(), 3);
    assert_eq!(g.uvs[0], [0, 0, 0]);
    assert_eq!(g.uvs[1], [0, 0, 0]);
    assert_eq!(g.uvs[2], [0, 0, 0]);
}

#[test]
fn crlf_line_endings_parse() {
    let src = b"v 0 0 0\r\nv 1 0 0\r\nv 0 1 0\r\nf 1 2 3\r\n";
    let g = MeshGeometry::from_obj("crlf", src).unwrap();
    assert_eq!(g.vertices.len(), 3);
    assert_eq!(g.faces.len(), 3);
}

#[test]
fn no_partial_mesh_on_late_failure() {
    // The failure comes on the last line; the whole load reports an error.
    let src = b"v 0 0 0\nv 1 0 0\nv 0 1 0\nf 1 2 3\nf 1 2 9\n";
    assert!(MeshGeometry::from_obj("late", src).is_err());
}

#[test]
fn empty_source_is_an_empty_mesh() {
    let g = MeshGeometry::from_obj("empty", b"").unwrap();
    assert_eq!(g.vertices.len(), 0);
    assert_eq!(g.faces.len(), 0);
}

#[test]
fn objmesh_parses_and_solves_in_two_steps() {
    let mut obj = rend_ox::obj_parser::OBJMesh::new();
    assert!(obj.load_obj(b"v 0 0 0\nv 1 0 0\nv 0 1 0\nf 1 2 3\n").is_ok());
    assert_eq!(obj.vertices.len(), 3);
    assert_eq!(obj.triangles.len(), 1);
    assert_eq!(obj.calculated.len(), 1);
    let g = obj.as_buffers("tri").unwrap();
    assert_eq!(g.faces, vec![0u16, 1, 2]);
    assert_eq!(g.vertices.len(), 3);
}

#[test]
fn index_tokens_parse_like_the_standard_library() {
    assert_eq!(parse_usize(&b"42".to_vec()), Some(42));
    assert_eq!(parse_usize(&b"+7".to_vec()), Some(7));
    assert_eq!(parse_usize(&b"007".to_vec()), Some(7));
    assert_eq!(parse_usize(&b"".to_vec()), None);
    assert_eq!(parse_usize(&b"4x".to_vec()), None);
    assert_eq!(parse_usize(&b"99999999999999999999999999".to_vec()), None);
    for t in ["0", "10", "+3", "18446744073709551615", "18446744073709551616"] {
        assert_eq!(parse_usize(&t.as_bytes().to_vec()), t.parse::<usize>().ok());
    }
}
