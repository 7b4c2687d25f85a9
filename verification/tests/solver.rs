use rend_ox::obj_parser::Triangle;
use rend_ox::solver::solve_indices;

fn v(x: u32) -> [u32; 3] {
    [x, x, x]
}

#[test]
fn corners_with_equal_keys_share_an_index() {
    // Two triangles share corners (position 0 and 2, same uv/normal
    // absence), so their keys collapse to the same unified vertices.
    let pos = vec![v(10), v(11), v(12), v(13)];
    let uvs: Vec<[u32; 3]> = vec![];
    let normals: Vec<[u32; 3]> = vec![];
    let calc = vec![v(90), v(91)];
    let faces = vec![
        Triangle { points: [0, 1, 2], normals: None, calculated_normal: 0, textures: None },
        Triangle { points: [0, 2, 3], normals: None, calculated_normal: 1, textures: None },
    ];
    let (vp, uv, nm, idx) = solve_indices(&pos, &uvs, &normals, &calc, &faces);
    assert_eq!(idx, vec![0, 1, 2, 0, 2, 3]);
    assert_eq!(vp, vec![v(10), v(11), v(12), v(13)]);
    // Corners without a uv resolve to the zero vector.
    assert_eq!(uv, vec![[0, 0, 0]; 4]);
    // Corners without an explicit normal take the computed face normal of
    // the triangle that first saw the key.
    assert_eq!(nm, vec![v(90), v(90), v(90), v(91)]);
}

#[test]
fn distinct_uv_indices_split_vertices() {
    // Same position, different uv index: two distinct unified vertices.
    let pos = vec![v(1), v(2), v(3)];
    let uvs = vec![v(40), v(41)];
    let calc = vec![v(9), v(8)];
    let normals: Vec<[u32; 3]> = vec![];
    let faces = vec![
        Triangle { points: [0, 1, 2], normals: None, calculated_normal: 0, textures: Some([0, 0, 0]) },
        Triangle { points: [0, 1, 2], normals: None, calculated_normal: 1, textures: Some([1, 0, 0]) },
    ];
    let (vp, uv, _nm, idx) = solve_indices(&pos, &uvs, &normals, &calc, &faces);
    // Corner 0 differs between the faces (uv 0 vs uv 1); corners 1 and 2
    // are shared.
    assert_eq!(idx, vec![0, 1, 2, 3, 1, 2]);
    assert_eq!(vp.len(), 4);
    assert_eq!(uv[0], v(40));
    assert_eq!(uv[3], v(41));
}

#[test]
fn explicit_and_computed_normals_never_collide() {
    // The same (position, uv) corner with an explicit normal and without
    // one must stay two distinct vertices: absence is its own key value.
    let pos = vec![v(1), v(2), v(3)];
    let uvs: Vec<[u32; 3]> = vec![];
    let normals = vec![v(70)];
    let calc = vec![v(80), v(81)];
    let faces = vec![
        Triangle { points: [0, 1, 2], normals: Some([0, 0, 0]), calculated_normal: 0, textures: None },
        Triangle { points: [0, 1, 2], normals: None, calculated_normal: 1, textures: None },
    ];
    let (vp, _uv, nm, idx) = solve_indices(&pos, &uvs, &normals, &calc, &faces);
    assert_eq!(vp.len(), 6);
    assert_eq!(idx, vec![0, 1, 2, 3, 4, 5]);
    assert_eq!(nm[0], v(70));
    assert_eq!(nm[3], v(81));
}

#[test]
fn indices_stay_in_bounds() {
    // Every produced index lies inside the unified arrays.
    let pos = vec![v(1), v(2), v(3), v(4)];
    let uvs: Vec<[u32; 3]> = vec![];
    let normals: Vec<[u32; 3]> = vec![];
    let calc = vec![v(0), v(1), v(2)];
    let faces = vec![
        Triangle { points: [0, 1, 2], normals: None, calculated_normal: 0, textures: None },
        Triangle { points: [1, 2, 3], normals: None, calculated_normal: 1, textures: None },
        Triangle { points: [3, 0, 1], normals: None, calculated_normal: 2, textures: None },
    ];
    let (vp, uv, nm, idx) = solve_indices(&pos, &uvs, &normals, &calc, &faces);
    assert_eq!(vp.len(), uv.len());
    assert_eq!(vp.len(), nm.len());
    assert_eq!(idx.len(), 9);
    for i in idx {
        assert!(i < vp.len());
    }
}
