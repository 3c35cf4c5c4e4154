use three_d_engine::mesh::{cube_faces, faces_in_range, triangle_faces, triples, Mesh};

fn corners() -> [(i32, i32, i32); 8] {
    [
        (1, 1, 1),
        (-1, 1, 1),
        (-1, -1, 1),
        (1, -1, 1),
        (1, 1, -1),
        (-1, 1, -1),
        (-1, -1, -1),
        (1, -1, -1),
    ]
}

#[test]
fn cube_faces_are_the_model_topology() {
    let f = cube_faces();
    assert_eq!(
        f,
        vec![vec![0, 1, 2, 3], vec![4, 5, 6, 7], vec![0, 4], vec![1, 5], vec![2, 6], vec![3, 7]]
    );
    assert!(faces_in_range(&f, 8));
    assert!(!faces_in_range(&f, 7));
}

#[test]
fn cube_mesh_keeps_corners_and_faces() {
    let m = Mesh::cube(corners());
    assert_eq!(m.vertices(), &corners().to_vec());
    assert_eq!(m.faces(), &cube_faces());
    assert!(m.indices_in_range());
}

#[test]
fn new_mesh_keeps_faces_as_given() {
    let v = vec![10u8, 20, 30];
    let m = Mesh::new(v.clone(), vec![vec![0, 1, 2]]);
    assert_eq!(m.vertices(), &v);
    assert_eq!(m.faces(), &vec![vec![0u16, 1, 2]]);
    assert!(m.indices_in_range());
    let bad = Mesh::new(v.clone(), vec![vec![0, 3]]);
    assert_eq!(bad.faces(), &vec![vec![0u16, 3]]);
    assert!(!bad.indices_in_range());
    assert!(Mesh::new(Vec::<u8>::new(), vec![vec![]]).indices_in_range());
    assert!(!Mesh::new(Vec::<u8>::new(), vec![vec![0]]).indices_in_range());
}

#[test]
fn faces_in_range_edge_cases() {
    assert!(faces_in_range(&vec![], 0));
    assert!(faces_in_range(&vec![vec![], vec![]], 0));
    assert!(faces_in_range(&vec![vec![2, 1], vec![0]], 3));
    assert!(!faces_in_range(&vec![vec![2, 1], vec![3]], 3));
}

#[test]
fn triples_groups_and_drops_remainder() {
    let flat = vec![1.0f32, 2.0, 3.0, 4.0, 5.0, 6.0, 7.0, 8.0];
    assert_eq!(triples(&flat), vec![(1.0, 2.0, 3.0), (4.0, 5.0, 6.0)]);
    assert_eq!(triples(&vec![1u8, 2]), vec![]);
    assert_eq!(triples(&Vec::<u8>::new()), vec![]);
}

#[test]
fn triples_roundtrip_on_full_buffer() {
    let flat = vec![9u32, 8, 7, 6, 5, 4];
    let t = triples(&flat);
    let back: Vec<u32> = t.iter().flat_map(|&(a, b, c)| [a, b, c]).collect();
    assert_eq!(back, flat);
}

#[test]
fn triangle_faces_group_indices() {
    let idx = vec![0u32, 1, 2, 2, 3, 0, 5];
    assert_eq!(triangle_faces(&idx), vec![vec![0u16, 1, 2], vec![2, 3, 0]]);
}

#[test]
fn triangle_faces_keep_low_sixteen_bits() {
    let idx = vec![70000u32, 65535, 65536];
    assert_eq!(triangle_faces(&idx), vec![vec![4464u16, 65535, 0]]);
}

#[test]
fn from_triangles_keeps_triangles_as_given() {
    let v = vec!['a', 'b', 'c', 'd'];
    let m = Mesh::from_triangles(v.clone(), &vec![0, 1, 2, 2, 3, 0]);
    assert_eq!(m.faces(), &vec![vec![0u16, 1, 2], vec![2, 3, 0]]);
    assert_eq!(m.vertices(), &v);
    assert!(m.indices_in_range());
    let bad = Mesh::from_triangles(v.clone(), &vec![0, 1, 4]);
    assert_eq!(bad.faces(), &vec![vec![0u16, 1, 4]]);
    assert!(!bad.indices_in_range());
    // 65536 keeps to 0, which names a vertex.
    assert!(Mesh::from_triangles(v, &vec![65536, 1, 2]).indices_in_range());
}

#[test]
fn set_vertex_replaces_one_vertex() {
    let mut m = Mesh::cube(corners());
    m.set_vertex(6, (0, 0, 0));
    let mut expected = corners().to_vec();
    expected[6] = (0, 0, 0);
    assert_eq!(m.vertices(), &expected);
    assert_eq!(m.faces(), &cube_faces());
}
