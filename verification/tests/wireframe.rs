use three_d_engine::mesh::{cube_faces, Mesh};
use three_d_engine::wireframe::{edge_segment, frame_segments, visible_points};

fn cube() -> Mesh<u8> {
    Mesh::cube([0, 1, 2, 3, 4, 5, 6, 7])
}

#[test]
fn edge_needs_both_points() {
    assert_eq!(edge_segment(Some(1), Some(2)), Some((1, 2)));
    assert_eq!(edge_segment(Some(1), None), None);
    assert_eq!(edge_segment(None::<i32>, Some(2)), None);
    assert_eq!(edge_segment(None::<i32>, None), None);
}

#[test]
fn visible_points_keep_projected_ones() {
    let pts = vec![Some(1.5f32), None, Some(-2.0), None];
    assert_eq!(visible_points(&pts), vec![1.5, -2.0]);
    assert_eq!(visible_points(&vec![None::<u8>, None]), vec![]);
}

#[test]
fn cube_wireframe_all_visible() {
    let pts: Vec<Option<u16>> = (0..8).map(|i| Some(i * 10)).collect();
    let segs = cube().segments(&pts);
    assert_eq!(
        segs,
        vec![
            (0, 10),
            (10, 20),
            (20, 30),
            (30, 0),
            (40, 50),
            (50, 60),
            (60, 70),
            (70, 40),
            (0, 40),
            (40, 0),
            (10, 50),
            (50, 10),
            (20, 60),
            (60, 20),
            (30, 70),
            (70, 30),
        ]
    );
}

#[test]
fn cube_wireframe_with_hidden_vertex() {
    let mut pts: Vec<Option<u16>> = (0..8).map(|i| Some(i)).collect();
    pts[0] = None;
    let segs = cube().segments(&pts);
    assert_eq!(
        segs,
        vec![(1, 2), (2, 3), (4, 5), (5, 6), (6, 7), (7, 4), (1, 5), (5, 1), (2, 6), (6, 2), (3, 7), (7, 3)]
    );
}

#[test]
fn nothing_visible_draws_nothing() {
    let pts: Vec<Option<u16>> = vec![None; 8];
    assert!(cube().segments(&pts).is_empty());
    assert!(visible_points(&pts).is_empty());
}

#[test]
fn frame_segments_on_plain_faces() {
    let faces = vec![vec![0u16, 1, 2], vec![2], vec![]];
    let pts = vec![Some('a'), Some('b'), Some('c')];
    assert_eq!(
        frame_segments(&faces, &pts),
        vec![('a', 'b'), ('b', 'c'), ('c', 'a'), ('c', 'c')]
    );
    assert_eq!(frame_segments(&cube_faces(), &vec![Some(0u8); 8]).len(), 16);
}
