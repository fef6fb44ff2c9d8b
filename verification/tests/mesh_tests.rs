use rust_opengl_learn::mesh::{
    index_vertices, join_parts, obj_lines_sliceable, wavefront_corners, wavefront_group_faces, VertexRef,
};

fn v(position: usize, texture: Option<usize>, normal: Option<usize>) -> VertexRef {
    VertexRef { position, texture, normal }
}

#[test]
fn shared_corners_become_one_vertex() {
    let polys = vec![
        vec![v(0, Some(0), Some(0)), v(1, Some(1), Some(0)), v(2, Some(2), Some(0))],
        vec![v(0, Some(0), Some(0)), v(2, Some(2), Some(0)), v(3, Some(3), Some(0))],
    ];
    let (unique, indices) = index_vertices(&polys);
    assert_eq!(
        unique,
        vec![v(0, Some(0), Some(0)), v(1, Some(1), Some(0)), v(2, Some(2), Some(0)), v(3, Some(3), Some(0))]
    );
    assert_eq!(indices, vec![0, 1, 2, 0, 2, 3]);
}

#[test]
fn corners_differing_in_normal_stay_apart() {
    let polys = vec![vec![v(0, None, Some(0)), v(0, None, Some(1)), v(0, None, None)]];
    let (unique, indices) = index_vertices(&polys);
    assert_eq!(unique.len(), 3);
    assert_eq!(indices, vec![0, 1, 2]);
}

#[test]
fn no_faces_no_vertices() {
    let (unique, indices) = index_vertices(&Vec::new());
    assert!(unique.is_empty());
    assert!(indices.is_empty());
}

#[test]
fn indices_give_back_corners() {
    let polys = vec![
        vec![v(3, None, None), v(1, None, None), v(3, None, None)],
        vec![],
        vec![v(1, None, None), v(2, Some(5), None)],
    ];
    let (unique, indices) = index_vertices(&polys);
    let corners: Vec<VertexRef> = polys.iter().flatten().copied().collect();
    assert_eq!(indices.len(), corners.len());
    for (i, c) in corners.iter().enumerate() {
        assert_eq!(unique[indices[i] as usize], *c);
    }
    assert_eq!(indices, vec![0, 1, 0, 1, 2]);
}

#[test]
fn indices_wrap_past_sixteen_bits() {
    let corners: Vec<VertexRef> = (0..65537usize).map(|i| v(i, None, None)).collect();
    let (unique, indices) = index_vertices(&vec![corners]);
    assert_eq!(unique.len(), 65537);
    assert_eq!(indices[65535], 65535);
    assert_eq!(indices[65536], 0);
}

const MODEL: &[u8] = b"v 0 0 0\nv 1 0 0\nv 0 1 0\nvt 0 0\nf 1/1 2/1 3/1\ng second\nf 3 2 1\n";

#[test]
fn wavefront_groups_hold_their_faces() {
    let groups = wavefront_group_faces(MODEL).unwrap();
    assert_eq!(
        groups,
        vec![
            vec![vec![v(0, Some(0), None), v(1, Some(0), None), v(2, Some(0), None)]],
            vec![vec![v(2, None, None), v(1, None, None), v(0, None, None)]],
        ]
    );
}

#[test]
fn wavefront_corners_face_after_face() {
    let corners = wavefront_corners(MODEL).unwrap();
    assert_eq!(corners.len(), 6);
    assert_eq!(corners[0], v(0, Some(0), None));
    assert_eq!(corners[3], v(2, None, None));
    assert_eq!(corners[5], v(0, None, None));
}

#[test]
fn wavefront_rejects_unknown_command_and_zero_index() {
    assert_eq!(wavefront_corners(b"x 1\n"), None);
    assert_eq!(wavefront_corners(b"v 0 0 0\nf 0 1 1\n"), None);
    assert_eq!(wavefront_group_faces(b"v 0 0 0\nf 0 1 1\n"), None);
}

#[test]
fn lines_that_cut_a_character_are_found() {
    assert!(obj_lines_sliceable(MODEL));
    assert!(obj_lines_sliceable("# caf\u{e9}\n#\u{e9}x\no \u{e9}\n".as_bytes()));
    assert!(!obj_lines_sliceable("\u{a0}o x\n".as_bytes()));
    assert!(!obj_lines_sliceable("v 0 0 0\ng\u{a0}x\n".as_bytes()));
    assert!(!obj_lines_sliceable(" \u{a0}g x\n".as_bytes()));
    assert!(obj_lines_sliceable("v\u{a0}0 0 0\n".as_bytes()));
}

#[test]
fn concat_joins_parts_in_order() {
    assert_eq!(join_parts(vec![vec![1, 2], vec![], vec![3]]), vec![1, 2, 3]);
    assert_eq!(join_parts(Vec::<Vec<u8>>::new()), Vec::<u8>::new());
}
