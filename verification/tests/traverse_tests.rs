use voxel_rt::traverse::{
    entry_face, face_axis, step_cursor, uv_rule, DdaCursor, FACE_NEG_X, FACE_NEG_Y, FACE_NEG_Z,
    FACE_POS_X, FACE_POS_Y, FACE_POS_Z,
};

#[test]
fn entry_faces_oppose_step_direction() {
    assert_eq!(entry_face(0, true), FACE_NEG_X);
    assert_eq!(entry_face(0, false), FACE_POS_X);
    assert_eq!(entry_face(1, true), FACE_NEG_Y);
    assert_eq!(entry_face(1, false), FACE_POS_Y);
    assert_eq!(entry_face(2, true), FACE_NEG_Z);
    assert_eq!(entry_face(2, false), FACE_POS_Z);
}

#[test]
fn stepping_moves_one_cell_and_sets_face() {
    let c = DdaCursor { x: 3, y: -1, z: 7, face: 255 };
    let n = step_cursor(c, 0, true);
    assert_eq!((n.x, n.y, n.z, n.face), (4, -1, 7, FACE_NEG_X));
    let n = step_cursor(c, 1, false);
    assert_eq!((n.x, n.y, n.z, n.face), (3, -2, 7, FACE_POS_Y));
    let n = step_cursor(c, 2, true);
    assert_eq!((n.x, n.y, n.z, n.face), (3, -1, 8, FACE_NEG_Z));
}

#[test]
fn face_axes_and_normal_signs() {
    assert_eq!(face_axis(FACE_NEG_X), (0, false));
    assert_eq!(face_axis(FACE_POS_X), (0, true));
    assert_eq!(face_axis(FACE_NEG_Y), (1, false));
    assert_eq!(face_axis(FACE_POS_Y), (1, true));
    assert_eq!(face_axis(FACE_NEG_Z), (2, false));
    assert_eq!(face_axis(FACE_POS_Z), (2, true));
}

#[test]
fn uv_orientation_table() {
    let r = uv_rule(FACE_NEG_X);
    assert_eq!((r.u_axis, r.u_flip, r.v_axis, r.v_flip), (2, false, 1, false));
    let r = uv_rule(FACE_POS_X);
    assert_eq!((r.u_axis, r.u_flip, r.v_axis, r.v_flip), (2, true, 1, false));
    let r = uv_rule(FACE_NEG_Y);
    assert_eq!((r.u_axis, r.u_flip, r.v_axis, r.v_flip), (0, false, 2, false));
    let r = uv_rule(FACE_POS_Y);
    assert_eq!((r.u_axis, r.u_flip, r.v_axis, r.v_flip), (0, false, 2, true));
    let r = uv_rule(FACE_NEG_Z);
    assert_eq!((r.u_axis, r.u_flip, r.v_axis, r.v_flip), (0, true, 1, false));
    let r = uv_rule(FACE_POS_Z);
    assert_eq!((r.u_axis, r.u_flip, r.v_axis, r.v_flip), (0, false, 1, false));
}
