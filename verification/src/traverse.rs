//! Discrete decisions of the incremental grid traversal: which face a step
//! enters a cell through, how the cell cursor advances, and how a face maps
//! hit offsets to texture coordinates.
//!
//! The traversal's clipping and boundary distances are floating point and
//! computed by the caller; ties between axes are broken in x, y, z order
//! there. Every decision on cells and faces is made here.

use vstd::prelude::*;

verus! {

/// Face code of the `-X` face of a cell.
pub const FACE_NEG_X: u8 = 0;

/// Face code of the `+X` face of a cell.
pub const FACE_POS_X: u8 = 1;

/// Face code of the `-Y` face of a cell.
pub const FACE_NEG_Y: u8 = 2;

/// Face code of the `+Y` face of a cell.
pub const FACE_POS_Y: u8 = 3;

/// Face code of the `-Z` face of a cell.
pub const FACE_NEG_Z: u8 = 4;

/// Face code of the `+Z` face of a cell.
pub const FACE_POS_Z: u8 = 5;

/// Sentinel for "no face": the ray starts inside its first cell.
pub const FACE_NONE: u8 = 255;

/// The face through which a step along an axis (`0` x, `1` y, `2` z) enters
/// the next cell: a step in the positive direction enters through the
/// cell's negative face, and the other way round.
pub open spec fn spec_entry_face(axis: u8, step_positive: bool) -> u8 {
    if axis == 0 {
        if step_positive {
            0u8
        } else {
            1u8
        }
    } else if axis == 1 {
        if step_positive {
            2u8
        } else {
            3u8
        }
    } else {
        if step_positive {
            4u8
        } else {
            5u8
        }
    }
}

/// The face entered by a step along `axis` in the given direction.
pub fn entry_face(axis: u8, step_positive: bool) -> (f: u8)
    requires
        axis < 3,
    ensures
        f == spec_entry_face(axis, step_positive),
{
    if axis == 0 {
        if step_positive {
            0
        } else {
            1
        }
    } else if axis == 1 {
        if step_positive {
            2
        } else {
            3
        }
    } else {
        if step_positive {
            4
        } else {
            5
        }
    }
}

/// The axis a face is perpendicular to (`0` x, `1` y, `2` z), and whether
/// its outward normal points in the positive direction of that axis.
pub open spec fn spec_face_axis(face: u8) -> (u8, bool) {
    if face == 0 {
        (0u8, false)
    } else if face == 1 {
        (0u8, true)
    } else if face == 2 {
        (1u8, false)
    } else if face == 3 {
        (1u8, true)
    } else if face == 4 {
        (2u8, false)
    } else {
        (2u8, true)
    }
}

/// Axis and normal direction of a face; the caller builds the unit normal
/// from them.
pub fn face_axis(face: u8) -> (r: (u8, bool))
    ensures
        r == spec_face_axis(face),
{
    if face == 0 {
        (0, false)
    } else if face == 1 {
        (0, true)
    } else if face == 2 {
        (1, false)
    } else if face == 3 {
        (1, true)
    } else if face == 4 {
        (2, false)
    } else {
        (2, true)
    }
}

/// Position of the traversal: the current cell, and the face through which
/// it was entered (`FACE_NONE` for the ray's first cell).
#[derive(Clone, Copy, Debug, PartialEq, Eq, Structural)]
pub struct DdaCursor {
    pub x: i32,
    pub y: i32,
    pub z: i32,
    pub face: u8,
}

/// Advances the cursor one cell along `axis`, recording the entry face of
/// the new cell. Exactly one coordinate changes, by exactly one.
pub fn step_cursor(c: DdaCursor, axis: u8, step_positive: bool) -> (n: DdaCursor)
    requires
        axis < 3,
        axis == 0 && step_positive ==> c.x < i32::MAX,
        axis == 0 && !step_positive ==> c.x > i32::MIN,
        axis == 1 && step_positive ==> c.y < i32::MAX,
        axis == 1 && !step_positive ==> c.y > i32::MIN,
        axis == 2 && step_positive ==> c.z < i32::MAX,
        axis == 2 && !step_positive ==> c.z > i32::MIN,
    ensures
        n.face == spec_entry_face(axis, step_positive),
        axis == 0 ==> n.x == c.x + (if step_positive {
            1int
        } else {
            -1int
        }) && n.y == c.y && n.z == c.z,
        axis == 1 ==> n.y == c.y + (if step_positive {
            1int
        } else {
            -1int
        }) && n.x == c.x && n.z == c.z,
        axis == 2 ==> n.z == c.z + (if step_positive {
            1int
        } else {
            -1int
        }) && n.x == c.x && n.y == c.y,
{
    let face = entry_face(axis, step_positive);
    if axis == 0 {
        let x = if step_positive {
            c.x + 1
        } else {
            c.x - 1
        };
        DdaCursor { x, y: c.y, z: c.z, face }
    } else if axis == 1 {
        let y = if step_positive {
            c.y + 1
        } else {
            c.y - 1
        };
        DdaCursor { x: c.x, y, z: c.z, face }
    } else {
        let z = if step_positive {
            c.z + 1
        } else {
            c.z - 1
        };
        DdaCursor { x: c.x, y: c.y, z, face }
    }
}

/// How a face maps the hit point's offsets within its cell (each in
/// `[0, 1]`) to texture coordinates: which axis feeds `u` and `v`, and
/// whether each is mirrored (`coordinate = 1 - offset`).
#[derive(Clone, Copy, Debug, PartialEq, Eq, Structural)]
pub struct UvRule {
    pub u_axis: u8,
    pub u_flip: bool,
    pub v_axis: u8,
    pub v_flip: bool,
}

/// The per-face texture orientation, one convention for the analytic box
/// intersection and the grid traversal alike: side faces keep `v` upright
/// along `+Y`, the `+X` and `-Z` faces mirror `u`, and the `+Y` face
/// mirrors `v`, so textures read right-side-up from outside.
pub open spec fn spec_uv_rule(face: u8) -> UvRule {
    if face == 0 {
        UvRule { u_axis: 2, u_flip: false, v_axis: 1, v_flip: false }
    } else if face == 1 {
        UvRule { u_axis: 2, u_flip: true, v_axis: 1, v_flip: false }
    } else if face == 2 {
        UvRule { u_axis: 0, u_flip: false, v_axis: 2, v_flip: false }
    } else if face == 3 {
        UvRule { u_axis: 0, u_flip: false, v_axis: 2, v_flip: true }
    } else if face == 4 {
        UvRule { u_axis: 0, u_flip: true, v_axis: 1, v_flip: false }
    } else {
        UvRule { u_axis: 0, u_flip: false, v_axis: 1, v_flip: false }
    }
}

/// The texture orientation of a face.
pub fn uv_rule(face: u8) -> (r: UvRule)
    ensures
        r == spec_uv_rule(face),
{
    if face == 0 {
        UvRule { u_axis: 2, u_flip: false, v_axis: 1, v_flip: false }
    } else if face == 1 {
        UvRule { u_axis: 2, u_flip: true, v_axis: 1, v_flip: false }
    } else if face == 2 {
        UvRule { u_axis: 0, u_flip: false, v_axis: 2, v_flip: false }
    } else if face == 3 {
        UvRule { u_axis: 0, u_flip: false, v_axis: 2, v_flip: true }
    } else if face == 4 {
        UvRule { u_axis: 0, u_flip: true, v_axis: 1, v_flip: false }
    } else {
        UvRule { u_axis: 0, u_flip: false, v_axis: 1, v_flip: false }
    }
}

} // verus!
