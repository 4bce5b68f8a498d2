use voxel_raytracer::{neighbor_cell, Face, FaceRole};

#[test]
fn face_indices_follow_fixed_order() {
    let all = Face::all();
    for (i, f) in all.iter().enumerate() {
        assert_eq!(f.idx(), i);
        assert_eq!(Face::from_idx(i), Some(*f));
    }
    assert_eq!(Face::PosX.idx(), 0);
    assert_eq!(Face::NegX.idx(), 1);
    assert_eq!(Face::PosY.idx(), 2);
    assert_eq!(Face::NegY.idx(), 3);
    assert_eq!(Face::PosZ.idx(), 4);
    assert_eq!(Face::NegZ.idx(), 5);
    assert_eq!(Face::from_idx(6), None);
}

#[test]
fn face_axes_signs_and_normals() {
    assert_eq!(Face::PosZ.axis(), 2);
    assert!(Face::PosZ.is_positive());
    assert!(!Face::NegY.is_positive());
    assert_eq!(Face::from_axis(1, false), Face::NegY);
    assert_eq!(Face::NegX.normal(), [-1, 0, 0]);
    assert_eq!(Face::PosY.normal(), [0, 1, 0]);
    assert_eq!(Face::NegZ.normal(), [0, 0, -1]);
}

#[test]
fn ray_travelling_forward_enters_through_negative_face() {
    assert_eq!(Face::entered_through(0, true), Face::NegX);
    assert_eq!(Face::entered_through(0, false), Face::PosX);
    assert_eq!(Face::entered_through(1, false), Face::PosY);
    assert_eq!(Face::entered_through(2, true), Face::NegZ);
}

#[test]
fn top_bottom_and_side_roles() {
    assert_eq!(Face::PosY.role(), FaceRole::Top);
    assert_eq!(Face::NegY.role(), FaceRole::Bottom);
    for f in [Face::PosX, Face::NegX, Face::PosZ, Face::NegZ] {
        assert_eq!(f.role(), FaceRole::Side);
    }
}

#[test]
fn placing_on_positive_x_face_uses_next_cell() {
    // the unit cube at the origin sits in cell (0, 0, 0); a hit on its +X face
    // places the new block in the cell one step along +X
    assert_eq!(neighbor_cell([0, 0, 0], Face::PosX), [1, 0, 0]);
    assert_eq!(neighbor_cell([0, 0, 0], Face::NegY), [0, -1, 0]);
    assert_eq!(neighbor_cell([i32::MAX, 0, i32::MIN], Face::PosX), [i32::MAX as i64 + 1, 0, i32::MIN as i64]);
}
