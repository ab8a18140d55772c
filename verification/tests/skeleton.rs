use yolo26_pose::skeleton::{keypoint_name, skeleton_limb, visible_joints, visible_limbs, NUM_LIMBS};

#[test]
fn all_visible_draws_every_limb() {
    let limbs = visible_limbs(&[true; 17]);
    assert_eq!(limbs.len(), NUM_LIMBS);
    assert_eq!(limbs[0], (15, 13));
    assert_eq!(limbs[18], (4, 6));
    assert_eq!(visible_joints(&[true; 17]), (0..17).collect::<Vec<_>>());
}

#[test]
fn hidden_keypoints_hide_their_limbs() {
    let mut vis = [false; 17];
    for k in [5, 6, 7, 11] {
        vis[k] = true;
    }
    assert_eq!(visible_limbs(&vis), vec![(5, 11), (5, 6), (5, 7)]);
    assert_eq!(visible_joints(&vis), vec![5, 6, 7, 11]);
}

#[test]
fn nothing_visible_draws_nothing() {
    assert!(visible_limbs(&[false; 17]).is_empty());
    assert!(visible_joints(&[false; 17]).is_empty());
}

#[test]
fn names_and_limbs() {
    assert_eq!(keypoint_name(0), "nose");
    assert_eq!(keypoint_name(9), "left_wrist");
    assert_eq!(keypoint_name(16), "right_ankle");
    assert_eq!(skeleton_limb(12), (1, 2));
}
