use yolo26_pose::letterbox::{letterbox_padding, letterbox_planes, letterbox_rgba, PAD_VALUE};

#[test]
fn padding_is_the_smaller_half() {
    assert_eq!(letterbox_padding(640, 360), 140);
    assert_eq!(letterbox_padding(640, 361), 139);
    assert_eq!(letterbox_padding(640, 640), 0);
    assert_eq!(letterbox_padding(640, 0), 320);
}

fn rgba(width: usize, height: usize) -> Vec<u8> {
    let mut v = Vec::new();
    for i in 0..width * height {
        v.extend_from_slice(&[10 + i as u8, 100 + i as u8, 200 + i as u8, 255]);
    }
    v
}

#[test]
fn planes_centre_the_image() {
    // A 2x1 image in a 4x4 square: one column of padding on the left, one
    // row on top, two rows below.
    let resized = rgba(2, 1);
    let lb = letterbox_planes(&resized, 2, 1, 4);
    assert_eq!(lb.pad_left, 1);
    assert_eq!(lb.pad_top, 1);
    assert_eq!(lb.planes.len(), 3 * 16);
    let area = 16;
    for c in 0..3 {
        for row in 0..4 {
            for col in 0..4 {
                let v = lb.planes[c * area + row * 4 + col];
                if row == 1 && (col == 1 || col == 2) {
                    assert_eq!(v, resized[(col - 1) * 4 + c]);
                } else {
                    assert_eq!(v, PAD_VALUE);
                }
            }
        }
    }
}

#[test]
fn empty_image_is_all_padding() {
    let lb = letterbox_planes(&[], 0, 0, 3);
    assert_eq!(lb.pad_left, 1);
    assert_eq!(lb.pad_top, 1);
    assert!(lb.planes.iter().all(|&v| v == PAD_VALUE));
    assert_eq!(lb.planes.len(), 27);
}

#[test]
fn unscaled_frame_keeps_its_pixels() {
    let mut frame = rgba(2, 2);
    let copy = frame.clone();
    let lb = letterbox_rgba(&mut frame, 2, 2, 2, 2, 2);
    assert_eq!(frame, copy);
    assert_eq!((lb.pad_left, lb.pad_top), (0, 0));
    for c in 0..3 {
        for p in 0..4 {
            assert_eq!(lb.planes[c * 4 + p], copy[p * 4 + c]);
        }
    }
}

#[test]
fn resized_uniform_frame_stays_uniform() {
    let mut frame = Vec::new();
    for _ in 0..8 * 8 {
        frame.extend_from_slice(&[40, 80, 120, 255]);
    }
    let lb = letterbox_rgba(&mut frame, 8, 8, 4, 4, 6);
    assert_eq!((lb.pad_left, lb.pad_top), (1, 1));
    for row in 0..6 {
        for col in 0..6 {
            let inside = (1..5).contains(&row) && (1..5).contains(&col);
            for (c, want) in [40u8, 80, 120].iter().enumerate() {
                let v = lb.planes[c * 36 + row * 6 + col];
                if inside {
                    assert_eq!(v, *want);
                } else {
                    assert_eq!(v, PAD_VALUE);
                }
            }
        }
    }
}
