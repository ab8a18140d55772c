use yolo26_pose::readback::{copy_unpadded_rows, padded_bytes_per_row, readback_size};

#[test]
fn rows_round_up_to_alignment() {
    assert_eq!(padded_bytes_per_row(100, 256), Some(512));
    assert_eq!(padded_bytes_per_row(64, 256), Some(256));
    assert_eq!(padded_bytes_per_row(65, 256), Some(512));
    assert_eq!(padded_bytes_per_row(0, 256), Some(0));
    assert_eq!(padded_bytes_per_row(1920, 256), Some(7680));
    assert_eq!(padded_bytes_per_row(3, 5), Some(15));
}

#[test]
fn rows_that_overflow_u32() {
    assert_eq!(padded_bytes_per_row(u32::MAX / 4 + 1, 256), None);
    assert_eq!(padded_bytes_per_row(u32::MAX / 4, 256), None);
    assert_eq!(padded_bytes_per_row(u32::MAX / 4, 1), Some(u32::MAX / 4 * 4));
}

#[test]
fn readback_size_is_rows_times_height() {
    assert_eq!(readback_size(512, 3), Some(1536));
    assert_eq!(readback_size(u32::MAX, 1), Some(u32::MAX as u64));
    assert_eq!(readback_size(u32::MAX, 2), None);
    assert_eq!(readback_size(65536, 65536), None);
}

#[test]
fn padding_is_dropped() {
    // Two rows of one pixel, each padded to 8 bytes.
    let mapped = vec![1, 2, 3, 4, 0, 0, 0, 0, 5, 6, 7, 8, 9, 9, 9, 9];
    let mut out = vec![42; 3];
    copy_unpadded_rows(&mapped, 1, 2, 8, &mut out);
    assert_eq!(out, vec![1, 2, 3, 4, 5, 6, 7, 8]);
}

#[test]
fn unpadded_rows_replace_old_output() {
    let mapped: Vec<u8> = (0..24).collect();
    let mut out = vec![7; 100];
    copy_unpadded_rows(&mapped, 2, 2, 12, &mut out);
    assert_eq!(out, vec![0, 1, 2, 3, 4, 5, 6, 7, 12, 13, 14, 15, 16, 17, 18, 19]);
}
