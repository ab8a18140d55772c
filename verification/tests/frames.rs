use yolo26_pose::frames::{frame_byte_len, progress_due, FrameReader, ReadStep, TruncatedFrame};

#[test]
fn frame_sizes() {
    assert_eq!(frame_byte_len(1920, 1080), Some(1920 * 1080 * 4));
    assert_eq!(frame_byte_len(0, 1080), Some(0));
}

#[test]
fn frame_assembled_from_partial_reads() {
    let mut r = FrameReader::new(10);
    assert_eq!(r.step(), ReadStep::Read { offset: 0 });
    assert_eq!(r.record(4), Ok(()));
    assert_eq!(r.step(), ReadStep::Read { offset: 4 });
    assert_eq!(r.record(6), Ok(()));
    assert_eq!(r.step(), ReadStep::Frame);
    r.next_frame();
    assert_eq!(r.step(), ReadStep::Read { offset: 0 });
    assert_eq!(r.record(0), Ok(()));
    assert_eq!(r.step(), ReadStep::End);
}

#[test]
fn stream_cut_inside_a_frame() {
    let mut r = FrameReader::new(10);
    assert_eq!(r.record(3), Ok(()));
    assert_eq!(r.record(0), Err(TruncatedFrame { filled: 3 }));
}

#[test]
fn empty_frames_need_no_read() {
    let mut r = FrameReader::new(0);
    assert_eq!(r.step(), ReadStep::Empty);
    r.next_frame();
    assert_eq!(r.step(), ReadStep::Empty);
}

#[test]
fn progress_every_thirty_frames() {
    assert!(progress_due(30));
    assert!(progress_due(60));
    assert!(!progress_due(31));
    assert!(progress_due(0));
}
