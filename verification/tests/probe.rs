use yolo26_pose::probe::{parse_probe_output, parse_probe_text, ProbeError};

#[test]
fn typical_ffprobe_output() {
    let info = parse_probe_text("width=1920\nheight=1080\nr_frame_rate=30000/1001\n").unwrap();
    assert_eq!((info.width, info.height), (1920, 1080));
    assert_eq!(info.fps, "30000/1001");
}

#[test]
fn crlf_and_missing_final_newline() {
    let info = parse_probe_text("r_frame_rate=25/1\r\nwidth=+640\r\nheight=480").unwrap();
    assert_eq!((info.width, info.height, info.fps.as_str()), (640, 480, "25/1"));
}

#[test]
fn later_lines_override_earlier_ones() {
    let info = parse_probe_text("width=1\nheight=2\nr_frame_rate=a\nwidth=3\nr_frame_rate=b=c\n").unwrap();
    assert_eq!((info.width, info.height, info.fps.as_str()), (3, 2, "b=c"));
    assert_eq!(parse_probe_text("width=5\nwidth=x\nheight=1\nr_frame_rate=1").err(), Some(ProbeError::MissingWidth));
}

#[test]
fn missing_fields_in_order() {
    assert_eq!(parse_probe_text("").err(), Some(ProbeError::MissingWidth));
    assert_eq!(parse_probe_text("width=4").err(), Some(ProbeError::MissingHeight));
    assert_eq!(parse_probe_text("width=4\nheight=4").err(), Some(ProbeError::MissingFrameRate));
    assert_eq!(parse_probe_text("width=4294967296\nheight=1\nr_frame_rate=1").err(), Some(ProbeError::MissingWidth));
    assert_eq!(parse_probe_text("width=-1\nheight=1\nr_frame_rate=1").err(), Some(ProbeError::MissingWidth));
    assert_eq!(parse_probe_text("width=+\nheight=1\nr_frame_rate=1").err(), Some(ProbeError::MissingWidth));
    assert_eq!(parse_probe_text("width =4\nheight=1\nr_frame_rate=1").err(), Some(ProbeError::MissingWidth));
    assert_eq!(parse_probe_text("height=1\nr_frame_rate=1\nwidth=4\r\r").err(), Some(ProbeError::MissingWidth));
}

#[test]
fn largest_width() {
    let info = parse_probe_text("width=4294967295\nheight=007\nr_frame_rate=").unwrap();
    assert_eq!((info.width, info.height, info.fps.as_str()), (u32::MAX, 7, ""));
}

#[test]
fn raw_output_must_be_utf8() {
    assert_eq!(parse_probe_output(vec![0xff, 0xfe]).err(), Some(ProbeError::NotUtf8));
    let info = parse_probe_output(b"width=2\nheight=3\nr_frame_rate=60/1\n".to_vec()).unwrap();
    assert_eq!((info.width, info.height, info.fps.as_str()), (2, 3, "60/1"));
}
