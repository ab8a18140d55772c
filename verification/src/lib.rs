//! Verified core of a YOLO pose-estimation pipeline: the integer and text
//! logic around letterbox preprocessing, engine bindings, GPU readback,
//! skeleton selection, video frame assembly and ffprobe parsing.
pub mod text;
pub mod paths;
pub mod plan;
pub mod letterbox;
pub mod readback;
pub mod skeleton;
pub mod engine;
pub mod frames;
pub mod probe;
