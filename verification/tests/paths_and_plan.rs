use yolo26_pose::paths::{engine_file_name, engine_name, extension, lowercase_extension};
use yolo26_pose::plan::{image_format, plan_run, ImageFormat, PlanError, RunPlan};

#[test]
fn extension_is_lower_cased() {
    assert_eq!(extension("clips/Input.MP4"), Some("mp4".to_string()));
    assert_eq!(extension("photo.JpEg"), Some("jpeg".to_string()));
    assert_eq!(extension("archive.tar.GZ"), Some("gz".to_string()));
    assert_eq!(extension("clip.MP4/"), Some("mp4".to_string()));
    assert_eq!(extension("dir/clip.Mp4/./"), Some("mp4".to_string()));
    assert_eq!(extension("a:b.MP4"), Some("mp4".to_string()));
    assert_eq!(extension("name."), Some("".to_string()));
}

#[test]
fn extension_missing() {
    assert_eq!(extension("README"), None);
    assert_eq!(extension(".bashrc"), None);
    assert_eq!(extension(""), None);
    assert_eq!(extension("dir.d/file"), None);
    assert_eq!(extension("a.b/.."), None);
    assert_eq!(extension("."), None);
}

#[test]
fn lowercase_extension_maps_ascii_only() {
    assert_eq!(lowercase_extension(Some("PnG")), Some("png".to_string()));
    assert_eq!(lowercase_extension(Some("ÉA1")), Some("Éa1".to_string()));
    assert_eq!(lowercase_extension(None), None);
}

#[test]
fn engine_name_uses_model_stem() {
    assert_eq!(engine_name("models/yolo26m-pose.fp16.onnx"), "yolo26m-pose.fp16.trt11.engine");
    assert_eq!(engine_name("pose.onnx"), "pose.trt11.engine");
    assert_eq!(engine_name(""), "model.trt11.engine");
    assert_eq!(engine_name("/a/m.onnx"), engine_name("/b/m.onnx"));
    assert_eq!(engine_name("models/.hidden"), ".hidden.trt11.engine");
    assert_eq!(engine_name("models/"), "models.trt11.engine");
    assert_eq!(engine_name("models/.."), "model.trt11.engine");
}

#[test]
fn engine_file_name_defaults_to_model() {
    assert_eq!(engine_file_name(None), "model.trt11.engine");
    assert_eq!(engine_file_name(Some("x")), "x.trt11.engine");
}

#[test]
fn plan_video_needs_mp4_output() {
    assert_eq!(plan_run(Some("mp4"), Some("mp4")), Ok(RunPlan::Video));
    assert_eq!(plan_run(Some("mp4"), Some("png")), Err(PlanError::VideoNeedsMp4Output));
    assert_eq!(plan_run(Some("mp4"), None), Err(PlanError::VideoNeedsMp4Output));
}

#[test]
fn plan_image_picks_output_format() {
    assert_eq!(plan_run(Some("jpg"), Some("png")), Ok(RunPlan::Image(ImageFormat::Png)));
    assert_eq!(plan_run(Some("png"), Some("jpeg")), Ok(RunPlan::Image(ImageFormat::Jpeg)));
    assert_eq!(plan_run(Some("jpeg"), Some("jpg")), Ok(RunPlan::Image(ImageFormat::Jpeg)));
    assert_eq!(plan_run(Some("png"), Some("mp4")), Err(PlanError::ImageNeedsImageOutput));
    assert_eq!(plan_run(Some("jpg"), None), Err(PlanError::ImageNeedsImageOutput));
}

#[test]
fn plan_unsupported_source() {
    assert_eq!(plan_run(Some("gif"), Some("png")), Err(PlanError::UnsupportedSource));
    assert_eq!(plan_run(None, Some("mp4")), Err(PlanError::UnsupportedSource));
    assert_eq!(plan_run(Some("MP4"), Some("mp4")), Err(PlanError::UnsupportedSource));
}

#[test]
fn image_format_by_extension() {
    assert_eq!(image_format(Some("jpg")), Some(ImageFormat::Jpeg));
    assert_eq!(image_format(Some("png")), Some(ImageFormat::Png));
    assert_eq!(image_format(Some("bmp")), None);
    assert_eq!(image_format(None), None);
}
