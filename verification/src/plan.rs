//! Which pipeline a run takes, decided from the lower-cased extensions of the
//! source and output paths.
use vstd::prelude::*;
use crate::text::same_text;

verus! {

/// Encoding of an annotated still image.
#[derive(Debug, Clone, Copy, PartialEq, Eq, Structural)]
pub enum ImageFormat {
    /// `.jpg` or `.jpeg`: written as 8-bit RGB.
    Jpeg,
    /// `.png`: written as 8-bit RGBA.
    Png,
}

/// What a run does with its source.
#[derive(Debug, Clone, Copy, PartialEq, Eq, Structural)]
pub enum RunPlan {
    /// Annotate an MP4 video into an MP4 video.
    Video,
    /// Annotate a still image and save it in the given format.
    Image(ImageFormat),
}

/// Why a pair of paths is refused.
#[derive(Debug, Clone, Copy, PartialEq, Eq, Structural)]
pub enum PlanError {
    /// An MP4 source with an output that is not `.mp4`.
    VideoNeedsMp4Output,
    /// A JPEG or PNG source with an output that is not `.jpg`, `.jpeg` or `.png`.
    ImageNeedsImageOutput,
    /// A source that is neither JPEG, PNG nor MP4.
    UnsupportedSource,
}

pub open spec fn mp4() -> Seq<char> {
    seq!['m', 'p', '4']
}

pub open spec fn jpg() -> Seq<char> {
    seq!['j', 'p', 'g']
}

pub open spec fn jpeg() -> Seq<char> {
    seq!['j', 'p', 'e', 'g']
}

pub open spec fn png() -> Seq<char> {
    seq!['p', 'n', 'g']
}

/// The image format named by an extension, if it names one.
pub open spec fn image_format_of(ext: Option<Seq<char>>) -> Option<ImageFormat> {
    match ext {
        Some(e) => if e == jpg() || e == jpeg() {
            Some(ImageFormat::Jpeg)
        } else if e == png() {
            Some(ImageFormat::Png)
        } else {
            None
        },
        None => None,
    }
}

/// The plan for a source and an output, given their lower-cased extensions.
pub open spec fn plan_of(source: Option<Seq<char>>, output: Option<Seq<char>>) -> Result<
    RunPlan,
    PlanError,
> {
    if source == Some(mp4()) {
        if output == Some(mp4()) {
            Ok(RunPlan::Video)
        } else {
            Err(PlanError::VideoNeedsMp4Output)
        }
    } else if image_format_of(source) is Some {
        match image_format_of(output) {
            Some(f) => Ok(RunPlan::Image(f)),
            None => Err(PlanError::ImageNeedsImageOutput),
        }
    } else {
        Err(PlanError::UnsupportedSource)
    }
}

/// The extension is one of `jpg`, `jpeg` and `png`.
pub open spec fn is_image_ext(ext: Option<Seq<char>>) -> bool {
    ext == Some("jpg"@) || ext == Some("jpeg"@) || ext == Some("png"@)
}

pub open spec fn opt_view(e: Option<&str>) -> Option<Seq<char>> {
    match e {
        Some(s) => Some(s@),
        None => None,
    }
}

fn is_text(ext: Option<&str>, lit: &str) -> (r: bool)
    ensures
        r == (opt_view(ext) == Some(lit@)),
{
    match ext {
        Some(e) => same_text(e, lit),
        None => false,
    }
}

/// The image format named by a lower-cased extension.
pub fn image_format(ext: Option<&str>) -> (r: Option<ImageFormat>)
    ensures
        r == image_format_of(opt_view(ext)),
{
    proof {
        reveal_strlit("jpg");
        reveal_strlit("jpeg");
        reveal_strlit("png");
        assert("jpg"@ =~= jpg());
        assert("jpeg"@ =~= jpeg());
        assert("png"@ =~= png());
    }
    if is_text(ext, "jpg") || is_text(ext, "jpeg") {
        assert(opt_view(ext) == Some(jpg()) || opt_view(ext) == Some(jpeg()));
        Some(ImageFormat::Jpeg)
    } else if is_text(ext, "png") {
        Some(ImageFormat::Png)
    } else {
        None
    }
}

/// Decides the pipeline from the lower-cased extensions of the source and
/// the output: an MP4 source needs an MP4 output; a JPEG or PNG source needs a
/// JPEG or PNG output, whose extension picks the saved format.
pub fn plan_run(source_ext: Option<&str>, output_ext: Option<&str>) -> (r: Result<
    RunPlan,
    PlanError,
>)
    ensures
        r == plan_of(opt_view(source_ext), opt_view(output_ext)),
        is_image_ext(opt_view(source_ext)) && (opt_view(output_ext) == Some("jpg"@) || opt_view(
            output_ext,
        ) == Some("jpeg"@)) ==> r == Ok::<RunPlan, PlanError>(RunPlan::Image(ImageFormat::Jpeg)),
        is_image_ext(opt_view(source_ext)) && opt_view(output_ext) == Some("png"@) ==> r == Ok::<
            RunPlan,
            PlanError,
        >(RunPlan::Image(ImageFormat::Png)),
        is_image_ext(opt_view(source_ext)) && !is_image_ext(opt_view(output_ext)) ==> r == Err::<
            RunPlan,
            PlanError,
        >(PlanError::ImageNeedsImageOutput),
        opt_view(source_ext) == Some("mp4"@) && opt_view(output_ext) == Some("mp4"@) ==> r == Ok::<
            RunPlan,
            PlanError,
        >(RunPlan::Video),
        opt_view(source_ext) == Some("mp4"@) && opt_view(output_ext) != Some("mp4"@) ==> r == Err::<
            RunPlan,
            PlanError,
        >(PlanError::VideoNeedsMp4Output),
        !is_image_ext(opt_view(source_ext)) && opt_view(source_ext) != Some("mp4"@) ==> r == Err::<
            RunPlan,
            PlanError,
        >(PlanError::UnsupportedSource),
{
    proof {
        reveal_strlit("mp4");
        reveal_strlit("jpg");
        reveal_strlit("jpeg");
        reveal_strlit("png");
        assert("mp4"@ =~= mp4());
        assert("jpg"@ =~= jpg());
        assert("jpeg"@ =~= jpeg());
        assert("png"@ =~= png());
    }
    if is_text(source_ext, "mp4") {
        if is_text(output_ext, "mp4") {
            Ok(RunPlan::Video)
        } else {
            Err(PlanError::VideoNeedsMp4Output)
        }
    } else if image_format(source_ext).is_some() {
        match image_format(output_ext) {
            Some(f) => Ok(RunPlan::Image(f)),
            None => Err(PlanError::ImageNeedsImageOutput),
        }
    } else {
        Err(PlanError::UnsupportedSource)
    }
}

} // verus!
