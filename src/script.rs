use vstd::prelude::*;
use crate::transcript::CutPoint;

verus! {

/// What a render of the edited video is asked to do.
#[derive(Debug, Clone, PartialEq)]
pub struct VideoProcessingOptions {
    pub output_path: String,
    pub cut_points: Vec<CutPoint>,
    pub apply_zoom_effects: bool,
}

/// The result of replacing every occurrence of `from` in `s` by `to`.
pub uninterp spec fn replaced(s: Seq<char>, from: Seq<char>, to: Seq<char>) -> Seq<char>;

/// Relies on `str::replace`: the result depends on the three strings alone.
#[verifier::external_body]
fn replace_all(s: &str, from: &str, to: &str) -> (r: String)
    ensures
        r@ == replaced(s@, from@, to@),
{
    s.replace(from, to)
}

pub open spec fn spec_moviepy_template() -> Seq<char> {
    MOVIEPY_TEMPLATE@
}

/// A MoviePy program that keeps the clips named by `CUT_POINTS` out of the
/// video at `VIDEO_PATH`, optionally zooms each one when
/// `APPLY_ZOOM_EFFECTS` holds, and writes their concatenation to
/// `OUTPUT_PATH`.
pub const MOVIEPY_TEMPLATE: &'static str = r#"
import sys
from moviepy.editor import VideoFileClip, concatenate_videoclips

def process_video():
    # Load the video file
    video = VideoFileClip("VIDEO_PATH")
    
    # Define cut points
    cut_points = CUT_POINTS
    
    # Create subclips
    clips = []
    for cut in cut_points:
        start_time = cut["start_time"]
        end_time = cut["end_time"]
        clip = video.subclip(start_time, end_time)
        
        # Apply zoom effects if enabled
        if APPLY_ZOOM_EFFECTS:
            # This is a simple zoom effect, can be customized
            clip = clip.fx(lambda c: c.resize(1.1))
        
        clips.append(clip)
    
    # Concatenate clips
    final_clip = concatenate_videoclips(clips)
    
    # Write the result
    final_clip.write_videofile("OUTPUT_PATH", codec="libx264")
    
    # Close clips
    video.close()
    final_clip.close()

if __name__ == "__main__":
    process_video()
"#;

/// The text of a boolean, as Rust writes it.
pub open spec fn spec_bool_text(b: bool) -> Seq<char> {
    if b { "true"@ } else { "false"@ }
}

fn bool_text(b: bool) -> (r: &'static str)
    ensures
        r@ == spec_bool_text(b),
{
    if b { "true" } else { "false" }
}

/// The program of `MOVIEPY_TEMPLATE` with its placeholders filled in, one
/// after the other: the video path, the output path, the cut points as the
/// JSON text `cut_points_json`, and the zoom flag.
pub open spec fn spec_moviepy_script(
    video_path: Seq<char>,
    output_path: Seq<char>,
    cut_points_json: Seq<char>,
    apply_zoom_effects: bool,
) -> Seq<char> {
    let s = replaced(spec_moviepy_template(), "VIDEO_PATH"@, video_path);
    let s = replaced(s, "OUTPUT_PATH"@, output_path);
    let s = replaced(s, "CUT_POINTS"@, cut_points_json);
    replaced(s, "APPLY_ZOOM_EFFECTS"@, spec_bool_text(apply_zoom_effects))
}

/// Writes the MoviePy program that renders `options` from the video at
/// `video_path`; `cut_points_json` is `options.cut_points` as JSON.
pub fn create_moviepy_script(
    video_path: &str,
    options: &VideoProcessingOptions,
    cut_points_json: &str,
) -> (r: String)
    ensures
        r@ == spec_moviepy_script(video_path@, options.output_path@, cut_points_json@, options.apply_zoom_effects),
{
    let script = replace_all(MOVIEPY_TEMPLATE, "VIDEO_PATH", video_path);
    let script = replace_all(script.as_str(), "OUTPUT_PATH", options.output_path.as_str());
    let script = replace_all(script.as_str(), "CUT_POINTS", cut_points_json);
    replace_all(script.as_str(), "APPLY_ZOOM_EFFECTS", bool_text(options.apply_zoom_effects))
}

/// The name of the file that audio extracted from a video whose file stem is
/// `stem` is written to.
pub fn extracted_audio_file_name(stem: &str) -> (r: String)
    ensures
        r@ == stem@ + "_audio.wav"@,
{
    let mut name = String::from_str(stem);
    name.append("_audio.wav");
    name
}

} // verus!
