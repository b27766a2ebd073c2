//! Audio normalization and pause-based cut-point segmentation for a video
//! editing pipeline.
//!
//! Times are whole milliseconds; samples are carried generically so that the
//! floating-point values themselves are only ever moved, never inspected.
mod audio;
mod decode;
mod error;
mod label;
mod script;
mod transcript;

pub use audio::{TARGET_SAMPLE_RATE, TrackInfo, downmix, first_audio_track, resample, to_target_rate};
pub use decode::{DecodeAction, DecodeSession, PacketEvent};
pub use error::AppError;
pub use label::{decimal_digits, segment_label};
pub use script::{MOVIEPY_TEMPLATE, VideoProcessingOptions, create_moviepy_script, extracted_audio_file_name};
pub use transcript::{
    CutPoint, DEFAULT_PAUSE_THRESHOLD_MS, Transcript, TranscriptSegment, centis_to_millis, segment_by_pauses,
};
