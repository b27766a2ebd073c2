use vstd::prelude::*;

verus! {

/// Declares `std::io::Error` so that an I/O failure can be carried, unread,
/// inside `AppError`.
#[verifier::external_type_specification]
#[verifier::external_body]
pub struct ExIoError(std::io::Error);

/// Every failure the pipeline can report, each carrying a human-readable cause.
#[derive(Debug)]
pub enum AppError {
    FFmpegError(String),
    WhisperError(String),
    VideoProcessingError(String),
    IoError(std::io::Error),
    /// The container holds no track with a recognized codec.
    UnsupportedFormat(String),
    /// The packet stream failed for a reason other than its end.
    DecodeError(String),
    Other(String),
}

impl From<&str> for AppError {
    fn from(error: &str) -> (r: AppError)
        ensures
            r matches AppError::Other(m) && m@ == error@,
    {
        AppError::Other(String::from_str(error))
    }
}

impl vstd::std_specs::convert::FromSpecImpl<&str> for AppError {
    open spec fn obeys_from_spec() -> bool {
        false
    }

    open spec fn from_spec(v: &str) -> AppError {
        AppError::Other(choose|m: String| m@ == v@)
    }
}

impl From<String> for AppError {
    fn from(error: String) -> (r: AppError)
        ensures
            r == AppError::Other(error),
    {
        AppError::Other(error)
    }
}

impl vstd::std_specs::convert::FromSpecImpl<String> for AppError {
    open spec fn obeys_from_spec() -> bool {
        true
    }

    open spec fn from_spec(v: String) -> AppError {
        AppError::Other(v)
    }
}

impl From<std::io::Error> for AppError {
    fn from(error: std::io::Error) -> (r: AppError)
        ensures
            r == AppError::IoError(error),
    {
        AppError::IoError(error)
    }
}

impl vstd::std_specs::convert::FromSpecImpl<std::io::Error> for AppError {
    open spec fn obeys_from_spec() -> bool {
        true
    }

    open spec fn from_spec(v: std::io::Error) -> AppError {
        AppError::IoError(v)
    }
}

} // verus!
