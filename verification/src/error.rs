//! The errors of the recorder, with the messages that describe them.
use vstd::prelude::*;

verus! {

/// What can go wrong while finding a window, recording it or saving the result.
#[derive(Debug, Clone, PartialEq, Eq)]
pub enum LoomError {
    /// No window was found, or the selection did not name one.
    WindowNotFound,
    /// The `ffmpeg` program is not installed.
    FfmpegNotFound,
    /// Screen capture could not be set up; the text gives the cause.
    CaptureFailed(String),
    /// The encoder failed; the text gives the cause.
    EncodingFailed(String),
    /// Reading or writing failed; the text gives the cause.
    Io(String),
    /// The clipboard could not be written; the text gives the cause.
    Clipboard(String),
}

impl LoomError {
    /// The message shown to the user for this error.
    pub open spec fn message_text(&self) -> Seq<char> {
        match self {
            LoomError::WindowNotFound =>
                "No Chrome window found. Make sure Chrome is open with at least one window."@,
            LoomError::FfmpegNotFound => "ffmpeg not found. Install with: brew install ffmpeg"@,
            LoomError::CaptureFailed(s) => "Failed to start capture: "@ + s@,
            LoomError::EncodingFailed(s) => "Encoding failed: "@ + s@,
            LoomError::Io(s) => "IO error: "@ + s@,
            LoomError::Clipboard(s) => "Clipboard error: "@ + s@,
        }
    }

    /// The message shown to the user for this error.
    pub fn message(&self) -> (r: String)
        ensures
            r@ == self.message_text(),
    {
        match self {
            LoomError::WindowNotFound => String::from_str(
                "No Chrome window found. Make sure Chrome is open with at least one window.",
            ),
            LoomError::FfmpegNotFound => String::from_str(
                "ffmpeg not found. Install with: brew install ffmpeg",
            ),
            LoomError::CaptureFailed(s) => {
                let mut m = String::from_str("Failed to start capture: ");
                m.append(s.as_str());
                m
            },
            LoomError::EncodingFailed(s) => {
                let mut m = String::from_str("Encoding failed: ");
                m.append(s.as_str());
                m
            },
            LoomError::Io(s) => {
                let mut m = String::from_str("IO error: ");
                m.append(s.as_str());
                m
            },
            LoomError::Clipboard(s) => {
                let mut m = String::from_str("Clipboard error: ");
                m.append(s.as_str());
                m
            },
        }
    }
}

} // verus!
