//! Encoding captured frames to video.
pub mod ffmpeg;
