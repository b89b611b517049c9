//! What to record and how recording proceeds.
pub mod recorder;
pub mod window;

pub use recorder::{Recorder, RecorderConfig};
pub use window::{list_all_windows, WindowTarget};
