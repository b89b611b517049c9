//! What the user is handed once a recording is saved.
pub mod clipboard;
pub mod file_name;
