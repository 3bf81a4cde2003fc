//! Decision logic of a local YouTube-to-MP3/MP4 converter that drives `yt-dlp`.

pub mod text;
pub mod progress;
pub mod outside;
pub mod conversion;
pub mod monitor;
pub mod jobs;
pub mod paths;
