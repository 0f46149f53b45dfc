//! Synthetic nginx access-log generation: a calendar clock, the rendering of
//! combined-format log lines, the planning of file sizes, rotation names and
//! the compression of rotated files.

pub mod date;
pub mod files;
pub mod log;
pub mod run;
pub mod text;
