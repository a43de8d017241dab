//! Verified core of the SliceFS command-line tool.

pub mod text;
pub mod backend;
pub mod cli;
pub mod mount;
pub mod calendar;
pub mod snapshot;
pub mod stats;
pub mod scrub;
pub mod content;
pub mod filesystem;
pub mod util;
pub mod unmount;
pub mod maintenance;
pub mod report;
