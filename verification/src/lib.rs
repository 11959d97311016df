//! A typed command-construction and live-progress layer over the ffmpeg
//! command-line tool.
//!
//! The library models a job as global options, input files and output files,
//! renders that model into an argument list, and parses the `key=value`
//! progress lines that ffmpeg streams back into typed [`Progress`] snapshots.
//! All parsing, rendering and accumulation logic is verified; the thin
//! asynchronous shell that spawns the process and moves bytes lives outside
//! the library.

pub mod builder;
pub mod num;
pub mod progress;
pub mod pump;
pub mod text;

pub use builder::FfmpegBuilder;
pub use builder::File;
pub use builder::Parameter;
pub use builder::Redirect;
pub use builder::progress_url;
pub use num::Decimal;
pub use progress::Duration;
pub use progress::Error;
pub use progress::ErrorView;
pub use progress::Progress;
pub use progress::Status;
pub use pump::Pump;
pub use num::NumError;
pub use num::parse_decimal;
pub use num::parse_speed;
pub use num::parse_u64;
pub use text::parse_line;
pub use text::str_eq;
