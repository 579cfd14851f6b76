//! Conversion of SubRip subtitle text to WebVTT text.
//!
//! The crate has two independent parts: the rule that names the destination
//! file ([`create_vtt_filename`]) and the rewriting of the subtitle text
//! ([`srt2vtt`]). Both are pure functions over strings; their contracts are
//! stated over sequences of characters. [`run`] applies both for one file.

pub mod config;
pub mod convert;
pub mod filename;
pub mod laws;
pub mod lines;
pub mod pattern;
pub mod run;
pub mod text;

pub use config::Config;
pub use convert::{srt2vtt, ConversionError};
pub use filename::{create_vtt_filename, FilenameError};
pub use run::{run, RunError, VttFile};
