//! One run: from the text of the source file to the name and the text of
//! the destination file. Reading and writing the files is the caller's part.

use vstd::prelude::*;
use vstd::string::*;
use crate::config::Config;
use crate::convert::{srt2vtt, timestamp_pattern_accepted, vtt_text, ConversionError};
use crate::filename::{create_vtt_filename, vtt_filename_of, FilenameError, EXTENSION_LEN};

verus! {

/// The file that a run asks to be written.
#[derive(Debug, PartialEq, Eq)]
pub struct VttFile {
    /// The name of the file, beside the source file.
    pub filename: String,
    /// The whole text of the file.
    pub content: String,
}

/// Why a run gives no file.
#[derive(Debug, PartialEq, Eq)]
pub enum RunError {
    /// The text could not be converted.
    Conversion(ConversionError),
    /// No name could be derived for the destination file.
    Filename(FilenameError),
}

impl RunError {
    /// A sentence for the user: that of the error inside.
    pub fn message(&self) -> (text: String)
        ensures
            self matches RunError::Conversion(error) ==> text@ == error.message@,
            self matches RunError::Filename(_) ==> text@
                == "Filename is too short to carry an extension."@,
    {
        match self {
            RunError::Conversion(error) => error.message(),
            RunError::Filename(error) => error.message(),
        }
    }
}

/// Names the destination file for a finished conversion. A failed
/// conversion is reported before the name is looked at.
pub fn output_for(config: Config, converted: Result<String, ConversionError>) -> (result: Result<
    VttFile,
    RunError,
>)
    ensures
        converted matches Err(error) ==> result == Err::<VttFile, RunError>(
            RunError::Conversion(error),
        ),
        converted is Ok && config.filename@.len() < EXTENSION_LEN ==> result == Err::<
            VttFile,
            RunError,
        >(RunError::Filename(FilenameError::TooShort)),
        converted matches Ok(text) ==> (config.filename@.len() >= EXTENSION_LEN ==> (
            result matches Ok(file) && file.content == text && file.filename@
                == vtt_filename_of(config.filename@))),
{
    match converted {
        Err(error) => Err(RunError::Conversion(error)),
        Ok(content) => match create_vtt_filename(&config.filename) {
            Err(error) => Err(RunError::Filename(error)),
            Ok(filename) => Ok(VttFile { filename, content }),
        },
    }
}

/// Converts the text of the source file that `config` names and derives the
/// name of the destination file. A refused timestamp pattern is reported
/// first, then a name that is too short.
pub fn run(config: Config, srt_content: String) -> (result: Result<VttFile, RunError>)
    ensures
        timestamp_pattern_accepted() && config.filename@.len() >= EXTENSION_LEN ==> (
        result matches Ok(file) && file.content@ == vtt_text(srt_content@) && file.filename@
            == vtt_filename_of(config.filename@)),
        timestamp_pattern_accepted() && config.filename@.len() < EXTENSION_LEN ==> result
            == Err::<VttFile, RunError>(RunError::Filename(FilenameError::TooShort)),
        !timestamp_pattern_accepted() ==> result matches Err(RunError::Conversion(_)),
{
    output_for(config, srt2vtt(srt_content))
}

} // verus!
