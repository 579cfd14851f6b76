//! Naming of the WebVTT file that belongs to a SubRip file.

use vstd::prelude::*;
use vstd::string::*;

verus! {

/// Number of trailing characters that are taken off the source name.
pub const EXTENSION_LEN: usize = 4;

/// The extension that every derived name ends with.
pub open spec fn vtt_extension() -> Seq<char> {
    seq!['.', 'v', 't', 't']
}

/// The destination name that belongs to `name`: everything but the last
/// four characters, followed by `.vtt`. Only meaningful when `name` has at
/// least four characters.
pub open spec fn vtt_filename_of(name: Seq<char>) -> Seq<char>
    recommends
        name.len() >= EXTENSION_LEN,
{
    name.take(name.len() - EXTENSION_LEN) + vtt_extension()
}

/// Why no destination name could be derived.
#[derive(Debug, Clone, Copy, PartialEq, Eq, Structural)]
pub enum FilenameError {
    /// The source name has fewer than four characters, so there is no
    /// extension to take off.
    TooShort,
}

impl FilenameError {
    /// A sentence for the user.
    pub fn message(&self) -> (text: String)
        ensures
            text@ == "Filename is too short to carry an extension."@,
    {
        String::from_str("Filename is too short to carry an extension.")
    }
}

/// Derives the name of the WebVTT file from the name of the SubRip file.
///
/// The last four characters are replaced by `.vtt` without looking at them:
/// the name is assumed to end in `.srt`, and nothing looks whether it does.
/// A name of fewer than four characters is refused.
pub fn create_vtt_filename(srt_filename: &String) -> (result: Result<String, FilenameError>)
    ensures
        srt_filename@.len() >= EXTENSION_LEN ==> (result matches Ok(name) && name@
            == vtt_filename_of(srt_filename@)),
        srt_filename@.len() < EXTENSION_LEN ==> result == Err::<String, FilenameError>(
            FilenameError::TooShort,
        ),
{
    let source = srt_filename.as_str();
    let count = source.unicode_len();
    if count < EXTENSION_LEN {
        return Err(FilenameError::TooShort);
    }
    let mut name = String::from_str(source.substring_char(0, count - EXTENSION_LEN));
    name.append(".vtt");
    proof {
        reveal_strlit(".vtt");
        assert(".vtt"@ =~= vtt_extension());
    }
    Ok(name)
}

} // verus!
