//! What a run is asked to do.

use vstd::prelude::*;
use vstd::string::*;

verus! {

/// What `Config::new` answers when no source file was named.
pub const NO_FILENAME: &'static str = "No filename passed as argument.";

/// The settings of one run: the SubRip file to convert.
pub struct Config {
    pub filename: String,
}

impl Config {
    /// Reads the settings from the arguments of the process. The first
    /// argument is the name of the program; the second names the source
    /// file. Arguments after the second are not looked at.
    pub fn new(args: Vec<String>) -> (result: Result<Config, &'static str>)
        ensures
            args@.len() >= 2 ==> (result matches Ok(config) && config.filename@ == args@[1]@),
            args@.len() < 2 ==> (result matches Err(message) && message@ == NO_FILENAME@),
    {
        if args.len() < 2 {
            return Err(NO_FILENAME);
        }
        let mut rest = args;
        let filename = rest.remove(1);
        Ok(Config { filename })
    }
}

} // verus!
