//! Working on the configuration file: the command that opens it in an editor.

use crate::text::{drop_last_char, without_last};
use vstd::prelude::*;
use vstd::string::StringExecFns;

verus! {

/// The command that works on the configuration file.
#[derive(Debug, Clone, Copy, PartialEq, Eq, Structural)]
pub struct ConfigCmd {}

impl ConfigCmd {
    /// The command line that opens the configuration file in the editor that
    /// the user named: the line that was read from the user, without the line
    /// break that ends it, then a blank and the path of the file.
    pub fn editor_command(answer: &str, config_file: &str) -> (command: String)
        ensures
            command@ == without_last(answer@) + " "@ + config_file@,
    {
        String::from_str(drop_last_char(answer)).concat(" ").concat(config_file)
    }
}

} // verus!
