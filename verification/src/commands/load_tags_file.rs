//! The LoadTagsFile command: names a tags file to load into the index. The
//! command itself only extracts and validates the path; reading the file is
//! the transport's work, and the parsed lines come back to the index through
//! the server's load step.

use vstd::prelude::*;

use crate::commands::args::arg_token;
use crate::commands::args::arg_after_command;
use crate::text::is_prefix_of;
use crate::text::str_starts_with;

verus! {

#[derive(Clone, Copy)]
pub struct LoadTagsFileCommand {}

/// The path named by a load request: the token after the command word,
/// trimmed.
pub open spec fn load_path(req: Seq<char>) -> Seq<char> {
    arg_token(req)
}

impl LoadTagsFileCommand {
    pub fn new() -> (r: LoadTagsFileCommand) {
        LoadTagsFileCommand {}
    }

    pub fn can_execute(&self, command: &str) -> (r: bool)
        ensures
            r == is_prefix_of("load-tags-file "@, command@),
    {
        str_starts_with(command, "load-tags-file ")
    }

    /// The path the request asks to load.
    pub fn requested_path(&self, command: &str) -> (r: String)
        ensures
            r@ == load_path(command@),
    {
        String::from_str(arg_after_command(command))
    }
}

} // verus!
