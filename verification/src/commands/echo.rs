//! The Echo command: replies with everything after the first space of the
//! request, verbatim.

use vstd::prelude::*;

use crate::server::ServerCommand;
use crate::tags::TagDatabase;
use crate::text::find_char_from;
use crate::text::find_char;
use crate::text::is_prefix_of;
use crate::text::str_starts_with;

verus! {

#[derive(Clone, Copy)]
pub struct EchoCommand;

impl EchoCommand {
    pub fn new() -> (r: EchoCommand) {
        EchoCommand {}
    }
}

/// The Echo reply: everything after the first space of the request, or
/// empty when the request has no space.
pub open spec fn echo_reply(req: Seq<char>) -> Seq<char> {
    match find_char_from(req, ' ', 0) {
        None => Seq::empty(),
        Some(v) => req.subrange(v + 1, req.len() as int),
    }
}

impl ServerCommand for EchoCommand {
    open spec fn spec_can(&self, req: Seq<char>) -> bool {
        is_prefix_of("echo "@, req)
    }

    open spec fn spec_reply(&self, req: Seq<char>, tag_database: TagDatabase) -> Seq<char> {
        echo_reply(req)
    }

    fn can_execute(&self, command: &str) -> (r: bool) {
        str_starts_with(command, "echo ")
    }

    fn execute(&self, command: &str, tag_database: &mut TagDatabase) -> (r: String) {
        let len = command.unicode_len();
        match find_char(command, ' ', 0) {
            None => String::new(),
            Some(v) => String::from_str(command.substring_char(v + 1, len)),
        }
    }
}

} // verus!
