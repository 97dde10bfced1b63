//! The query commands of the protocol: each one a self-contained query or
//! mutation against the tag index, selected by a textual-prefix predicate on
//! the request line, and dispatched first-match-wins in registration order.

pub mod args;
pub mod describe_tag;
pub mod echo;
pub mod find_other_file;
pub mod find_tags;
pub mod load_tags_file;

pub use describe_tag::DescribeTagCommand as DescribeTag;
pub use echo::EchoCommand as Echo;
pub use find_other_file::FindOtherFileCommand as FindOtherFile;
pub use find_tags::FindTagsCommand as FindTags;
pub use load_tags_file::LoadTagsFileCommand as LoadTagsFile;

use vstd::prelude::*;

use crate::commands::args::invalid_argument_text;
use crate::commands::load_tags_file::load_path;
use crate::server::ServerCommand;
use crate::tags::TagDatabase;
use crate::text::is_prefix_of;

verus! {

/// A registered command of the dispatcher.
#[derive(Clone, Copy)]
pub enum Command {
    Echo(echo::EchoCommand),
    Describe(describe_tag::DescribeTagCommand),
    Find(find_tags::FindTagsCommand),
    FindOtherFile(find_other_file::FindOtherFileCommand),
    LoadTagsFile(load_tags_file::LoadTagsFileCommand),
}

impl Command {
    /// Whether this command handles the request.
    pub open spec fn spec_can(&self, req: Seq<char>) -> bool {
        match self {
            Command::Echo(c) => c.spec_can(req),
            Command::Describe(c) => c.spec_can(req),
            Command::Find(c) => c.spec_can(req),
            Command::FindOtherFile(c) => c.spec_can(req),
            Command::LoadTagsFile(_) => is_prefix_of("load-tags-file "@, req),
        }
    }

    /// Whether the command turns the request into a load action for the
    /// transport: only a load request naming a path does.
    pub open spec fn spec_is_load(&self, req: Seq<char>) -> bool {
        match self {
            Command::LoadTagsFile(_) => load_path(req).len() > 0,
            _ => false,
        }
    }

    /// The reply text of the command against `db`, or, for a load action,
    /// the path of the file to read.
    pub open spec fn spec_text(&self, req: Seq<char>, db: TagDatabase) -> Seq<char> {
        match self {
            Command::Echo(c) => c.spec_reply(req, db),
            Command::Describe(c) => c.spec_reply(req, db),
            Command::Find(c) => c.spec_reply(req, db),
            Command::FindOtherFile(c) => c.spec_reply(req, db),
            Command::LoadTagsFile(_) => if load_path(req).len() > 0 {
                load_path(req)
            } else {
                invalid_argument_text()
            },
        }
    }

    /// Whether this command's predicate accepts the request.
    pub fn can_execute(&self, command: &str) -> (r: bool)
        ensures
            r == self.spec_can(command@),
    {
        match self {
            Command::Echo(c) => c.can_execute(command),
            Command::Describe(c) => c.can_execute(command),
            Command::Find(c) => c.can_execute(command),
            Command::FindOtherFile(c) => c.can_execute(command),
            Command::LoadTagsFile(c) => c.can_execute(command),
        }
    }
}

} // verus!
