//! The command-dispatch protocol: an ordered set of registered commands and
//! the tag index they query. One request line comes in; the first command
//! whose predicate accepts it runs; one response line goes out. A request
//! that no predicate accepts gets the fixed unrecognized-command line.
//!
//! Loading a tags file needs the transport to read the file, so a load
//! request dispatches to a load action naming the path; the transport reads
//! the file's lines and hands them back through `finish_load`.

use vstd::prelude::*;

use crate::commands::Command;
use crate::commands::args::invalid_argument_text;
use crate::commands::args::invalid_argument_reply;
use crate::commands::load_tags_file::load_path;
use crate::tags::TagDatabase;
use crate::tags::tag_file::parsed_records;
use crate::tags::tag_file::malformed_indices;
use crate::tags::tag_definition::views_of;

verus! {

/// One registered request handler: a predicate on the request line, and the
/// query it runs against the index when the predicate accepts.
pub trait ServerCommand {
    /// Whether this command handles the request.
    spec fn spec_can(&self, req: Seq<char>) -> bool;

    /// The response line for the request, against the given index.
    spec fn spec_reply(&self, req: Seq<char>, tag_database: TagDatabase) -> Seq<char>;

    fn can_execute(&self, command: &str) -> (r: bool)
        ensures
            r == self.spec_can(command@),
    ;

    fn execute(&self, command: &str, tag_database: &mut TagDatabase) -> (r: String)
        requires
            old(tag_database).wf(),
        ensures
            r@ == self.spec_reply(command@, *old(tag_database)),
            *final(tag_database) == *old(tag_database),
    ;
}

/// What the dispatcher asks the transport to do with a request: send a
/// response line back, or read the named tags file and hand its lines to
/// `Server::finish_load`.
pub enum ServerResponse {
    Reply(String),
    LoadFile(String),
}

/// Whether dispatching `req` over the registered commands `cs` selects the
/// load action: the first command whose predicate accepts `req` is the load
/// command and the request names a path.
pub open spec fn dispatch_is_load(cs: Seq<Command>, req: Seq<char>) -> bool
    decreases cs.len()
{
    if cs.len() == 0 {
        false
    } else if cs[0].spec_can(req) {
        cs[0].spec_is_load(req)
    } else {
        dispatch_is_load(cs.drop_first(), req)
    }
}

/// The text that dispatching `req` over `cs` against `db` produces: the
/// selected command's reply (or, for a load, the path to read), or the
/// fixed unrecognized-command line when no predicate accepts the request.
pub open spec fn dispatch_text(cs: Seq<Command>, req: Seq<char>, db: TagDatabase) -> Seq<char>
    decreases cs.len()
{
    if cs.len() == 0 {
        "Unrecognized command"@
    } else if cs[0].spec_can(req) {
        cs[0].spec_text(req, db)
    } else {
        dispatch_text(cs.drop_first(), req, db)
    }
}

/// A request that no registered predicate accepts yields exactly the
/// unrecognized-command line, never a load action.
pub proof fn lemma_unrecognized_command(cs: Seq<Command>, req: Seq<char>, db: TagDatabase)
    requires
        forall|i: int| 0 <= i < cs.len() ==> !(#[trigger] cs[i]).spec_can(req),
    ensures
        dispatch_text(cs, req, db) == "Unrecognized command"@,
        !dispatch_is_load(cs, req),
    decreases cs.len(),
{
    if cs.len() > 0 {
        let d = cs.drop_first();
        assert(forall|i: int| 0 <= i < d.len() ==> d[i] == cs[i + 1]);
        assert forall|i: int| 0 <= i < d.len() implies !(#[trigger] d[i]).spec_can(req) by {
            assert(d[i] == cs[i + 1]);
        }
        lemma_unrecognized_command(d, req, db);
    }
}

/// The dispatcher: the registered commands in registration order, the tag
/// index they query, and a request counter used only for diagnostic
/// correlation.
pub struct Server {
    pub commands: Vec<Command>,
    pub tag_database: TagDatabase,
    pub command_index: usize,
}

impl Server {
    /// A dispatcher with no commands and an empty index.
    pub fn new() -> (r: Server)
        ensures
            r.commands@ =~= Seq::<Command>::empty(),
            r.tag_database.tag_files@ =~= Seq::<crate::tags::TagFile>::empty(),
            r.tag_database.wf(),
            r.command_index == 0,
    {
        Server { commands: Vec::new(), tag_database: TagDatabase::new(), command_index: 0 }
    }

    /// Registers a command; registration order is dispatch order.
    pub fn add_command(&mut self, command: Command)
        ensures
            final(self).commands@ == old(self).commands@.push(command),
            final(self).tag_database == old(self).tag_database,
            final(self).command_index == old(self).command_index,
    {
        self.commands.push(command);
    }

    /// Dispatches one request line: counts it, scans the registered
    /// commands in order, and runs the first whose predicate accepts the
    /// request. The index is never changed here; a load request comes back
    /// as a `LoadFile` action for the transport.
    pub fn execute(&mut self, request: &str) -> (r: ServerResponse)
        requires
            old(self).tag_database.wf(),
        ensures
            final(self).commands@ == old(self).commands@,
            final(self).tag_database == old(self).tag_database,
            final(self).command_index == (
                if old(self).command_index < usize::MAX {
                    old(self).command_index + 1
                } else {
                    0
                }
            ),
            match r {
                ServerResponse::Reply(s) => {
                    &&& !dispatch_is_load(old(self).commands@, request@)
                    &&& s@ == dispatch_text(old(self).commands@, request@, old(self).tag_database)
                },
                ServerResponse::LoadFile(p) => {
                    &&& dispatch_is_load(old(self).commands@, request@)
                    &&& p@ == dispatch_text(old(self).commands@, request@, old(self).tag_database)
                },
            },
    {
        if self.command_index < usize::MAX {
            self.command_index = self.command_index + 1;
        } else {
            self.command_index = 0;
        }

        let ghost cs = self.commands@;
        let ghost db0 = self.tag_database;
        let n = self.commands.len();
        proof {
            assert(cs.subrange(0, n as int) =~= cs);
        }
        let mut i: usize = 0;
        while i < n
            invariant
                0 <= i <= n,
                n == self.commands@.len(),
                cs == self.commands@,
                cs == old(self).commands@,
                db0 == self.tag_database,
                db0 == old(self).tag_database,
                self.command_index == (
                    if old(self).command_index < usize::MAX {
                        old(self).command_index + 1
                    } else {
                        0
                    }
                ),
                self.tag_database.wf(),
                dispatch_is_load(cs, request@)
                    == dispatch_is_load(cs.subrange(i as int, n as int), request@),
                dispatch_text(cs, request@, db0)
                    == dispatch_text(cs.subrange(i as int, n as int), request@, db0),
            decreases n - i,
        {
            let ghost suffix = cs.subrange(i as int, n as int);
            proof {
                assert(suffix.len() > 0);
                assert(suffix[0] == cs[i as int]);
                assert(suffix.drop_first() =~= cs.subrange(i + 1, n as int));
            }
            let cmd = self.commands[i];
            let can = cmd.can_execute(request);
            if can {
                let r = match cmd {
                    Command::Echo(c) => ServerResponse::Reply(
                        c.execute(request, &mut self.tag_database),
                    ),
                    Command::Describe(c) => ServerResponse::Reply(
                        c.execute(request, &mut self.tag_database),
                    ),
                    Command::Find(c) => ServerResponse::Reply(
                        c.execute(request, &mut self.tag_database),
                    ),
                    Command::FindOtherFile(c) => ServerResponse::Reply(
                        c.execute(request, &mut self.tag_database),
                    ),
                    Command::LoadTagsFile(c) => {
                        let path = c.requested_path(request);
                        if path.as_str().is_empty() {
                            assert(load_path(request@).len() == 0);
                            ServerResponse::Reply(invalid_argument_reply())
                        } else {
                            ServerResponse::LoadFile(path)
                        }
                    },
                };
                return r;
            }
            i = i + 1;
        }
        proof {
            assert(cs.subrange(i as int, n as int).len() == 0);
        }
        ServerResponse::Reply(String::from_str("Unrecognized command"))
    }

    /// Appends a freshly read tags file to the index: the load step of a
    /// `LoadFile` action. Replies with the fixed done-line and the indices
    /// of the lines that were malformed and skipped.
    pub fn finish_load(&mut self, file_path: &str, lines: &Vec<String>) -> (r: (String, Vec<usize>))
        requires
            old(self).tag_database.wf(),
        ensures
            final(self).commands@ == old(self).commands@,
            final(self).command_index == old(self).command_index,
            final(self).tag_database.wf(),
            final(self).tag_database.tag_files@.len()
                == old(self).tag_database.tag_files@.len() + 1,
            final(self).tag_database.tag_files@.subrange(
                0,
                old(self).tag_database.tag_files@.len() as int,
            ) == old(self).tag_database.tag_files@,
            final(self).tag_database.tag_files@.last().file_path@ == file_path@,
            views_of(final(self).tag_database.tag_files@.last().tags@)
                == parsed_records(lines.deep_view()),
            r.0@ == "Done"@,
            r.1@ == malformed_indices(lines.deep_view()),
    {
        let errs = self.tag_database.parse_file(file_path, lines);
        (String::from_str("Done"), errs)
    }
}

} // verus!
