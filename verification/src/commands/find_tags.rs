//! The Find command: takes the trailing argument as a query and replies
//! with the rendering of the first record of the index whose name the
//! abbreviation matcher accepts, or the literal `nil` when none does.

use vstd::prelude::*;

use crate::commands::args::split_args_spec;
use crate::commands::args::split_args;
use crate::commands::args::invalid_argument_text;
use crate::commands::args::invalid_argument_reply;
use crate::search::abbrev_matches;
use crate::search::match_abbrev;
use crate::server::ServerCommand;
use crate::tags::TagDatabase;
use crate::tags::TagDefinition;
use crate::tags::lemma_records_of_wf;
use crate::tags::tag_definition::spec_elisp;
use crate::text::is_prefix_of;
use crate::text::str_starts_with;

verus! {

#[derive(Clone, Copy)]
pub struct FindTagsCommand {}

impl FindTagsCommand {
    pub fn new() -> (r: FindTagsCommand) {
        FindTagsCommand {}
    }

    /// Replies with the rendering of the first record whose name matches
    /// the query, or `nil` when none does.
    pub fn do_execute(&self, tag_name: &str, tag_database: &TagDatabase) -> (r: String)
        requires
            tag_database.wf(),
        ensures
            r@ == scan_reply(tag_name@, *tag_database),
    {
        proof {
            lemma_records_of_wf(tag_database.tag_files@);
            lemma_first_abbrev(tag_database.records(), tag_name@);
        }
        let all = tag_database.all_tags();
        let n = all.len();
        let mut i: usize = 0;
        while i < n
            invariant
                0 <= i <= n,
                n == all@.len(),
                n == tag_database.records().len(),
                tag_database.wf(),
                forall|j: int| 0 <= j < n ==> *all@[j] == tag_database.records()[j],
                forall|j: int| 0 <= j < n
                    ==> (#[trigger] tag_database.records()[j]).wf(),
                forall|j: int| 0 <= j < i
                    ==> !abbrev_matches(
                        (#[trigger] tag_database.records()[j])@.name,
                        tag_name@,
                    ),
            decreases n - i,
        {
            let tag = all[i];
            proof {
                assert(*all@[i as int] == tag_database.records()[i as int]);
                assert(tag_database.records()[i as int].wf());
            }
            if match_abbrev(tag.name(), tag_name) {
                proof {
                    lemma_first_abbrev(tag_database.records(), tag_name@);
                    assert(first_abbrev(tag_database.records(), tag_name@)
                        == Some(i as int));
                }
                return tag.to_elisp();
            }
            i = i + 1;
        }
        proof {
            lemma_first_abbrev(tag_database.records(), tag_name@);
            assert(first_abbrev(tag_database.records(), tag_name@) is None);
        }
        String::from_str("nil")
    }
}

/// Index of the first record whose name the abbreviation matcher accepts
/// for the query `q`, if there is one.
pub open spec fn first_abbrev(recs: Seq<TagDefinition>, q: Seq<char>) -> Option<int>
    decreases recs.len()
{
    if recs.len() == 0 {
        None
    } else if abbrev_matches(recs[0]@.name, q) {
        Some(0)
    } else {
        match first_abbrev(recs.drop_first(), q) {
            None => None,
            Some(i) => Some(i + 1),
        }
    }
}

pub proof fn lemma_first_abbrev(recs: Seq<TagDefinition>, q: Seq<char>)
    ensures
        match first_abbrev(recs, q) {
            Some(i) => 0 <= i < recs.len() && abbrev_matches(recs[i]@.name, q)
                && forall|j: int| 0 <= j < i ==> !abbrev_matches(
                    (#[trigger] recs[j])@.name, q),
            None => forall|j: int| 0 <= j < recs.len() ==> !abbrev_matches(
                (#[trigger] recs[j])@.name, q),
        },
    decreases recs.len(),
{
    if recs.len() > 0 && !abbrev_matches(recs[0]@.name, q) {
        let d = recs.drop_first();
        lemma_first_abbrev(d, q);
        assert(forall|j: int| 0 <= j < d.len() ==> d[j] == recs[j + 1]);
        match first_abbrev(d, q) {
            None => {
                assert forall|j: int| 0 <= j < recs.len()
                    implies !abbrev_matches((#[trigger] recs[j])@.name, q) by {
                    if j >= 1 {
                        assert(d[j - 1] == recs[j]);
                    }
                }
            },
            Some(i) => {
                assert(d[i] == recs[i + 1]);
                assert forall|j: int| 0 <= j < i + 1
                    implies !abbrev_matches((#[trigger] recs[j])@.name, q) by {
                    if j >= 1 {
                        assert(d[j - 1] == recs[j]);
                    }
                }
            },
        }
    }
}

/// The reply of a scan for the query `q`: the rendering of the first record
/// whose name matches, or `nil`.
pub open spec fn scan_reply(q: Seq<char>, db: TagDatabase) -> Seq<char> {
    match first_abbrev(db.records(), q) {
        Some(i) => spec_elisp(db.records()[i]@),
        None => "nil"@,
    }
}

/// The Find reply: the query is the last token of the request; a request
/// with no token after the command word is an invalid argument.
pub open spec fn find_reply(req: Seq<char>, db: TagDatabase) -> Seq<char> {
    let args = split_args_spec(req);
    if args.len() < 2 {
        invalid_argument_text()
    } else {
        scan_reply(args.last(), db)
    }
}

impl ServerCommand for FindTagsCommand {
    open spec fn spec_can(&self, req: Seq<char>) -> bool {
        is_prefix_of("find "@, req)
    }

    open spec fn spec_reply(&self, req: Seq<char>, tag_database: TagDatabase) -> Seq<char> {
        find_reply(req, tag_database)
    }

    fn can_execute(&self, command: &str) -> (r: bool) {
        str_starts_with(command, "find ")
    }

    fn execute(&self, command: &str, tag_database: &mut TagDatabase) -> (r: String) {
        let args = split_args(command);
        if args.len() < 2 {
            invalid_argument_reply()
        } else {
            let tag_name = &args[args.len() - 1];
            assert(tag_name@ == split_args_spec(command@).last());
            self.do_execute(tag_name.as_str(), tag_database)
        }
    }
}

} // verus!
