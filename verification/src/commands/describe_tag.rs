//! The Describe command: parses a `-k/--kind <kind>` option and a trailing
//! tag-name argument, then replies with the rendering of the first record of
//! the index whose kind and name both match, or empty text when none does.

use vstd::prelude::*;

use crate::commands::args::split_args_spec;
use crate::commands::args::split_args;
use crate::server::ServerCommand;
use crate::tags::TagDatabase;
use crate::tags::TagDefinition;
use crate::tags::TagKind;
use crate::tags::kind_of_name;
use crate::tags::tag_kind_from_str;
use crate::tags::lemma_records_of_wf;
use crate::tags::tag_definition::spec_elisp;
use crate::text::is_prefix_of;
use crate::text::str_starts_with;
use crate::text::str_eq;
use crate::text::lower_of;

verus! {

#[derive(Clone, Copy)]
pub struct DescribeTagCommand {}

/// The outcome of parsing a request's tokens against the option `-k/--kind
/// NAME`: the option's value if it was given, `None` if it was not, or
/// getopts' error message. It depends on the tokens alone.
pub uninterp spec fn kind_opt_parse(args: Seq<Seq<char>>) -> Result<Option<Seq<char>>, Seq<char>>;

/// Relies on getopts 0.2 (`Options::new`, `Options::optopt`,
/// `Options::parse`, `Matches::opt_str` and the `Display` of `Fail`):
/// parses `args` against the single option `-k/--kind NAME` and returns the
/// option's value, `None` when the option is absent, or the parse failure's
/// message. For an option declared with `optopt` the value is present
/// exactly when the option is.
#[verifier::external_body]
fn parse_kind_option(args: &Vec<String>) -> (r: Result<Option<String>, String>)
    ensures
        match r {
            Ok(k) => kind_opt_parse(args.deep_view())
                == Ok::<Option<Seq<char>>, Seq<char>>(k.deep_view()),
            Err(e) => kind_opt_parse(args.deep_view())
                == Err::<Option<Seq<char>>, Seq<char>>(e@),
        },
{
    let mut options = getopts::Options::new();
    options.optopt("k", "kind", "tag kind", "NAME");
    match options.parse(args) {
        Ok(m) => Ok(m.opt_str("kind")),
        Err(f) => Err(f.to_string()),
    }
}

/// Index of the first record with the kind `kind` and the exact name
/// `name`, if there is one.
pub open spec fn first_kind_name(recs: Seq<TagDefinition>, kind: TagKind, name: Seq<char>) -> Option<int>
    decreases recs.len()
{
    if recs.len() == 0 {
        None
    } else if recs[0]@.kind == kind && recs[0]@.name == name {
        Some(0)
    } else {
        match first_kind_name(recs.drop_first(), kind, name) {
            None => None,
            Some(i) => Some(i + 1),
        }
    }
}

pub proof fn lemma_first_kind_name(recs: Seq<TagDefinition>, kind: TagKind, name: Seq<char>)
    ensures
        match first_kind_name(recs, kind, name) {
            Some(i) => 0 <= i < recs.len()
                && recs[i]@.kind == kind && recs[i]@.name == name
                && forall|j: int| 0 <= j < i
                    ==> !((#[trigger] recs[j])@.kind == kind && recs[j]@.name == name),
            None => forall|j: int| 0 <= j < recs.len()
                ==> !((#[trigger] recs[j])@.kind == kind && recs[j]@.name == name),
        },
    decreases recs.len(),
{
    if recs.len() > 0 && !(recs[0]@.kind == kind && recs[0]@.name == name) {
        let d = recs.drop_first();
        lemma_first_kind_name(d, kind, name);
        assert(forall|j: int| 0 <= j < d.len() ==> d[j] == recs[j + 1]);
        match first_kind_name(d, kind, name) {
            None => {
                assert forall|j: int| 0 <= j < recs.len()
                    implies !((#[trigger] recs[j])@.kind == kind
                        && recs[j]@.name == name) by {
                    if j >= 1 {
                        assert(d[j - 1] == recs[j]);
                    }
                }
            },
            Some(i) => {
                assert(d[i] == recs[i + 1]);
                assert forall|j: int| 0 <= j < i + 1
                    implies !((#[trigger] recs[j])@.kind == kind
                        && recs[j]@.name == name) by {
                    if j >= 1 {
                        assert(d[j - 1] == recs[j]);
                    }
                }
            },
        }
    }
}

/// The reply of a describe scan: the rendering of the first record whose
/// kind is named by `kind_text` (case-insensitively) and whose name equals
/// `name` exactly, or empty text when none matches.
pub open spec fn describe_scan_reply(name: Seq<char>, kind_text: Seq<char>, db: TagDatabase) -> Seq<char> {
    let kind = kind_of_name(lower_of(kind_text));
    match first_kind_name(db.records(), kind, name) {
        Some(i) => spec_elisp(db.records()[i]@),
        None => Seq::empty(),
    }
}

/// The usage line replied when the request names no kind.
pub open spec fn usage_text() -> Seq<char> {
    "describe -k <tag_kind> <tag_name>"@
}

/// The Describe reply: the tag name is the last token; the kind comes from
/// the `-k/--kind` option; a request without the option gets the usage
/// line, and an option-parse failure gets getopts' message.
pub open spec fn describe_reply(req: Seq<char>, db: TagDatabase) -> Seq<char> {
    let args = split_args_spec(req);
    if args.len() == 0 {
        usage_text()
    } else {
        match kind_opt_parse(args) {
            Err(e) => e,
            Ok(None) => usage_text(),
            Ok(Some(k)) => describe_scan_reply(args.last(), k, db),
        }
    }
}

impl DescribeTagCommand {
    pub fn new() -> (r: DescribeTagCommand) {
        DescribeTagCommand {}
    }

    /// Replies with the rendering of the first record whose kind and name
    /// both match, or empty text when none does.
    pub fn do_execute(&self, tag_name: &str, tag_kind: &str, tag_database: &TagDatabase) -> (r: String)
        requires
            tag_database.wf(),
        ensures
            r@ == describe_scan_reply(tag_name@, tag_kind@, *tag_database),
    {
        let kind = tag_kind_from_str(tag_kind);
        let ghost recs = tag_database.records();
        proof {
            lemma_records_of_wf(tag_database.tag_files@);
            lemma_first_kind_name(recs, kind, tag_name@);
        }
        let all = tag_database.all_tags();
        let n = all.len();
        let mut i: usize = 0;
        while i < n
            invariant
                0 <= i <= n,
                n == all@.len(),
                n == recs.len(),
                recs == tag_database.records(),
                kind == kind_of_name(lower_of(tag_kind@)),
                forall|j: int| 0 <= j < n ==> *all@[j] == recs[j],
                forall|j: int| 0 <= j < n ==> (#[trigger] recs[j]).wf(),
                forall|j: int| 0 <= j < i
                    ==> !((#[trigger] recs[j])@.kind == kind && recs[j]@.name == tag_name@),
            decreases n - i,
        {
            let tag = all[i];
            proof {
                assert(*all@[i as int] == recs[i as int]);
                assert(recs[i as int].wf());
            }
            if tag.kind() == kind && str_eq(tag.name(), tag_name) {
                proof {
                    lemma_first_kind_name(recs, kind, tag_name@);
                    assert(first_kind_name(recs, kind, tag_name@) == Some(i as int));
                }
                return tag.to_elisp();
            }
            i = i + 1;
        }
        proof {
            lemma_first_kind_name(recs, kind, tag_name@);
            assert(first_kind_name(recs, kind, tag_name@) is None);
        }
        String::new()
    }

    /// The usage line.
    pub fn usage_help(&self) -> (r: String)
        ensures
            r@ == usage_text(),
    {
        String::from_str("describe -k <tag_kind> <tag_name>")
    }
}

impl ServerCommand for DescribeTagCommand {
    open spec fn spec_can(&self, req: Seq<char>) -> bool {
        is_prefix_of("describe "@, req)
    }

    open spec fn spec_reply(&self, req: Seq<char>, tag_database: TagDatabase) -> Seq<char> {
        describe_reply(req, tag_database)
    }

    fn can_execute(&self, command: &str) -> (r: bool) {
        str_starts_with(command, "describe ")
    }

    fn execute(&self, command: &str, tag_database: &mut TagDatabase) -> (r: String) {
        let args = split_args(command);
        if args.len() == 0 {
            return self.usage_help();
        }
        let tag_name = args[args.len() - 1].clone();
        assert(tag_name@ == split_args_spec(command@).last());
        match parse_kind_option(&args) {
            Err(e) => e,
            Ok(None) => self.usage_help(),
            Ok(Some(kind)) => self.do_execute(tag_name.as_str(), kind.as_str(), tag_database),
        }
    }
}

} // verus!
