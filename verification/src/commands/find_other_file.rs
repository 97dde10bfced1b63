//! The FindOtherFile command: takes a file path, looks up the companion
//! extensions of its extension in a fixed mapping (`cpp`/`c` against
//! `h`/`hpp`), and replies with the source-file path of the first record
//! whose name is a companion file name: same stem, companion extension.

use vstd::prelude::*;

use crate::commands::args::arg_token;
use crate::commands::args::arg_after_command;
use crate::server::ServerCommand;
use crate::tags::TagDatabase;
use crate::tags::TagDefinition;
use crate::tags::lemma_records_of_wf;
use crate::tags::tag_definition::basename;
use crate::text::is_prefix_of;
use crate::text::str_starts_with;
use crate::text::str_eq;
use crate::text::rfind_char_before;
use crate::text::rfind_char;

verus! {

#[derive(Clone, Copy)]
pub struct FindOtherFileCommand {}

/// The extension of the path `p`: the portion of its final component after
/// the last `.`, or none when there is no `.` past the component's first
/// character.
pub open spec fn extension_of(p: Seq<char>) -> Option<Seq<char>> {
    let b = basename(p);
    match rfind_char_before(b, '.', b.len() as int) {
        Some(d) => if d > 0 {
            Some(b.subrange(d + 1, b.len() as int))
        } else {
            None
        },
        None => None,
    }
}

/// The stem of the path `p`: its final component up to the last `.`, or the
/// whole component when it has no extension.
pub open spec fn stem_of(p: Seq<char>) -> Seq<char> {
    let b = basename(p);
    match rfind_char_before(b, '.', b.len() as int) {
        Some(d) => if d > 0 {
            b.subrange(0, d)
        } else {
            b
        },
        None => b,
    }
}

/// The fixed companion-extension mapping: implementation extensions map to
/// header extensions and back; any other extension has no companions.
pub open spec fn spec_companions(ext: Seq<char>) -> Seq<Seq<char>> {
    if ext == "cpp"@ || ext == "c"@ {
        seq!["h"@, "hpp"@]
    } else if ext == "h"@ || ext == "hpp"@ {
        seq!["c"@, "cpp"@]
    } else {
        Seq::empty()
    }
}

/// Whether the file name `name` is a companion of a file with the stem
/// `file_stem`: equal stem, and an extension among `exts`.
pub open spec fn spec_match_other(name: Seq<char>, file_stem: Seq<char>, exts: Seq<Seq<char>>) -> bool {
    &&& match extension_of(name) {
        Some(e) => exts.contains(e),
        None => false,
    }
    &&& stem_of(name) == file_stem
}

/// Index of the first record whose name is a companion file name, if there
/// is one.
pub open spec fn first_other(recs: Seq<TagDefinition>, file_stem: Seq<char>, exts: Seq<Seq<char>>) -> Option<int>
    decreases recs.len()
{
    if recs.len() == 0 {
        None
    } else if spec_match_other(recs[0]@.name, file_stem, exts) {
        Some(0)
    } else {
        match first_other(recs.drop_first(), file_stem, exts) {
            None => None,
            Some(i) => Some(i + 1),
        }
    }
}

pub proof fn lemma_first_other(recs: Seq<TagDefinition>, file_stem: Seq<char>, exts: Seq<Seq<char>>)
    ensures
        match first_other(recs, file_stem, exts) {
            Some(i) => 0 <= i < recs.len()
                && spec_match_other(recs[i]@.name, file_stem, exts)
                && forall|j: int| 0 <= j < i
                    ==> !spec_match_other((#[trigger] recs[j])@.name, file_stem, exts),
            None => forall|j: int| 0 <= j < recs.len()
                ==> !spec_match_other((#[trigger] recs[j])@.name, file_stem, exts),
        },
    decreases recs.len(),
{
    if recs.len() > 0 && !spec_match_other(recs[0]@.name, file_stem, exts) {
        let d = recs.drop_first();
        lemma_first_other(d, file_stem, exts);
        assert(forall|j: int| 0 <= j < d.len() ==> d[j] == recs[j + 1]);
        match first_other(d, file_stem, exts) {
            None => {
                assert forall|j: int| 0 <= j < recs.len()
                    implies !spec_match_other(
                        (#[trigger] recs[j])@.name, file_stem, exts) by {
                    if j >= 1 {
                        assert(d[j - 1] == recs[j]);
                    }
                }
            },
            Some(i) => {
                assert(d[i] == recs[i + 1]);
                assert forall|j: int| 0 <= j < i + 1
                    implies !spec_match_other(
                        (#[trigger] recs[j])@.name, file_stem, exts) by {
                    if j >= 1 {
                        assert(d[j - 1] == recs[j]);
                    }
                }
            },
        }
    }
}

/// The FindOtherFile reply: empty text when the argument path has no
/// extension; else the source-file path of the first companion record, or
/// the fixed not-found line.
pub open spec fn find_other_reply(req: Seq<char>, db: TagDatabase) -> Seq<char> {
    let path = arg_token(req);
    match extension_of(path) {
        None => Seq::empty(),
        Some(e) => match first_other(db.records(), stem_of(path), spec_companions(e)) {
            Some(i) => db.records()[i]@.source_file,
            None => "Other file not found."@,
        },
    }
}

/// The final component of the path `p`.
fn basename_str<'a>(p: &'a str) -> (r: &'a str)
    ensures
        r@ == basename(p@),
{
    let len = p.unicode_len();
    let start = match rfind_char(p, '/') {
        Some(i) => i + 1,
        None => 0,
    };
    p.substring_char(start, len)
}

/// The extension and stem of the path `p`, as `basename`, `extension_of`
/// and `stem_of` give them.
fn split_extension<'a>(p: &'a str) -> (r: (Option<&'a str>, &'a str))
    ensures
        match r.0 {
            Some(e) => extension_of(p@) == Some(e@),
            None => extension_of(p@) is None,
        },
        r.1@ == stem_of(p@),
{
    let base = basename_str(p);
    let base_len = base.unicode_len();
    match rfind_char(base, '.') {
        Some(d) => {
            if d > 0 {
                (Some(base.substring_char(d + 1, base_len)), base.substring_char(0, d))
            } else {
                (None, base)
            }
        },
        None => (None, base),
    }
}

impl FindOtherFileCommand {
    pub fn new() -> (r: FindOtherFileCommand) {
        FindOtherFileCommand {}
    }

    /// The companion extensions of `ext` under the fixed mapping.
    pub fn companion_extensions(&self, ext: &str) -> (r: Vec<String>)
        ensures
            r.deep_view() == spec_companions(ext@),
    {
        let mut out: Vec<String> = Vec::new();
        if str_eq(ext, "cpp") || str_eq(ext, "c") {
            out.push(String::from_str("h"));
            out.push(String::from_str("hpp"));
            assert(out.deep_view() =~~= spec_companions(ext@));
        } else if str_eq(ext, "h") || str_eq(ext, "hpp") {
            out.push(String::from_str("c"));
            out.push(String::from_str("cpp"));
            assert(out.deep_view() =~~= spec_companions(ext@));
        } else {
            assert(out.deep_view() =~~= spec_companions(ext@));
        }
        out
    }

    /// Whether `other_file_name` names a companion file: its stem equals
    /// `file_stem` and its extension is one of `extensions`.
    pub fn match_other_file(other_file_name: &str, file_stem: &str, extensions: &Vec<String>) -> (r: bool)
        ensures
            r == spec_match_other(other_file_name@, file_stem@, extensions.deep_view()),
    {
        let (ext, stem) = split_extension(other_file_name);
        let extension_matches = match ext {
            None => false,
            Some(e) => {
                let mut found = false;
                let n = extensions.len();
                let mut i: usize = 0;
                while i < n && !found
                    invariant
                        0 <= i <= n,
                        n == extensions@.len(),
                        extension_of(other_file_name@) == Some(e@),
                        found ==> extensions.deep_view().contains(e@),
                        !found ==> forall|j: int| 0 <= j < i
                            ==> extensions.deep_view()[j] != e@,
                    decreases n - i, (if found { 0int } else { 1int }),
                {
                    if str_eq(e, extensions[i].as_str()) {
                        found = true;
                        assert(extensions.deep_view()[i as int] == e@);
                    } else {
                        assert(extensions.deep_view()[i as int] != e@);
                        i = i + 1;
                    }
                }
                proof {
                    if !found {
                        assert forall|j: int| 0 <= j < extensions.deep_view().len()
                            implies extensions.deep_view()[j] != e@ by {}
                        assert(!extensions.deep_view().contains(e@));
                    }
                }
                found
            },
        };
        let stem_matches = str_eq(stem, file_stem);
        stem_matches && extension_matches
    }
}

impl ServerCommand for FindOtherFileCommand {
    open spec fn spec_can(&self, req: Seq<char>) -> bool {
        is_prefix_of("find-other-file "@, req)
    }

    open spec fn spec_reply(&self, req: Seq<char>, tag_database: TagDatabase) -> Seq<char> {
        find_other_reply(req, tag_database)
    }

    fn can_execute(&self, command: &str) -> (r: bool) {
        str_starts_with(command, "find-other-file ")
    }

    fn execute(&self, command: &str, tag_database: &mut TagDatabase) -> (r: String) {
        let file_path = arg_after_command(command);
        let (ext, stem) = split_extension(file_path);
        let file_extension = match ext {
            None => {
                return String::new();
            },
            Some(e) => e,
        };
        let other_file_extensions = self.companion_extensions(file_extension);
        let ghost recs = tag_database.records();
        let ghost exts = spec_companions(file_extension@);
        proof {
            lemma_records_of_wf(tag_database.tag_files@);
            lemma_first_other(recs, stem_of(arg_token(command@)), exts);
        }
        let all = tag_database.all_tags();
        let n = all.len();
        let mut i: usize = 0;
        while i < n
            invariant
                0 <= i <= n,
                n == all@.len(),
                n == recs.len(),
                recs == tag_database.records(),
                exts == other_file_extensions.deep_view(),
                exts == spec_companions(file_extension@),
                extension_of(arg_token(command@)) == Some(file_extension@),
                stem@ == stem_of(arg_token(command@)),
                forall|j: int| 0 <= j < n ==> *all@[j] == recs[j],
                forall|j: int| 0 <= j < n ==> (#[trigger] recs[j]).wf(),
                forall|j: int| 0 <= j < i
                    ==> !spec_match_other(
                        (#[trigger] recs[j])@.name,
                        stem_of(arg_token(command@)),
                        exts,
                    ),
            decreases n - i,
        {
            let tag = all[i];
            proof {
                assert(*all@[i as int] == recs[i as int]);
                assert(recs[i as int].wf());
            }
            if FindOtherFileCommand::match_other_file(tag.name(), stem, &other_file_extensions) {
                proof {
                    lemma_first_other(recs, stem_of(arg_token(command@)), exts);
                    assert(first_other(recs, stem_of(arg_token(command@)), exts)
                        == Some(i as int));
                }
                return String::from_str(tag.source_file());
            }
            i = i + 1;
        }
        proof {
            lemma_first_other(recs, stem_of(arg_token(command@)), exts);
            assert(first_other(recs, stem_of(arg_token(command@)), exts) is None);
        }
        String::from_str("Other file not found.")
    }
}

} // verus!
