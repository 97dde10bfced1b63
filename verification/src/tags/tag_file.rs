//! A tags file in memory: the file's path and the ordered records parsed
//! from its contents. Lines beginning with `!_` are ctags metadata headers
//! and are skipped; a malformed line is reported by its index and skipped,
//! so it never aborts the load of the remaining file.

use vstd::prelude::*;

use crate::tags::TagDefinition;
use crate::tags::tag_definition::TagModel;
use crate::tags::tag_definition::parse_ok;
use crate::tags::tag_definition::spec_parse;
use crate::tags::tag_definition::views_of;
use crate::text::is_prefix_of;
use crate::text::str_starts_with;

verus! {

/// Whether a line is a ctags metadata header rather than a record.
pub open spec fn header_line(l: Seq<char>) -> bool {
    is_prefix_of(seq!['!', '_'], l)
}

/// The records parsed from `lines`, in order: every non-header line that
/// parses contributes one record; header lines and malformed lines
/// contribute none.
pub open spec fn parsed_records(lines: Seq<Seq<char>>) -> Seq<TagModel>
    decreases lines.len()
{
    if lines.len() == 0 {
        Seq::empty()
    } else {
        let rest = parsed_records(lines.drop_last());
        let l = lines.last();
        if !header_line(l) && parse_ok(l) {
            rest.push(spec_parse(l))
        } else {
            rest
        }
    }
}

/// The indices of the non-header lines that do not parse.
pub open spec fn malformed_indices(lines: Seq<Seq<char>>) -> Seq<usize>
    decreases lines.len()
{
    if lines.len() == 0 {
        Seq::empty()
    } else {
        let rest = malformed_indices(lines.drop_last());
        let l = lines.last();
        if !header_line(l) && !parse_ok(l) {
            rest.push((lines.len() - 1) as usize)
        } else {
            rest
        }
    }
}

/// One loaded tags file: its path and its parsed records, in file order.
pub struct TagFile {
    pub file_path: String,
    pub tags: Vec<TagDefinition>,
}

impl TagFile {
    /// Every record holds well-formed ranges.
    pub open spec fn wf(self) -> bool {
        forall|i: int| 0 <= i < self.tags@.len() ==> (#[trigger] self.tags@[i]).wf()
    }

    /// An empty tag file.
    pub fn new() -> (r: TagFile)
        ensures
            r.file_path@ =~= Seq::<char>::empty(),
            r.tags@ =~= Seq::<TagDefinition>::empty(),
            r.wf(),
    {
        TagFile { file_path: String::new(), tags: Vec::new() }
    }

    /// Parses the lines of a tags file read from `file_path`: header lines
    /// (beginning with `!_`) are skipped, every other line becomes a record,
    /// and a malformed line is skipped and reported by its index in the
    /// second component.
    pub fn from_lines(file_path: &str, lines: &Vec<String>) -> (r: (TagFile, Vec<usize>))
        ensures
            r.0.file_path@ == file_path@,
            r.0.wf(),
            views_of(r.0.tags@) == parsed_records(lines.deep_view()),
            r.1@ == malformed_indices(lines.deep_view()),
    {
        let ghost lv = lines.deep_view();
        let mut tags: Vec<TagDefinition> = Vec::new();
        let mut errs: Vec<usize> = Vec::new();
        proof {
            reveal_strlit("!_");
            assert("!_"@ =~= seq!['!', '_']);
            assert(lv.subrange(0, 0) =~= Seq::<Seq<char>>::empty());
            assert(views_of(tags@) =~= Seq::<TagModel>::empty());
            assert(errs@ =~= Seq::<usize>::empty());
        }
        let n = lines.len();
        let mut i: usize = 0;
        while i < n
            invariant
                0 <= i <= n,
                n == lines@.len(),
                lv == lines.deep_view(),
                lv.len() == n,
                forall|j: int| 0 <= j < n ==> lv[j] == lines@[j]@,
                views_of(tags@) == parsed_records(lv.subrange(0, i as int)),
                errs@ == malformed_indices(lv.subrange(0, i as int)),
                forall|j: int| 0 <= j < tags@.len() ==> (#[trigger] tags@[j]).wf(),
            decreases n - i,
        {
            let ghost pre = lv.subrange(0, i as int);
            let ghost post = lv.subrange(0, i + 1);
            proof {
                assert(post.drop_last() =~= pre);
                assert(post.last() == lv[i as int]);
            }
            let line = &lines[i];
            let ghost tags0 = tags@;
            let ghost errs0 = errs@;
            proof {
                reveal_strlit("!_");
                assert("!_"@ =~= seq!['!', '_']);
                assert(line@ == lv[i as int]);
            }
            if !str_starts_with(line.as_str(), "!_") {
                match TagDefinition::from_string(line.clone()) {
                    Ok(t) => {
                        tags.push(t);
                        proof {
                            assert(views_of(tags@)
                                =~= views_of(tags0).push(tags@.last()@));
                        }
                    },
                    Err(_) => {
                        errs.push(i);
                        proof {
                            assert(errs@ =~= errs0.push(i));
                        }
                    },
                }
            }
            proof {
                assert(views_of(tags@) =~= parsed_records(post));
                assert(errs@ =~= malformed_indices(post));
            }
            i = i + 1;
        }
        assert(lv.subrange(0, n as int) =~= lv);
        let tag_file = TagFile { file_path: String::from_str(file_path), tags };
        (tag_file, errs)
    }
}

} // verus!
