//! One record of the extended ctags text format, parsed from a single
//! tab-delimited line. The record owns the original line once and stores
//! every extracted piece as a half-open offset range into it; accessors
//! slice on demand, so no substring is ever copied at parse time.

use vstd::prelude::*;

use crate::tags::TagKind;
use crate::tags::kind_of_char;
use crate::tags::kind_name;
use crate::tags::tag_kind_from_char;
use crate::tags::kind_label;
use crate::text::find_char_from;
use crate::text::find_from;
use crate::text::find_char;
use crate::text::find_str_from;
use crate::text::rfind_char_before;
use crate::text::rfind_char;
use crate::text::is_prefix_of;
use crate::text::str_starts_with;
use crate::text::parse_usize_spec;
use crate::text::parse_usize;
use crate::text::dec_digits;
use crate::text::usize_to_string;

verus! {

/// Why a tag line was rejected.
#[derive(Clone, Copy, Debug, PartialEq, Eq, Structural)]
pub enum TagError {
    /// The line lacks one of the mandatory structural markers: the two
    /// leading tabs, the `;"` address close marker, the kind code after it,
    /// or it carries a `line:` field whose value is not a number that fits.
    MalformedTagLine,
}

/// Where a tag's symbol was found: the range of the source file path within
/// the record's original line, and a 1-based line number in that file
/// (0 when the parsed line carried no `line:` field).
#[derive(Clone, Copy, Debug)]
pub struct TagLocation {
    pub file_path: (usize, usize),
    pub line: usize,
}

impl TagLocation {
    pub fn new(file_path: (usize, usize), line: usize) -> (r: TagLocation)
        ensures
            r.file_path == file_path,
            r.line == line,
    {
        TagLocation { file_path, line }
    }
}

/// The mathematical content of a tag record: the extracted texts themselves,
/// independent of how they are stored.
pub struct TagModel {
    pub name: Seq<char>,
    pub declaration: Seq<char>,
    pub source_file: Seq<char>,
    pub line: usize,
    pub kind: TagKind,
    pub fields: Seq<Seq<char>>,
}

/// One parsed entry of a tags file.
pub struct TagDefinition {
    pub original_line: String,
    pub name: (usize, usize),
    pub declaration: (usize, usize),
    pub location: TagLocation,
    pub kind: TagKind,
    pub fields: Vec<(usize, usize)>,
}

// ---------------------------------------------------------------------------
// The parse model: what each piece of a tag line is, over the line's
// character sequence.
// ---------------------------------------------------------------------------

/// Position of the first tab: the end of the name.
pub open spec fn tab1_pos(l: Seq<char>) -> int {
    match find_char_from(l, '\t', 0) {
        Some(i) => i,
        None => 0,
    }
}

/// Position of the second tab: the end of the source-file path.
pub open spec fn tab2_pos(l: Seq<char>) -> int {
    match find_char_from(l, '\t', tab1_pos(l) + 1) {
        Some(i) => i,
        None => 0,
    }
}

/// Position of the `;"` address close marker.
pub open spec fn close_pos(l: Seq<char>) -> int {
    match find_from(l, seq![';', '"'], 0) {
        Some(i) => i,
        None => 0,
    }
}

/// The declaration excerpt's range: the text between `/^` and the `$/` that
/// precedes the close marker, or empty when the address is a bare line
/// number (no `/^` opens before the close marker).
pub open spec fn decl_range(l: Seq<char>) -> (int, int) {
    match find_from(l, seq!['/', '^'], 0) {
        Some(v) => if v + 4 <= close_pos(l) {
            (v + 2, close_pos(l) - 2)
        } else {
            (0, 0)
        },
        None => (0, 0),
    }
}

/// Position of the one-character kind code, just past the close marker and
/// the tab that follows it.
pub open spec fn kind_pos(l: Seq<char>) -> int {
    close_pos(l) + 3
}

/// The ranges of the non-empty tab-separated segments of `l[from..]`.
pub open spec fn tab_fields(l: Seq<char>, from: int) -> Seq<(int, int)>
    decreases l.len() - from when 0 <= from <= l.len()
    via tab_fields_decreases
{
    if from >= l.len() {
        Seq::empty()
    } else {
        match find_char_from(l, '\t', from) {
            None => seq![(from, l.len() as int)],
            Some(t) => if t == from {
                tab_fields(l, from + 1)
            } else {
                seq![(from, t)] + tab_fields(l, t + 1)
            },
        }
    }
}

#[via_fn]
proof fn tab_fields_decreases(l: Seq<char>, from: int) {
    if 0 <= from <= l.len() && from < l.len() {
        crate::text::lemma_find_char_from(l, '\t', from);
    }
}

/// The ranges of the record's extension fields.
pub open spec fn field_ranges(l: Seq<char>) -> Seq<(int, int)> {
    let start = kind_pos(l) + 2;
    if start <= l.len() {
        tab_fields(l, start)
    } else {
        Seq::empty()
    }
}

/// The `line:` key that marks the field carrying the source line number.
pub open spec fn line_key() -> Seq<char> {
    seq!['l', 'i', 'n', 'e', ':']
}

/// Whether the field at range `r` of `l` is a `line:` field.
pub open spec fn is_line_field(l: Seq<char>, r: (int, int)) -> bool {
    is_prefix_of(line_key(), l.subrange(r.0, r.1))
}

/// Index of the first `line:` field among the ranges `rs`, if there is one.
pub open spec fn first_line_field(l: Seq<char>, rs: Seq<(int, int)>) -> Option<int>
    decreases rs.len()
{
    if rs.len() == 0 {
        None
    } else if is_line_field(l, rs[0]) {
        Some(0)
    } else {
        match first_line_field(l, rs.drop_first()) {
            None => None,
            Some(i) => Some(i + 1),
        }
    }
}

pub proof fn lemma_first_line_field(l: Seq<char>, rs: Seq<(int, int)>)
    ensures
        match first_line_field(l, rs) {
            Some(i) => 0 <= i < rs.len() && is_line_field(l, rs[i])
                && forall|j: int| 0 <= j < i ==> !is_line_field(l, rs[j]),
            None => forall|j: int| 0 <= j < rs.len() ==> !is_line_field(l, rs[j]),
        },
    decreases rs.len(),
{
    if rs.len() > 0 && !is_line_field(l, rs[0]) {
        let d = rs.drop_first();
        lemma_first_line_field(l, d);
        assert(forall|j: int| 0 <= j < d.len() ==> d[j] == rs[j + 1]);
        match first_line_field(l, d) {
            None => {
                assert forall|j: int| 0 <= j < rs.len() implies !is_line_field(l, rs[j]) by {
                    if j >= 1 {
                        assert(d[j - 1] == rs[j]);
                    }
                }
            },
            Some(i) => {
                assert(d[i] == rs[i + 1]);
                assert forall|j: int| 0 <= j < i + 1 implies !is_line_field(l, rs[j]) by {
                    if j >= 1 {
                        assert(d[j - 1] == rs[j]);
                    }
                }
            },
        }
    }
}

/// The source line number of the record: the value of the first `line:`
/// field, or 0 when there is none; `None` when that value is not a number
/// that fits in `usize`.
pub open spec fn line_no(l: Seq<char>) -> Option<usize> {
    match first_line_field(l, field_ranges(l)) {
        None => Some(0usize),
        Some(i) => {
            let txt = l.subrange(field_ranges(l)[i].0, field_ranges(l)[i].1);
            parse_usize_spec(txt.subrange(line_key().len() as int, txt.len() as int))
        },
    }
}

/// Whether the line carries all mandatory structural markers of a tag
/// record: two tabs, the `;"` close marker, a kind code after it, and a
/// parseable `line:` field if one is present.
pub open spec fn parse_ok(l: Seq<char>) -> bool {
    &&& find_char_from(l, '\t', 0) is Some
    &&& find_char_from(l, '\t', tab1_pos(l) + 1) is Some
    &&& find_from(l, seq![';', '"'], 0) is Some
    &&& kind_pos(l) < l.len()
    &&& line_no(l) is Some
}

/// The value of `line_no` when it is `Some`.
pub open spec fn line_no_val(l: Seq<char>) -> usize {
    match line_no(l) {
        Some(v) => v,
        None => 0,
    }
}

/// The record parsed from the line `l`, componentwise.
pub open spec fn spec_parse(l: Seq<char>) -> TagModel
    recommends
        parse_ok(l),
{
    TagModel {
        name: l.subrange(0, tab1_pos(l)),
        declaration: l.subrange(decl_range(l).0, decl_range(l).1),
        source_file: l.subrange(tab1_pos(l) + 1, tab2_pos(l)),
        line: line_no_val(l),
        kind: kind_of_char(l[kind_pos(l)]),
        fields: field_ranges(l).map_values(|r: (int, int)| l.subrange(r.0, r.1)),
    }
}

/// The views of a sequence of records.
pub open spec fn views_of(tags: Seq<TagDefinition>) -> Seq<TagModel> {
    tags.map_values(|t: TagDefinition| t@)
}

// ---------------------------------------------------------------------------
// The record itself.
// ---------------------------------------------------------------------------

impl View for TagDefinition {
    type V = TagModel;

    open spec fn view(&self) -> TagModel {
        TagModel {
            name: self.original_line@.subrange(self.name.0 as int, self.name.1 as int),
            declaration: self.original_line@.subrange(
                self.declaration.0 as int,
                self.declaration.1 as int,
            ),
            source_file: self.original_line@.subrange(
                self.location.file_path.0 as int,
                self.location.file_path.1 as int,
            ),
            line: self.location.line,
            kind: self.kind,
            fields: self.fields@.map_values(
                |r: (usize, usize)| self.original_line@.subrange(r.0 as int, r.1 as int),
            ),
        }
    }
}

/// Start of the final path component of `p`: just past the last `/`,
/// or 0 when there is none.
pub open spec fn base_start(p: Seq<char>) -> int {
    match rfind_char_before(p, '/', p.len() as int) {
        Some(i) => i + 1,
        None => 0,
    }
}

/// The final path component of `p`.
pub open spec fn basename(p: Seq<char>) -> Seq<char> {
    p.subrange(base_start(p), p.len() as int)
}

impl TagDefinition {
    /// Every stored range is a valid sub-slice of the original line.
    pub open spec fn wf(self) -> bool {
        &&& self.name.0 <= self.name.1 <= self.original_line@.len()
        &&& self.declaration.0 <= self.declaration.1 <= self.original_line@.len()
        &&& self.location.file_path.0 <= self.location.file_path.1
            <= self.original_line@.len()
        &&& forall|i: int| 0 <= i < self.fields@.len()
            ==> (#[trigger] self.fields@[i]).0 <= self.fields@[i].1
                <= self.original_line@.len()
    }

    /// The symbol's name.
    pub fn name(&self) -> (r: &str)
        requires
            self.wf(),
        ensures
            r@ == self@.name,
    {
        self.original_line.as_str().substring_char(self.name.0, self.name.1)
    }

    /// The path of the file the symbol was found in.
    pub fn source_file(&self) -> (r: &str)
        requires
            self.wf(),
        ensures
            r@ == self@.source_file,
    {
        self.original_line.as_str().substring_char(
            self.location.file_path.0,
            self.location.file_path.1,
        )
    }

    /// The 1-based line number within the source file; 0 when the parsed
    /// line carried no `line:` field.
    pub fn source_line(&self) -> (r: usize)
        ensures
            r == self@.line,
    {
        self.location.line
    }

    /// The syntactic category of the tag.
    pub fn kind(&self) -> (r: TagKind)
        ensures
            r == self@.kind,
    {
        self.kind
    }

    /// The excerpt of the declaring source line, or empty when the address
    /// was a bare line number.
    pub fn declaration(&self) -> (r: &str)
        requires
            self.wf(),
        ensures
            r@ == self@.declaration,
    {
        self.original_line.as_str().substring_char(self.declaration.0, self.declaration.1)
    }

    /// An empty record.
    pub fn new() -> (r: TagDefinition)
        ensures
            r.wf(),
            r@.name =~= Seq::<char>::empty(),
            r@.declaration =~= Seq::<char>::empty(),
            r@.source_file =~= Seq::<char>::empty(),
            r@.line == 0,
            r@.kind == TagKind::File,
            r@.fields =~= Seq::<Seq<char>>::empty(),
    {
        let r = TagDefinition {
            original_line: String::new(),
            name: (0, 0),
            declaration: (0, 0),
            location: TagLocation { file_path: (0, 0), line: 0 },
            kind: TagKind::File,
            fields: Vec::new(),
        };
        assert(r@.fields =~= Seq::<Seq<char>>::empty());
        r
    }

    /// A record synthesized directly from a bare file path: its name is the
    /// final path component, its source file the whole path, its kind
    /// `File`, and its line number 1.
    pub fn new_file(file_path: &str) -> (r: TagDefinition)
        ensures
            r.wf(),
            r.original_line@ == file_path@,
            r@.name == basename(file_path@),
            r@.declaration =~= Seq::<char>::empty(),
            r@.source_file == file_path@,
            r@.line == 1,
            r@.kind == TagKind::File,
            r@.fields =~= Seq::<Seq<char>>::empty(),
    {
        let len = file_path.unicode_len();
        let start = match rfind_char(file_path, '/') {
            Some(i) => i + 1,
            None => 0,
        };
        let r = TagDefinition {
            original_line: String::from_str(file_path),
            name: (start, len),
            declaration: (0, 0),
            location: TagLocation { file_path: (0, len), line: 1 },
            kind: TagKind::File,
            fields: Vec::new(),
        };
        assert(r@.fields =~= Seq::<Seq<char>>::empty());
        assert(r@.source_file =~= file_path@);
        assert(r@.declaration =~= Seq::<char>::empty());
        r
    }

    /// Parses one line of the tags format into a record, left to right:
    /// name up to the first tab, source file up to the second, the optional
    /// `/^...$/` declaration excerpt closed by `;"`, the one-character kind
    /// code, then the tab-separated extension fields, of which the first
    /// `line:` field gives the source line number (0 when absent). A line
    /// lacking any mandatory marker is rejected as malformed.
    pub fn from_string(tag_definition: String) -> (r: Result<TagDefinition, TagError>)
        ensures
            match r {
                Ok(t) => parse_ok(tag_definition@) && t.wf()
                    && t.original_line@ == tag_definition@
                    && t@ == spec_parse(tag_definition@),
                Err(e) => !parse_ok(tag_definition@) && e == TagError::MalformedTagLine,
            },
    {
        let l = tag_definition.as_str();
        let ghost lv = tag_definition@;
        let len = l.unicode_len();

        // Name: up to the first tab.
        let t1 = match find_char(l, '\t', 0) {
            None => {
                return Err(TagError::MalformedTagLine);
            },
            Some(v) => v,
        };

        // Source file: between the first and second tab.
        let t2 = match find_char(l, '\t', t1 + 1) {
            None => {
                return Err(TagError::MalformedTagLine);
            },
            Some(v) => v,
        };

        // The `;"` close marker of the address.
        proof {
            reveal_strlit(";\"");
            assert(";\""@ =~= seq![';', '"']);
            reveal_strlit("/^");
            assert("/^"@ =~= seq!['/', '^']);
        }
        let close = match find_str_from(l, ";\"", 0) {
            None => {
                return Err(TagError::MalformedTagLine);
            },
            Some(v) => v,
        };

        // The kind code sits three characters past the close marker.
        if len < 4 || close > len - 4 {
            assert(kind_pos(lv) >= lv.len());
            return Err(TagError::MalformedTagLine);
        }
        let kpos = close + 3;
        assert(kpos == kind_pos(lv) && kpos < lv.len());

        // Declaration excerpt: between `/^` and the `$/` before the close
        // marker, if the pattern opens before the close marker.
        let decl: (usize, usize) = match find_str_from(l, "/^", 0) {
            Some(v) => {
                if close >= 4 && v <= close - 4 {
                    (v + 2, close - 2)
                } else {
                    (0, 0)
                }
            },
            None => (0, 0),
        };
        assert((decl.0 as int, decl.1 as int) == decl_range(lv));

        // Kind code.
        let kind = tag_kind_from_char(l.get_char(kpos));

        // Extension fields: the non-empty tab-separated segments of the
        // remainder, two characters past the kind code.
        let mut fields: Vec<(usize, usize)> = Vec::new();
        if kpos <= len - 2 {
            let start = kpos + 2;
            let mut pos = start;
            while pos < len
                invariant
                    start <= pos <= len,
                    len == lv.len(),
                    l@ == lv,
                    tab_fields(lv, start as int)
                        =~= ranges_of(fields@) + tab_fields(lv, pos as int),
                    forall|j: int| 0 <= j < fields@.len()
                        ==> (#[trigger] fields@[j]).0 <= fields@[j].1 <= len,
                decreases len - pos,
            {
                let ghost fields0 = fields@;
                let ghost pos0 = pos;
                match find_char(l, '\t', pos) {
                    None => {
                        fields.push((pos, len));
                        pos = len;
                        proof {
                            assert(tab_fields(lv, pos0 as int)
                                =~= seq![(pos0 as int, len as int)]
                                    + tab_fields(lv, len as int));
                        }
                    },
                    Some(t) => {
                        if t == pos {
                            pos = pos + 1;
                        } else {
                            fields.push((pos, t));
                            pos = t + 1;
                        }
                    },
                }
                proof {
                    if fields@.len() > fields0.len() {
                        assert(ranges_of(fields@)
                            =~= ranges_of(fields0).push(ranges_of(fields@).last()));
                    }
                    assert(tab_fields(lv, start as int)
                        =~= ranges_of(fields@) + tab_fields(lv, pos as int));
                }
            }
            assert(tab_fields(lv, pos as int) =~= Seq::<(int, int)>::empty());
            assert(ranges_of(fields@) =~= tab_fields(lv, start as int));
        } else {
            assert(kind_pos(lv) + 2 > lv.len());
            assert(ranges_of(fields@) =~= field_ranges(lv));
        }
        assert(ranges_of(fields@) == field_ranges(lv));

        // Source line number: the first `line:` field, or 0 when absent.
        let mut line_value: usize = 0;
        let mut fidx: usize = 0;
        let mut found = false;
        while fidx < fields.len() && !found
            invariant
                0 <= fidx <= fields@.len(),
                l@ == lv,
                len == lv.len(),
                ranges_of(fields@) == field_ranges(lv),
                forall|j: int| 0 <= j < fields@.len()
                    ==> (#[trigger] fields@[j]).0 <= fields@[j].1 <= len,
                !found ==> forall|j: int| 0 <= j < fidx
                    ==> !is_line_field(lv, field_ranges(lv)[j]),
                found ==> first_line_field(lv, field_ranges(lv)) == Some(fidx as int)
                    && fidx < fields@.len(),
            decreases fields@.len() - fidx, (if found { 0int } else { 1int }),
        {
            let f = fields[fidx];
            let txt = l.substring_char(f.0, f.1);
            proof {
                reveal_strlit("line:");
                assert("line:"@ =~= line_key());
                assert(field_ranges(lv)[fidx as int] == (f.0 as int, f.1 as int));
                assert(txt@ == lv.subrange(f.0 as int, f.1 as int));
            }
            if str_starts_with(txt, "line:") {
                found = true;
                proof {
                    assert(is_line_field(lv, field_ranges(lv)[fidx as int]));
                    lemma_first_line_field(lv, field_ranges(lv));
                }
            } else {
                assert(!is_line_field(lv, field_ranges(lv)[fidx as int]));
                fidx = fidx + 1;
            }
        }
        if found {
            let f = fields[fidx];
            proof {
                reveal_strlit("line:");
                assert("line:"@ =~= line_key());
                lemma_first_line_field(lv, field_ranges(lv));
                assert(field_ranges(lv)[fidx as int] == (f.0 as int, f.1 as int));
                assert(is_line_field(lv, (f.0 as int, f.1 as int)));
                assert(line_key().len() == 5);
            }
            let txt = l.substring_char(f.0, f.1);
            let txt_len = txt.unicode_len();
            assert(txt_len >= 5);
            let suffix = txt.substring_char(5, txt_len);
            match parse_usize(suffix) {
                None => {
                    assert(line_no(lv) is None);
                    return Err(TagError::MalformedTagLine);
                },
                Some(v) => {
                    line_value = v;
                    assert(line_no(lv) == Some(v));
                },
            }
        } else {
            proof {
                lemma_first_line_field(lv, field_ranges(lv));
                assert(first_line_field(lv, field_ranges(lv)) is None);
                assert(line_no(lv) == Some(0usize));
            }
        }

        let record = TagDefinition {
            original_line: tag_definition,
            name: (0, t1),
            declaration: decl,
            location: TagLocation { file_path: (t1 + 1, t2), line: line_value },
            kind,
            fields,
        };
        proof {
            assert(record.wf());
            let fr = field_ranges(lv);
            assert(ranges_of(record.fields@) == fr);
            assert(record@.fields.len() == spec_parse(lv).fields.len());
            assert forall|i: int| 0 <= i < record.fields@.len()
                implies record@.fields[i] == spec_parse(lv).fields[i] by {
                assert(fr[i] == (record.fields@[i].0 as int, record.fields@[i].1 as int));
            }
            assert(record@.fields =~~= spec_parse(lv).fields);
            assert(record@ == spec_parse(lv));
        }
        Ok(record)
    }

    /// The record rendered as an elisp form, as the Find and Describe
    /// commands reply with it.
    pub fn to_elisp(&self) -> (r: String)
        requires
            self.wf(),
        ensures
            r@ == spec_elisp(self@),
    {
        let mut s = String::from_str("(tag :name \"");
        s.append(self.name());
        s.append("\" :source \"");
        s.append(self.source_file());
        s.append("\" line: ");
        let line_str = usize_to_string(self.location.line);
        s.append(line_str.as_str());
        s.append(" :kind '");
        s.append(kind_label(self.kind));
        s.append("))");
        assert(s@ =~= spec_elisp(self@));
        s
    }
}

/// The elisp rendering of a record.
pub open spec fn spec_elisp(m: TagModel) -> Seq<char> {
    "(tag :name \""@ + m.name + "\" :source \""@ + m.source_file + "\" line: "@
        + dec_digits(m.line as int) + " :kind '"@ + kind_name(m.kind) + "))"@
}

/// The ranges of a record's stored offset pairs, as mathematical integers.
pub open spec fn ranges_of(v: Seq<(usize, usize)>) -> Seq<(int, int)> {
    v.map_values(|r: (usize, usize)| (r.0 as int, r.1 as int))
}

// ---------------------------------------------------------------------------
// Laws of the parser.
// ---------------------------------------------------------------------------

/// Parsing is a pure function of the line: two records parsed from the same
/// line agree on every component.
pub proof fn lemma_parse_pure(a: TagDefinition, b: TagDefinition, l: Seq<char>)
    requires
        a@ == spec_parse(l),
        b@ == spec_parse(l),
    ensures
        a@.name == b@.name,
        a@.declaration == b@.declaration,
        a@.source_file == b@.source_file,
        a@.line == b@.line,
        a@.kind == b@.kind,
        a@.fields == b@.fields,
{
}

/// The name of a parsed record is the literal text before the first tab of
/// the original line.
pub proof fn lemma_name_before_first_tab(l: Seq<char>)
    requires
        parse_ok(l),
    ensures
        find_char_from(l, '\t', 0) is Some,
        spec_parse(l).name == l.subrange(0, tab1_pos(l)),
        l[tab1_pos(l)] == '\t',
        forall|j: int| 0 <= j < tab1_pos(l) ==> l[j] != '\t',
{
    crate::text::lemma_find_char_from(l, '\t', 0);
}

} // verus!
