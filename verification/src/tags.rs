//! Tag kinds and the in-memory tag index: an ordered collection of tag
//! files, each holding the records parsed from one tags file, with a
//! read-only traversal over every record in load order.

pub mod tag_definition;
pub mod tag_file;

pub use tag_definition::TagDefinition;
pub use tag_definition::TagError;
pub use tag_definition::TagLocation;
pub use tag_definition::TagModel;
pub use tag_file::TagFile;

use vstd::prelude::*;

use crate::text::lower_of;
use crate::text::to_lowercase;
use crate::text::str_eq;
use crate::tags::tag_definition::views_of;
use crate::tags::tag_file::parsed_records;
use crate::tags::tag_file::malformed_indices;

verus! {

/// The syntactic category of a tag, decoded from the one-character kind
/// code of the tags format.
#[derive(Clone, Copy, Debug, PartialEq, Eq, Structural)]
pub enum TagKind {
    MacroDefinitions,
    EnumValue,
    FunctionDefinition,
    Enum,
    HeaderInclude,
    LocalVariable,
    ClassMember,
    FunctionPrototype,
    Struct,
    Typedef,
    Union,
    Variable,
    ForwardDeclaration,
    FunctionParameter,
    GotoLabel,
    Class,
    Namespace,
    NamespaceAlias,
    NamespaceUsingStatement,
    File,
    Unknown,
}

/// The kind encoded by the one-character kind code `c`.
pub open spec fn kind_of_char(c: char) -> TagKind {
    match c {
        'd' => TagKind::MacroDefinitions,
        'e' => TagKind::EnumValue,
        'f' => TagKind::FunctionDefinition,
        'g' => TagKind::Enum,
        'h' => TagKind::HeaderInclude,
        'l' => TagKind::LocalVariable,
        'm' => TagKind::ClassMember,
        'p' => TagKind::FunctionPrototype,
        's' => TagKind::Struct,
        't' => TagKind::Typedef,
        'u' => TagKind::Union,
        'v' => TagKind::Variable,
        'x' => TagKind::ForwardDeclaration,
        'z' => TagKind::FunctionParameter,
        'L' => TagKind::GotoLabel,
        'c' => TagKind::Class,
        'n' => TagKind::Namespace,
        'A' => TagKind::NamespaceAlias,
        'N' => TagKind::NamespaceUsingStatement,
        'U' => TagKind::NamespaceUsingStatement,
        'F' => TagKind::File,
        _ => TagKind::Unknown,
    }
}

/// Decodes the one-character kind code of a tag line.
pub fn tag_kind_from_char(tag_kind: char) -> (r: TagKind)
    ensures
        r == kind_of_char(tag_kind),
{
    match tag_kind {
        'd' => TagKind::MacroDefinitions,
        'e' => TagKind::EnumValue,
        'f' => TagKind::FunctionDefinition,
        'g' => TagKind::Enum,
        'h' => TagKind::HeaderInclude,
        'l' => TagKind::LocalVariable,
        'm' => TagKind::ClassMember,
        'p' => TagKind::FunctionPrototype,
        's' => TagKind::Struct,
        't' => TagKind::Typedef,
        'u' => TagKind::Union,
        'v' => TagKind::Variable,
        'x' => TagKind::ForwardDeclaration,
        'z' => TagKind::FunctionParameter,
        'L' => TagKind::GotoLabel,
        'c' => TagKind::Class,
        'n' => TagKind::Namespace,
        'A' => TagKind::NamespaceAlias,
        'N' => TagKind::NamespaceUsingStatement,
        'U' => TagKind::NamespaceUsingStatement,
        'F' => TagKind::File,
        _ => TagKind::Unknown,
    }
}

/// The kind named by the lower-case kind name `s`.
pub open spec fn kind_of_name(s: Seq<char>) -> TagKind {
    if s == "macro"@ { TagKind::MacroDefinitions }
    else if s == "enum_value"@ { TagKind::EnumValue }
    else if s == "function"@ { TagKind::FunctionDefinition }
    else if s == "enum"@ { TagKind::Enum }
    else if s == "header_include"@ { TagKind::HeaderInclude }
    else if s == "local_variable"@ { TagKind::LocalVariable }
    else if s == "member"@ { TagKind::ClassMember }
    else if s == "function_prototype"@ { TagKind::FunctionPrototype }
    else if s == "struct"@ { TagKind::Struct }
    else if s == "typedef"@ { TagKind::Typedef }
    else if s == "union"@ { TagKind::Union }
    else if s == "variable"@ { TagKind::Variable }
    else if s == "forward_declaration"@ { TagKind::ForwardDeclaration }
    else if s == "function_parameter"@ { TagKind::FunctionParameter }
    else if s == "goto_label"@ { TagKind::GotoLabel }
    else if s == "class"@ { TagKind::Class }
    else if s == "namespace"@ { TagKind::Namespace }
    else if s == "namespace_alias"@ { TagKind::NamespaceAlias }
    else if s == "namespace_using_statement"@ { TagKind::NamespaceUsingStatement }
    else if s == "file"@ { TagKind::File }
    else { TagKind::Unknown }
}

/// Decodes a kind name, case-insensitively.
pub fn tag_kind_from_str(tag_kind: &str) -> (r: TagKind)
    ensures
        r == kind_of_name(lower_of(tag_kind@)),
{
    let lowered = to_lowercase(tag_kind);
    let l = lowered.as_str();
    if str_eq(l, "macro") { TagKind::MacroDefinitions }
    else if str_eq(l, "enum_value") { TagKind::EnumValue }
    else if str_eq(l, "function") { TagKind::FunctionDefinition }
    else if str_eq(l, "enum") { TagKind::Enum }
    else if str_eq(l, "header_include") { TagKind::HeaderInclude }
    else if str_eq(l, "local_variable") { TagKind::LocalVariable }
    else if str_eq(l, "member") { TagKind::ClassMember }
    else if str_eq(l, "function_prototype") { TagKind::FunctionPrototype }
    else if str_eq(l, "struct") { TagKind::Struct }
    else if str_eq(l, "typedef") { TagKind::Typedef }
    else if str_eq(l, "union") { TagKind::Union }
    else if str_eq(l, "variable") { TagKind::Variable }
    else if str_eq(l, "forward_declaration") { TagKind::ForwardDeclaration }
    else if str_eq(l, "function_parameter") { TagKind::FunctionParameter }
    else if str_eq(l, "goto_label") { TagKind::GotoLabel }
    else if str_eq(l, "class") { TagKind::Class }
    else if str_eq(l, "namespace") { TagKind::Namespace }
    else if str_eq(l, "namespace_alias") { TagKind::NamespaceAlias }
    else if str_eq(l, "namespace_using_statement") { TagKind::NamespaceUsingStatement }
    else if str_eq(l, "file") { TagKind::File }
    else { TagKind::Unknown }
}

/// The name of a kind, as the Describe and Find renderings print it.
pub open spec fn kind_name(k: TagKind) -> Seq<char> {
    match k {
        TagKind::MacroDefinitions => "MacroDefinitions"@,
        TagKind::EnumValue => "EnumValue"@,
        TagKind::FunctionDefinition => "FunctionDefinition"@,
        TagKind::Enum => "Enum"@,
        TagKind::HeaderInclude => "HeaderInclude"@,
        TagKind::LocalVariable => "LocalVariable"@,
        TagKind::ClassMember => "ClassMember"@,
        TagKind::FunctionPrototype => "FunctionPrototype"@,
        TagKind::Struct => "Struct"@,
        TagKind::Typedef => "Typedef"@,
        TagKind::Union => "Union"@,
        TagKind::Variable => "Variable"@,
        TagKind::ForwardDeclaration => "ForwardDeclaration"@,
        TagKind::FunctionParameter => "FunctionParameter"@,
        TagKind::GotoLabel => "GotoLabel"@,
        TagKind::Class => "Class"@,
        TagKind::Namespace => "Namespace"@,
        TagKind::NamespaceAlias => "NamespaceAlias"@,
        TagKind::NamespaceUsingStatement => "NamespaceUsingStatement"@,
        TagKind::File => "File"@,
        TagKind::Unknown => "Unknown"@,
    }
}

/// The printable name of the kind `k`.
pub fn kind_label(k: TagKind) -> (r: &'static str)
    ensures
        r@ == kind_name(k),
{
    match k {
        TagKind::MacroDefinitions => "MacroDefinitions",
        TagKind::EnumValue => "EnumValue",
        TagKind::FunctionDefinition => "FunctionDefinition",
        TagKind::Enum => "Enum",
        TagKind::HeaderInclude => "HeaderInclude",
        TagKind::LocalVariable => "LocalVariable",
        TagKind::ClassMember => "ClassMember",
        TagKind::FunctionPrototype => "FunctionPrototype",
        TagKind::Struct => "Struct",
        TagKind::Typedef => "Typedef",
        TagKind::Union => "Union",
        TagKind::Variable => "Variable",
        TagKind::ForwardDeclaration => "ForwardDeclaration",
        TagKind::FunctionParameter => "FunctionParameter",
        TagKind::GotoLabel => "GotoLabel",
        TagKind::Class => "Class",
        TagKind::Namespace => "Namespace",
        TagKind::NamespaceAlias => "NamespaceAlias",
        TagKind::NamespaceUsingStatement => "NamespaceUsingStatement",
        TagKind::File => "File",
        TagKind::Unknown => "Unknown",
    }
}

/// Every record of every file, in file-load order then in-file order.
pub open spec fn records_of(files: Seq<TagFile>) -> Seq<TagDefinition>
    decreases files.len()
{
    if files.len() == 0 {
        Seq::empty()
    } else {
        records_of(files.drop_last()) + files.last().tags@
    }
}

pub proof fn lemma_records_of_prefix(files: Seq<TagFile>, k: int)
    requires
        0 <= k < files.len(),
    ensures
        records_of(files.subrange(0, k + 1))
            == records_of(files.subrange(0, k)) + files[k].tags@,
{
    let p = files.subrange(0, k + 1);
    assert(p.drop_last() =~= files.subrange(0, k));
    assert(p.last() == files[k]);
}

/// Loading one more tag file grows the index by appending: every record
/// already in the index keeps its position, and the new file's records
/// follow it, so queries issued after a load see both the old records and
/// the new ones.
pub proof fn lemma_append_preserves_records(files: Seq<TagFile>, f: TagFile)
    ensures
        records_of(files.push(f)) == records_of(files) + f.tags@,
        forall|i: int| 0 <= i < records_of(files).len()
            ==> records_of(files.push(f))[i] == records_of(files)[i],
{
    let p = files.push(f);
    assert(p.drop_last() =~= files);
    assert(p.last() == f);
}

pub proof fn lemma_records_of_wf(files: Seq<TagFile>)
    requires
        forall|i: int| 0 <= i < files.len() ==> (#[trigger] files[i]).wf(),
    ensures
        forall|i: int| 0 <= i < records_of(files).len()
            ==> (#[trigger] records_of(files)[i]).wf(),
    decreases files.len(),
{
    if files.len() > 0 {
        let d = files.drop_last();
        assert(forall|i: int| 0 <= i < d.len() ==> d[i] == files[i]);
        lemma_records_of_wf(d);
        let f = files.last();
        assert(f.wf());
        assert forall|i: int| 0 <= i < records_of(files).len()
            implies (#[trigger] records_of(files)[i]).wf() by {
            if i < records_of(d).len() {
                assert(records_of(files)[i] == records_of(d)[i]);
            } else {
                assert(records_of(files)[i] == f.tags@[i - records_of(d).len()]);
            }
        }
    }
}

/// The in-memory tag index: the tag files loaded so far, in load order.
pub struct TagDatabase {
    pub tag_files: Vec<TagFile>,
}

impl TagDatabase {
    /// Every loaded file holds well-formed records.
    pub open spec fn wf(self) -> bool {
        forall|i: int| 0 <= i < self.tag_files@.len()
            ==> (#[trigger] self.tag_files@[i]).wf()
    }

    /// All records of the index, in load order then in-file order.
    pub open spec fn records(self) -> Seq<TagDefinition> {
        records_of(self.tag_files@)
    }

    /// An empty index.
    pub fn new() -> (r: TagDatabase)
        ensures
            r.tag_files@ =~= Seq::<TagFile>::empty(),
            r.wf(),
    {
        TagDatabase { tag_files: Vec::new() }
    }

    /// The number of tag files loaded.
    pub fn len(&self) -> (r: usize)
        ensures
            r == self.tag_files@.len(),
    {
        self.tag_files.len()
    }

    /// Parses the lines of one tags file and appends the resulting tag file
    /// to the index; returns the indices of the lines that were malformed
    /// and therefore skipped.
    pub fn parse_file(&mut self, file_path: &str, lines: &Vec<String>) -> (r: Vec<usize>)
        ensures
            final(self).tag_files@.len() == old(self).tag_files@.len() + 1,
            final(self).tag_files@.subrange(0, old(self).tag_files@.len() as int)
                == old(self).tag_files@,
            final(self).tag_files@.last().file_path@ == file_path@,
            views_of(final(self).tag_files@.last().tags@)
                == parsed_records(lines.deep_view()),
            final(self).tag_files@.last().wf(),
            old(self).wf() ==> final(self).wf(),
            r@ == malformed_indices(lines.deep_view()),
    {
        let (tag_file, errs) = TagFile::from_lines(file_path, lines);
        let ghost before = self.tag_files@;
        self.tag_files.push(tag_file);
        assert(self.tag_files@.subrange(0, before.len() as int) =~= before);
        errs
    }

    /// Every record of every loaded file, in load order then in-file order.
    pub fn all_tags(&self) -> (r: Vec<&TagDefinition>)
        ensures
            r@.len() == self.records().len(),
            forall|i: int| 0 <= i < r@.len() ==> *r@[i] == self.records()[i],
    {
        let mut out: Vec<&TagDefinition> = Vec::new();
        let n = self.tag_files.len();
        let mut fi: usize = 0;
        while fi < n
            invariant
                0 <= fi <= n,
                n == self.tag_files@.len(),
                out@.len() == records_of(self.tag_files@.subrange(0, fi as int)).len(),
                forall|i: int| 0 <= i < out@.len()
                    ==> *out@[i] == records_of(self.tag_files@.subrange(0, fi as int))[i],
            decreases n - fi,
        {
            let file = &self.tag_files[fi];
            let m = file.tags.len();
            let ghost prefix = records_of(self.tag_files@.subrange(0, fi as int));
            proof {
                lemma_records_of_prefix(self.tag_files@, fi as int);
            }
            let mut ri: usize = 0;
            while ri < m
                invariant
                    0 <= ri <= m,
                    0 <= fi < self.tag_files@.len(),
                    m == self.tag_files@[fi as int].tags@.len(),
                    file == &self.tag_files@[fi as int],
                    prefix == records_of(self.tag_files@.subrange(0, fi as int)),
                    out@.len() == prefix.len() + ri,
                    forall|i: int| 0 <= i < prefix.len() ==> *out@[i] == prefix[i],
                    forall|i: int| prefix.len() <= i < out@.len()
                        ==> *out@[i] == self.tag_files@[fi as int].tags@[i - prefix.len()],
                decreases m - ri,
            {
                out.push(&file.tags[ri]);
                ri = ri + 1;
            }
            proof {
                let ext = records_of(self.tag_files@.subrange(0, fi + 1));
                assert(ext == prefix + self.tag_files@[fi as int].tags@);
                assert(out@.len() == ext.len());
                assert forall|i: int| 0 <= i < out@.len() implies *out@[i] == ext[i] by {
                    if i < prefix.len() {
                        assert(ext[i] == prefix[i]);
                    } else {
                        assert(ext[i] == self.tag_files@[fi as int].tags@[i - prefix.len()]);
                    }
                }
            }
            fi = fi + 1;
        }
        assert(self.tag_files@.subrange(0, n as int) =~= self.tag_files@);
        out
    }
}

} // verus!
