use enigma::tags::TagDatabase;
use enigma::tags::TagFile;
use enigma::tags::TagKind;
use enigma::tags::tag_kind_from_char;
use enigma::tags::tag_kind_from_str;
use enigma::tags::tag_definition::TagLocation;

#[test]
fn kind_codes_decode_to_their_kinds() {
    assert_eq!(TagKind::MacroDefinitions, tag_kind_from_char('d'));
    assert_eq!(TagKind::EnumValue, tag_kind_from_char('e'));
    assert_eq!(TagKind::FunctionDefinition, tag_kind_from_char('f'));
    assert_eq!(TagKind::Enum, tag_kind_from_char('g'));
    assert_eq!(TagKind::HeaderInclude, tag_kind_from_char('h'));
    assert_eq!(TagKind::LocalVariable, tag_kind_from_char('l'));
    assert_eq!(TagKind::ClassMember, tag_kind_from_char('m'));
    assert_eq!(TagKind::FunctionPrototype, tag_kind_from_char('p'));
    assert_eq!(TagKind::Struct, tag_kind_from_char('s'));
    assert_eq!(TagKind::Typedef, tag_kind_from_char('t'));
    assert_eq!(TagKind::Union, tag_kind_from_char('u'));
    assert_eq!(TagKind::Variable, tag_kind_from_char('v'));
    assert_eq!(TagKind::ForwardDeclaration, tag_kind_from_char('x'));
    assert_eq!(TagKind::FunctionParameter, tag_kind_from_char('z'));
    assert_eq!(TagKind::GotoLabel, tag_kind_from_char('L'));
    assert_eq!(TagKind::Class, tag_kind_from_char('c'));
    assert_eq!(TagKind::Namespace, tag_kind_from_char('n'));
    assert_eq!(TagKind::NamespaceAlias, tag_kind_from_char('A'));
    assert_eq!(TagKind::NamespaceUsingStatement, tag_kind_from_char('N'));
    assert_eq!(TagKind::NamespaceUsingStatement, tag_kind_from_char('U'));
    assert_eq!(TagKind::File, tag_kind_from_char('F'));
    assert_eq!(TagKind::Unknown, tag_kind_from_char('?'));
}

#[test]
fn kind_names_decode_case_insensitively() {
    assert_eq!(TagKind::MacroDefinitions, tag_kind_from_str("macro"));
    assert_eq!(TagKind::Class, tag_kind_from_str("Class"));
    assert_eq!(TagKind::FunctionDefinition, tag_kind_from_str("FUNCTION"));
    assert_eq!(TagKind::File, tag_kind_from_str("file"));
    assert_eq!(TagKind::Unknown, tag_kind_from_str("no_such_kind"));
}

#[test]
fn tag_location_keeps_its_fields() {
    let location = TagLocation::new((3, 9), 42);
    assert_eq!((3, 9), location.file_path);
    assert_eq!(42, location.line);
}

#[test]
fn parse_file_appends_and_all_tags_traverses_in_order() {
    let mut tag_database = TagDatabase::new();
    assert_eq!(0, tag_database.len());
    assert_eq!(0, tag_database.all_tags().len());

    let first = vec![
        "B\tb.h\t1;\"\tc\tline:1".to_string(),
        "A\ta.h\t2;\"\tc\tline:2".to_string(),
    ];
    let errs = tag_database.parse_file("first", &first);
    assert!(errs.is_empty());

    let second = vec!["C\tc.h\t3;\"\tc\tline:3".to_string()];
    let errs = tag_database.parse_file("second", &second);
    assert!(errs.is_empty());

    assert_eq!(2, tag_database.len());
    let names: Vec<&str> = tag_database.all_tags().iter().map(|t| t.name()).collect();
    assert_eq!(vec!["B", "A", "C"], names);
}

#[test]
fn from_lines_skips_headers_and_reports_malformed_lines() {
    let lines = vec![
        "!_TAG_FILE_SORTED\t1".to_string(),
        "Good\tg.h\t1;\"\tc\tline:1".to_string(),
        "bad".to_string(),
        "!_TAG_PROGRAM_NAME\tctags".to_string(),
        "also bad".to_string(),
    ];
    let (tag_file, malformed) = TagFile::from_lines("the/tags", &lines);
    assert_eq!("the/tags", tag_file.file_path);
    assert_eq!(1, tag_file.tags.len());
    assert_eq!("Good", tag_file.tags[0].name());
    assert_eq!(vec![2usize, 4usize], malformed);
}

#[test]
fn tag_file_new_is_empty() {
    let tag_file = TagFile::new();
    assert_eq!("", tag_file.file_path);
    assert!(tag_file.tags.is_empty());
}
