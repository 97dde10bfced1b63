use enigma::tags::TagDefinition;
use enigma::tags::TagError;
use enigma::tags::TagKind;

#[test]
fn should_parse_file_declaration() {
    let definition_str = "Test.h\t/d/tmp/Test.h\t1;\"\tF\tline:1".to_string();
    let tag_definition = TagDefinition::from_string(definition_str).unwrap();
    assert_eq!("Test.h", tag_definition.name());
    assert_eq!("/d/tmp/Test.h", tag_definition.source_file());
    assert_eq!(1, tag_definition.source_line());
    assert_eq!(TagKind::File, tag_definition.kind());
    assert_eq!("", tag_definition.declaration());
}

#[test]
fn should_parse_class_declaration() {
    let definition_str = "Test\tTest.h\t/^class Test {$/;\"\tc\tline:13".to_string();
    let tag_definition = TagDefinition::from_string(definition_str).unwrap();
    assert_eq!("Test", tag_definition.name());
    assert_eq!("Test.h", tag_definition.source_file());
    assert_eq!(13, tag_definition.source_line());
    assert_eq!(TagKind::Class, tag_definition.kind());
    assert_eq!("class Test {", tag_definition.declaration());
}

#[test]
fn reparsing_the_same_line_gives_identical_components() {
    let line = "Run\tsrc/main.cpp\t/^void Run() {$/;\"\tf\tline:7\tclass:App";
    let a = TagDefinition::from_string(line.to_string()).unwrap();
    let b = TagDefinition::from_string(line.to_string()).unwrap();
    assert_eq!(a.name(), b.name());
    assert_eq!(a.source_file(), b.source_file());
    assert_eq!(a.source_line(), b.source_line());
    assert_eq!(a.kind(), b.kind());
    assert_eq!(a.declaration(), b.declaration());
}

#[test]
fn name_is_text_before_first_tab() {
    let tag = TagDefinition::from_string("my_symbol\ta/b.c\t12;\"\tv".to_string()).unwrap();
    assert_eq!("my_symbol", tag.name());
}

#[test]
fn missing_line_field_defaults_to_zero() {
    let tag = TagDefinition::from_string("x\ty.c\t3;\"\tv\tclass:Foo".to_string()).unwrap();
    assert_eq!(0, tag.source_line());
}

#[test]
fn line_field_is_found_in_any_position() {
    let tag =
        TagDefinition::from_string("x\ty.c\t3;\"\tv\tclass:Foo\tline:42".to_string()).unwrap();
    assert_eq!(42, tag.source_line());
}

#[test]
fn unknown_kind_code_maps_to_unknown() {
    let tag = TagDefinition::from_string("x\ty.c\t3;\"\tQ\tline:1".to_string()).unwrap();
    assert_eq!(TagKind::Unknown, tag.kind());
}

#[test]
fn line_without_tabs_is_malformed() {
    let r = TagDefinition::from_string("no tabs here".to_string());
    assert!(matches!(r, Err(TagError::MalformedTagLine)));
}

#[test]
fn line_without_close_marker_is_malformed() {
    let r = TagDefinition::from_string("x\ty.c\t12\tv".to_string());
    assert!(matches!(r, Err(TagError::MalformedTagLine)));
}

#[test]
fn line_without_kind_code_is_malformed() {
    let r = TagDefinition::from_string("x\ty.c\t12;\"".to_string());
    assert!(matches!(r, Err(TagError::MalformedTagLine)));
}

#[test]
fn unparseable_line_field_is_malformed() {
    let r = TagDefinition::from_string("x\ty.c\t3;\"\tv\tline:abc".to_string());
    assert!(matches!(r, Err(TagError::MalformedTagLine)));
}

#[test]
fn huge_line_number_is_malformed() {
    let r = TagDefinition::from_string(
        "x\ty.c\t3;\"\tv\tline:99999999999999999999999999".to_string(),
    );
    assert!(matches!(r, Err(TagError::MalformedTagLine)));
}

#[test]
fn new_file_takes_basename_and_whole_path() {
    let tag = TagDefinition::new_file("/classes/Test.h");
    assert_eq!("Test.h", tag.name());
    assert_eq!("/classes/Test.h", tag.source_file());
    assert_eq!(1, tag.source_line());
    assert_eq!(TagKind::File, tag.kind());
    assert_eq!("", tag.declaration());
}

#[test]
fn new_record_is_empty() {
    let tag = TagDefinition::new();
    assert_eq!("", tag.name());
    assert_eq!("", tag.source_file());
    assert_eq!(0, tag.source_line());
    assert_eq!(TagKind::File, tag.kind());
}

#[test]
fn to_elisp_renders_every_component() {
    let tag =
        TagDefinition::from_string("Test\tTest.h\t/^class Test {$/;\"\tc\tline:13".to_string())
            .unwrap();
    assert_eq!(
        "(tag :name \"Test\" :source \"Test.h\" line: 13 :kind 'Class))",
        tag.to_elisp()
    );
}

#[test]
fn bare_number_address_has_empty_declaration() {
    let tag = TagDefinition::from_string("m\tz.c\t128;\"\td".to_string()).unwrap();
    assert_eq!("", tag.declaration());
    assert_eq!(TagKind::MacroDefinitions, tag.kind());
    assert_eq!(0, tag.source_line());
}

#[test]
fn to_elisp_renders_line_zero_when_no_line_field() {
    let tag = TagDefinition::from_string("m\tz.c\t128;\"\td".to_string()).unwrap();
    assert_eq!("(tag :name \"m\" :source \"z.c\" line: 0 :kind 'MacroDefinitions))", tag.to_elisp());
}

#[test]
fn to_elisp_renders_large_line_numbers_in_full() {
    let tag =
        TagDefinition::from_string("S\ts.h\t/^struct S;$/;\"\ts\tline:100000".to_string()).unwrap();
    assert_eq!("(tag :name \"S\" :source \"s.h\" line: 100000 :kind 'Struct))", tag.to_elisp());
}

#[test]
fn declaration_may_contain_tabs() {
    let tag = TagDefinition::from_string(
        "DoTest\ttest/Test.h\t/^\tint DoTest() const {}$/;\"\tf\tclass:Test".to_string(),
    )
    .unwrap();
    assert_eq!("\tint DoTest() const {}", tag.declaration());
    assert_eq!(0, tag.source_line());
}
