use enigma::commands::describe_tag::DescribeTagCommand;
use enigma::server::ServerCommand;
use enigma::tags::TagDatabase;
use enigma::tags::TagDefinition;
use enigma::tags::TagFile;

fn database_with_class_and_variable() -> TagDatabase {
    let mut tag_file = TagFile::new();
    tag_file.tags.push(
        TagDefinition::from_string("Test\tTest.h\t/^class Test {$/;\"\tc\tline:13".to_string())
            .unwrap(),
    );
    tag_file.tags.push(
        TagDefinition::from_string("Test\tTest.cpp\t/^int Test;$/;\"\tv\tline:4".to_string())
            .unwrap(),
    );
    let mut tag_database = TagDatabase::new();
    tag_database.tag_files.push(tag_file);
    tag_database
}

#[test]
fn parse_args() {
    let describe_tag = DescribeTagCommand::new();
    let mut tag_database = database_with_class_and_variable();

    // `-k` selects the kind; the trailing token is the tag name.
    let reply = describe_tag.execute("describe -k class Test", &mut tag_database);
    assert_eq!(
        "(tag :name \"Test\" :source \"Test.h\" line: 13 :kind 'Class))",
        reply
    );

    // `--kind` is the long form of the same option.
    let reply = describe_tag.execute("describe --kind variable Test", &mut tag_database);
    assert_eq!(
        "(tag :name \"Test\" :source \"Test.cpp\" line: 4 :kind 'Variable))",
        reply
    );
}

#[test]
fn describe_without_kind_replies_with_usage() {
    let describe_tag = DescribeTagCommand::new();
    let mut tag_database = database_with_class_and_variable();
    assert_eq!(
        "describe -k <tag_kind> <tag_name>",
        describe_tag.execute("describe Test", &mut tag_database)
    );
}

#[test]
fn describe_kind_name_is_case_insensitive() {
    let describe_tag = DescribeTagCommand::new();
    let mut tag_database = database_with_class_and_variable();
    let reply = describe_tag.execute("describe -k CLASS Test", &mut tag_database);
    assert_eq!(
        "(tag :name \"Test\" :source \"Test.h\" line: 13 :kind 'Class))",
        reply
    );
}

#[test]
fn describe_unmatched_tag_replies_with_empty_text() {
    let describe_tag = DescribeTagCommand::new();
    let mut tag_database = database_with_class_and_variable();
    assert_eq!("", describe_tag.execute("describe -k struct Test", &mut tag_database));
    assert_eq!("", describe_tag.execute("describe -k class Missing", &mut tag_database));
}

#[test]
fn describe_requires_name_to_match_exactly() {
    let describe_tag = DescribeTagCommand::new();
    let mut tag_database = database_with_class_and_variable();
    assert_eq!("", describe_tag.execute("describe -k class Tes", &mut tag_database));
}

#[test]
fn describe_option_missing_argument_replies_with_getopts_error() {
    let describe_tag = DescribeTagCommand::new();
    let mut tag_database = database_with_class_and_variable();
    let reply = describe_tag.execute("describe -k", &mut tag_database);
    assert!(!reply.is_empty());
    assert_ne!("describe -k <tag_kind> <tag_name>", reply);
}
