use std::path::Path;

use enigma::commands::FindOtherFile;
use enigma::commands::find_other_file::FindOtherFileCommand;
use enigma::server::ServerCommand;
use enigma::tags::TagDatabase;
use enigma::tags::TagDefinition;
use enigma::tags::TagFile;

fn file_tag_declaration(file_path: &str) -> String {
    let path = Path::new(file_path);
    format!(
        "{}\t{}\t1;\"\tF\tline:1",
        path.file_name().unwrap().to_str().unwrap(),
        file_path
    )
}

#[test]
fn should_find_other_file_in_different_paths() {
    let mut tag_file = TagFile::new();
    tag_file.tags.push(TagDefinition::from_string(file_tag_declaration("/classes/Test.h")).unwrap());
    tag_file.tags.push(TagDefinition::from_string(file_tag_declaration("/private/Test.cpp")).unwrap());

    let mut tag_database = TagDatabase::new();
    tag_database.tag_files.push(tag_file);

    let command = FindOtherFileCommand::new();

    assert_eq!("/private/Test.cpp", command.execute("find-other-file Test.h", &mut tag_database));
    assert_eq!("/classes/Test.h", command.execute("find-other-file Test.cpp", &mut tag_database));
}

#[test]
fn should_find_other_file_in_multiple_tags() {
    let mut tag_file = TagFile::new();
    tag_file.tags.push(TagDefinition::from_string(file_tag_declaration("/1/2/Test.h")).unwrap());
    tag_file.tags.push(TagDefinition::from_string(file_tag_declaration("/a/b/TestA.h")).unwrap());
    tag_file.tags.push(TagDefinition::from_string(file_tag_declaration("/x/y/Test.cpp")).unwrap());
    tag_file.tags.push(TagDefinition::from_string(file_tag_declaration("/ma/sogetsu/TestA.cpp")).unwrap());

    let mut tag_database = TagDatabase::new();
    tag_database.tag_files.push(tag_file);

    let command = FindOtherFileCommand::new();

    assert_eq!("/ma/sogetsu/TestA.cpp", command.execute("find-other-file TestA.h", &mut tag_database));
    assert_eq!("/1/2/Test.h", command.execute("find-other-file /x/y/Test.cpp", &mut tag_database));
}

#[test]
fn commands_should_find_other_file_in_different_paths() {
    let mut tag_file = TagFile::new();
    tag_file.file_path = String::from("tags");
    tag_file.tags.push(TagDefinition::new_file("/classes/Test.h"));
    tag_file.tags.push(TagDefinition::new_file("/private/Test.cpp"));

    let mut tag_database = TagDatabase::new();
    tag_database.tag_files.push(tag_file);

    let command = FindOtherFileCommand::new();

    assert_eq!("/private/Test.cpp", command.execute("find-other-file Test.h", &mut tag_database));
    assert_eq!("/classes/Test.h", command.execute("find-other-file Test.cpp", &mut tag_database));
}

#[test]
fn commands_should_find_other_file_in_multiple_tags() {
    let mut tag_file = TagFile::new();
    tag_file.file_path = String::from("tags");
    tag_file.tags.push(TagDefinition::new_file("/1/2/Test.h"));
    tag_file.tags.push(TagDefinition::new_file("/a/b/TestA.h"));
    tag_file.tags.push(TagDefinition::new_file("/x/y/Test.cpp"));
    tag_file.tags.push(TagDefinition::new_file("/ma/sogetsu/TestA.cpp"));

    let mut tag_database = TagDatabase::new();
    tag_database.tag_files.push(tag_file);

    let command = FindOtherFileCommand::new();

    assert_eq!("/ma/sogetsu/TestA.cpp", command.execute("find-other-file TestA.h", &mut tag_database));
    assert_eq!("/1/2/Test.h", command.execute("find-other-file /x/y/Test.cpp", &mut tag_database));
}

#[test]
fn match_other_file_requires_exact_stem_and_companion_extension() {
    let exts = vec!["h".to_string(), "hpp".to_string()];
    assert!(FindOtherFileCommand::match_other_file("/a/Test.h", "Test", &exts));
    assert!(FindOtherFileCommand::match_other_file("Test.hpp", "Test", &exts));
    assert!(!FindOtherFileCommand::match_other_file("TestA.h", "Test", &exts));
    assert!(!FindOtherFileCommand::match_other_file("Test.cpp", "Test", &exts));
    assert!(!FindOtherFileCommand::match_other_file("Test", "Test", &exts));
}

#[test]
fn path_without_extension_gets_empty_reply() {
    let mut tag_database = TagDatabase::new();
    let command: FindOtherFile = FindOtherFileCommand::new();
    assert_eq!("", command.execute("find-other-file Makefile", &mut tag_database));
}

#[test]
fn unknown_extension_finds_nothing() {
    let mut tag_file = TagFile::new();
    tag_file.tags.push(TagDefinition::new_file("/a/readme.txt"));
    let mut tag_database = TagDatabase::new();
    tag_database.tag_files.push(tag_file);
    let command = FindOtherFileCommand::new();
    assert_eq!("Other file not found.", command.execute("find-other-file readme.txt", &mut tag_database));
}
