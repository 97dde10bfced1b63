use enigma::commands::Command;
use enigma::commands::load_tags_file::LoadTagsFileCommand;
use enigma::server::Server;
use enigma::server::ServerResponse;
use enigma::tags::TagDatabase;
use enigma::tags::TagDefinition;
use enigma::tags::TagFile;

#[test]
fn should_load_tags() {
    let mut tag_file = TagFile::new();
    tag_file.file_path = String::from("tags");
    tag_file.tags.push(TagDefinition::new_file("/classes/Test.h"));
    tag_file.tags.push(TagDefinition::new_file("/private/Test.cpp"));

    let mut tag_database = TagDatabase::new();
    tag_database.tag_files.push(tag_file);

    let command = LoadTagsFileCommand::new();
    assert!(command.can_execute("load-tags-file tags"));
    assert_eq!(1, tag_database.len());
}

#[test]
fn load_tags_file_should_load_tags() {
    let command = LoadTagsFileCommand::new();
    assert_eq!("tags", command.requested_path("load-tags-file tags"));
    assert!(!command.can_execute("load tags"));
}

#[test]
fn loading_appends_parsed_records_to_the_index() {
    let mut server = Server::new();
    server.add_command(Command::LoadTagsFile(LoadTagsFileCommand::new()));

    let outcome = server.execute("load-tags-file project/tags");
    let path = match outcome {
        ServerResponse::LoadFile(p) => p,
        ServerResponse::Reply(s) => panic!("expected a load action, got reply {:?}", s),
    };
    assert_eq!("project/tags", path);

    let lines = vec![
        "!_TAG_FILE_FORMAT\t2".to_string(),
        "Test\tTest.h\t/^class Test {$/;\"\tc\tline:13".to_string(),
        "broken line".to_string(),
        "Run\tRun.cpp\t7;\"\tf\tline:7".to_string(),
    ];
    let (reply, malformed) = server.finish_load(&path, &lines);
    assert_eq!("Done", reply);
    assert_eq!(vec![2usize], malformed);
    assert_eq!(1, server.tag_database.len());
    assert_eq!(2, server.tag_database.tag_files[0].tags.len());
    assert_eq!("Test", server.tag_database.tag_files[0].tags[0].name());
    assert_eq!("Run", server.tag_database.tag_files[0].tags[1].name());
}

#[test]
fn load_without_a_path_is_an_invalid_argument() {
    let mut server = Server::new();
    server.add_command(Command::LoadTagsFile(LoadTagsFileCommand::new()));
    let outcome = server.execute("load-tags-file ");
    match outcome {
        ServerResponse::Reply(s) => assert_eq!("Invalid argument", s),
        ServerResponse::LoadFile(p) => panic!("expected a reply, got load of {:?}", p),
    }
}
