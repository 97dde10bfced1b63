use enigma::commands::find_tags::FindTagsCommand;
use enigma::server::ServerCommand;
use enigma::tags::TagDatabase;
use enigma::tags::TagDefinition;
use enigma::tags::TagFile;

#[test]
fn finds_one_tag() {
    let command = FindTagsCommand::new();

    let tags = vec![
        TagDefinition::from_string(
            "DoTest\ttest/Test.h\t/^\tint DoTest() const {}$/;\"\tf\tclass:Test\ttyperef:typename:int"
                .to_string(),
        )
        .unwrap(),
        TagDefinition::from_string("Test\ttest/Test.h\t/^class Test {$/;\"\tc\tline:10".to_string())
            .unwrap(),
    ];
    let expected = tags.first().unwrap().to_elisp();

    let mut tag_file = TagFile::new();
    for tag in tags {
        tag_file.tags.push(tag);
    }
    let mut tag_database = TagDatabase::new();
    tag_database.tag_files.push(tag_file);

    assert_eq!(expected, command.do_execute("DoTest", &tag_database));
}

#[test]
fn find_replies_nil_when_nothing_matches() {
    let mut tag_database = TagDatabase::new();
    let command = FindTagsCommand::new();
    assert_eq!("nil", command.execute("find Missing", &mut tag_database));
}

#[test]
fn find_without_query_is_an_invalid_argument() {
    let mut tag_database = TagDatabase::new();
    let command = FindTagsCommand::new();
    assert_eq!("Invalid argument", command.execute("find ", &mut tag_database));
}

#[test]
fn find_returns_first_match_in_index_order() {
    let mut tag_file = TagFile::new();
    tag_file.tags.push(
        TagDefinition::from_string("Alpha\ta.h\t1;\"\tc\tline:1".to_string()).unwrap(),
    );
    tag_file.tags.push(
        TagDefinition::from_string("AlphaBeta\tb.h\t2;\"\tc\tline:2".to_string()).unwrap(),
    );
    let mut tag_database = TagDatabase::new();
    tag_database.tag_files.push(tag_file);

    let command = FindTagsCommand::new();
    let reply = command.execute("find Alp", &mut tag_database);
    assert_eq!(
        "(tag :name \"Alpha\" :source \"a.h\" line: 1 :kind 'Class))",
        reply
    );
}

#[test]
fn find_matches_by_abbreviation_not_only_prefix() {
    let mut tag_file = TagFile::new();
    tag_file.tags.push(
        TagDefinition::from_string(
            "ProjectileSpawnLocation\tp.h\t3;\"\tc\tline:3".to_string(),
        )
        .unwrap(),
    );
    let mut tag_database = TagDatabase::new();
    tag_database.tag_files.push(tag_file);

    let command = FindTagsCommand::new();
    let reply = command.execute("find PSL", &mut tag_database);
    assert_eq!(
        "(tag :name \"ProjectileSpawnLocation\" :source \"p.h\" line: 3 :kind 'Class))",
        reply
    );
}
