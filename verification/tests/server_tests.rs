use enigma::commands::Command;
use enigma::commands::describe_tag::DescribeTagCommand;
use enigma::commands::echo::EchoCommand;
use enigma::commands::find_other_file::FindOtherFileCommand;
use enigma::commands::find_tags::FindTagsCommand;
use enigma::commands::load_tags_file::LoadTagsFileCommand;
use enigma::server::Server;
use enigma::server::ServerResponse;

fn server_with_all_commands() -> Server {
    let mut server = Server::new();
    server.add_command(Command::Echo(EchoCommand::new()));
    server.add_command(Command::FindOtherFile(FindOtherFileCommand::new()));
    server.add_command(Command::LoadTagsFile(LoadTagsFileCommand::new()));
    server.add_command(Command::Describe(DescribeTagCommand::new()));
    server.add_command(Command::Find(FindTagsCommand::new()));
    server
}

fn reply_of(outcome: ServerResponse) -> String {
    match outcome {
        ServerResponse::Reply(s) => s,
        ServerResponse::LoadFile(p) => panic!("expected a reply, got load of {:?}", p),
    }
}

#[test]
fn unknown_command_is_unrecognized() {
    let mut server = server_with_all_commands();
    assert_eq!("Unrecognized command", reply_of(server.execute("bogus foo")));
}

#[test]
fn command_word_without_space_is_unrecognized() {
    let mut server = server_with_all_commands();
    assert_eq!("Unrecognized command", reply_of(server.execute("find")));
    assert_eq!("Unrecognized command", reply_of(server.execute("echo")));
}

#[test]
fn echo_returns_everything_after_the_first_space() {
    let mut server = server_with_all_commands();
    assert_eq!("hello  world ", reply_of(server.execute("echo hello  world ")));
}

#[test]
fn load_then_query_sees_the_new_records() {
    let mut server = server_with_all_commands();

    let outcome = server.execute("load-tags-file tags");
    let path = match outcome {
        ServerResponse::LoadFile(p) => p,
        ServerResponse::Reply(s) => panic!("expected a load action, got reply {:?}", s),
    };
    let lines = vec![
        "ProjectileSpawnLocation\tp.h\t/^class ProjectileSpawnLocation {$/;\"\tc\tline:3"
            .to_string(),
    ];
    let (done, _malformed) = server.finish_load(&path, &lines);
    assert_eq!("Done", done);

    let reply = reply_of(server.execute("find PSL"));
    assert_eq!(
        "(tag :name \"ProjectileSpawnLocation\" :source \"p.h\" line: 3 :kind 'Class))",
        reply
    );
}

#[test]
fn find_before_any_load_finds_nothing() {
    let mut server = server_with_all_commands();
    assert_eq!("nil", reply_of(server.execute("find PSL")));
}

#[test]
fn first_matching_command_wins() {
    let mut server = server_with_all_commands();
    // `find-other-file ` does not begin with `find ` (the space differs), so
    // the request reaches the FindOtherFile command, not Find.
    assert_eq!("", reply_of(server.execute("find-other-file noextension")));
}

#[test]
fn echo_with_nothing_after_the_space_replies_empty() {
    let mut server = server_with_all_commands();
    assert_eq!("", reply_of(server.execute("echo ")));
}
