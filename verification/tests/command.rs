use nonempty::NonEmpty;
use pretty_run::command::{build_command, display_name, printable_command};

fn command(head: &str, tail: &[&str]) -> NonEmpty<String> {
    NonEmpty::from((head.to_string(), tail.iter().map(|s| s.to_string()).collect::<Vec<String>>()))
}

#[test]
fn printable_command_joins_with_spaces() {
    assert_eq!(printable_command(&command("echo", &["hello"])), "echo hello");
    assert_eq!(printable_command(&command("ls", &["-l", "-a", "/tmp"])), "ls -l -a /tmp");
}

#[test]
fn printable_command_of_one_word() {
    assert_eq!(printable_command(&command("false", &[])), "false");
}

#[test]
fn printable_command_keeps_each_word_as_it_is() {
    assert_eq!(printable_command(&command("sh", &["-c", "echo  ë", ""])), "sh -c echo  ë ");
}

#[test]
fn build_command_splits_program_and_arguments() {
    let invocation = build_command(&command("echo", &["hello", "world"]));
    assert_eq!(invocation.program, "echo");
    assert_eq!(invocation.args, vec!["hello", "world"]);
}

#[test]
fn build_command_without_arguments() {
    let invocation = build_command(&command("false", &[]));
    assert_eq!(invocation.program, "false");
    assert!(invocation.args.is_empty());
}

#[test]
fn display_name_prefers_the_given_name() {
    let cmd = command("echo", &["hello"]);
    assert_eq!(display_name(Some("greeting".to_string()), &cmd), "greeting");
    assert_eq!(display_name(Some(String::new()), &cmd), "");
}

#[test]
fn display_name_falls_back_to_the_command() {
    let cmd = command("echo", &["hello"]);
    assert_eq!(display_name(None, &cmd), "echo hello");
}
