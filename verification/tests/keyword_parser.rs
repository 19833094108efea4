// The keyword parser of the interactive loop.

use crabshell::command::{Command, BUILT_IN_COMMANDS};

#[test]
fn line_with_exit_anywhere_leaves() {
    assert_eq!(Command::from_input("exit 0\n"), Command::ExitCommand);
    assert_eq!(Command::from_input("exit"), Command::ExitCommand);
    assert_eq!(Command::from_input("echo exit"), Command::ExitCommand);
    assert_eq!(Command::from_input("type exit"), Command::ExitCommand);
    assert_eq!(Command::from_input("  noexithere  "), Command::ExitCommand);
}

#[test]
fn echo_hands_on_what_follows_it() {
    assert_eq!(
        Command::from_input("echo hello world\n"),
        Command::EchoCommand { display: "hello world".to_string() }
    );
    assert_eq!(
        Command::from_input("  echo  'a'  b \n"),
        Command::EchoCommand { display: " 'a'  b".to_string() }
    );
}

#[test]
fn type_hands_on_what_follows_it() {
    assert_eq!(
        Command::from_input("type echo\n"),
        Command::TypeCommand { command_name: "echo".to_string() }
    );
    assert_eq!(
        Command::from_input("type a b"),
        Command::TypeCommand { command_name: "a b".to_string() }
    );
}

#[test]
fn keyword_needs_its_space() {
    assert_eq!(Command::from_input("echo"), Command::CommandNotFound);
    assert_eq!(Command::from_input("echo \n"), Command::CommandNotFound);
    assert_eq!(Command::from_input("type"), Command::CommandNotFound);
    assert_eq!(Command::from_input("echoo x"), Command::CommandNotFound);
    assert_eq!(Command::from_input("say echo x"), Command::CommandNotFound);
}

#[test]
fn anything_else_is_not_found() {
    assert_eq!(Command::from_input(""), Command::CommandNotFound);
    assert_eq!(Command::from_input("\n"), Command::CommandNotFound);
    assert_eq!(Command::from_input("ls -la"), Command::CommandNotFound);
    assert_eq!(Command::from_input("EXIT"), Command::CommandNotFound);
}

#[test]
fn builtin_names_are_listed() {
    assert_eq!(BUILT_IN_COMMANDS, ["echo", "exit", "type"]);
}
