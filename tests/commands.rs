use tinyshell::builtins::{cd_target, echo_output, not_found_message, type_report, CdError};
use tinyshell::command::{Command, CommandDiscriminants, InputCommand, ParseError};
use tinyshell::lexer::LexError;
use tinyshell::output::CommandWriterTarget;
use tinyshell::redirection::{RedirectionMode, RedirectionSource};
use tinyshell::text::parse_i32;

fn words(v: &[&str]) -> Vec<String> {
    v.iter().map(|s| s.to_string()).collect()
}

#[test]
fn exit_without_code_uses_default() {
    let c = InputCommand::parse("exit").unwrap();
    assert!(matches!(c.command, Command::Exit(127)));
}

#[test]
fn exit_with_code() {
    let c = InputCommand::parse("exit 3").unwrap();
    assert!(matches!(c.command, Command::Exit(3)));
    let c = InputCommand::parse("exit -2147483648").unwrap();
    assert!(matches!(c.command, Command::Exit(-2147483648)));
}

#[test]
fn exit_with_bad_code() {
    assert!(matches!(InputCommand::parse("exit abc"), Err(ParseError::InvalidExitCode)));
    assert!(matches!(InputCommand::parse("exit 2147483648"), Err(ParseError::InvalidExitCode)));
}

#[test]
fn exit_with_two_codes() {
    assert!(matches!(
        InputCommand::parse("exit 1 2"),
        Err(ParseError::ArgumentCount { command: CommandDiscriminants::Exit, got: 2 })
    ));
}

#[test]
fn pwd_takes_no_arguments() {
    assert!(matches!(InputCommand::parse("pwd").unwrap().command, Command::Pwd));
    assert!(matches!(
        InputCommand::parse("pwd x"),
        Err(ParseError::ArgumentCount { command: CommandDiscriminants::Pwd, got: 1 })
    ));
}

#[test]
fn cd_arguments() {
    assert!(matches!(InputCommand::parse("cd").unwrap().command, Command::Cd(None)));
    match InputCommand::parse("cd /tmp").unwrap().command {
        Command::Cd(Some(p)) => assert_eq!(p, "/tmp"),
        _ => panic!("expected cd"),
    }
    assert!(matches!(
        InputCommand::parse("cd a b"),
        Err(ParseError::ArgumentCount { command: CommandDiscriminants::Cd, got: 2 })
    ));
}

#[test]
fn echo_and_type_keep_their_arguments() {
    match InputCommand::parse("echo b  a").unwrap().command {
        Command::Echo(args) => assert_eq!(args, words(&["b", "a"])),
        _ => panic!("expected echo"),
    }
    match InputCommand::parse("type exit ls").unwrap().command {
        Command::Type(args) => assert_eq!(args, words(&["exit", "ls"])),
        _ => panic!("expected type"),
    }
}

#[test]
fn other_names_are_looked_up_later() {
    let c = InputCommand::parse("ls -l 2> err.txt").unwrap();
    match c.command {
        Command::NotFound(name, args) => {
            assert_eq!(name, "ls");
            assert_eq!(args, words(&["-l"]));
        }
        _ => panic!("expected an external command"),
    }
    let r = c.redirect.unwrap();
    assert_eq!(r.source, RedirectionSource::Stderr);
    assert_eq!(r.mode, RedirectionMode::Write);
    assert_eq!(r.target, "err.txt");
}

#[test]
fn malformed_redirection_counts_as_none() {
    let c = InputCommand::parse("echo a 7> x").unwrap();
    assert!(c.redirect.is_none());
}

#[test]
fn empty_line_is_an_error() {
    assert!(matches!(InputCommand::parse(""), Err(ParseError::EmptyLine)));
    assert!(matches!(InputCommand::parse("  \n"), Err(ParseError::EmptyLine)));
}

#[test]
fn lex_error_is_passed_on() {
    assert!(matches!(
        InputCommand::parse("echo \\"),
        Err(ParseError::Lex(LexError::UnterminatedEscape))
    ));
}

#[test]
fn build_from_words() {
    assert!(matches!(Command::build(words(&["exit", "+7"])), Ok(Command::Exit(7))));
    assert!(matches!(Command::build(vec![]), Err(ParseError::EmptyLine)));
}

#[test]
fn builtin_names() {
    for name in ["exit", "echo", "type", "pwd", "cd"] {
        assert!(CommandDiscriminants::is_builtin(name));
    }
    assert!(!CommandDiscriminants::is_builtin("ls"));
    assert!(!CommandDiscriminants::is_builtin("Exit"));
    assert!(!CommandDiscriminants::is_builtin(""));
    assert_eq!(CommandDiscriminants::Pwd.builtin_name(), Some("pwd"));
    assert_eq!(CommandDiscriminants::NotFound.builtin_name(), None);
    assert_eq!(CommandDiscriminants::variants().len(), 6);
}

#[test]
fn echo_without_arguments_prints_nothing() {
    assert_eq!(echo_output(&vec![]), "");
}

#[test]
fn echo_joins_with_spaces() {
    assert_eq!(echo_output(&words(&["a", "b"])), "a b\n");
    assert_eq!(echo_output(&words(&["one"])), "one\n");
}

#[test]
fn type_of_a_builtin() {
    let r = type_report("exit", None);
    assert_eq!(r.channel, CommandWriterTarget::Stdout);
    assert_eq!(r.text, "exit is a shell builtin\n");
}

#[test]
fn type_of_a_missing_command() {
    let r = type_report("nonexistent_cmd_xyz", None);
    assert_eq!(r.channel, CommandWriterTarget::Stderr);
    assert_eq!(r.text, "nonexistent_cmd_xyz: not found\n");
}

#[test]
fn type_of_a_found_command() {
    let r = type_report("ls", Some("/bin/ls".to_string()));
    assert_eq!(r.channel, CommandWriterTarget::Stdout);
    assert_eq!(r.text, "ls is /bin/ls\n");
}

#[test]
fn command_not_found_message() {
    assert_eq!(not_found_message("  foo bar \n"), "foo bar: command not found\n");
    assert_eq!(not_found_message(" \n"), ": command not found\n");
}

#[test]
fn cd_home() {
    assert_eq!(cd_target("~", Some("/home/u".to_string())), Ok("/home/u".to_string()));
    assert_eq!(cd_target("~", None), Err(CdError::HomeUnavailable));
    assert_eq!(cd_target("/tmp", None), Ok("/tmp".to_string()));
    assert_eq!(cd_target("~/x", Some("/h".to_string())), Ok("~/x".to_string()));
}

#[test]
fn integer_parsing() {
    assert_eq!(parse_i32("42"), Some(42));
    assert_eq!(parse_i32("-0"), Some(0));
    assert_eq!(parse_i32("+"), None);
    assert_eq!(parse_i32("-"), None);
    assert_eq!(parse_i32(""), None);
    assert_eq!(parse_i32("2147483647"), Some(2147483647));
    assert_eq!(parse_i32("-2147483649"), None);
    assert_eq!(parse_i32("1x"), None);
    assert_eq!(parse_i32("00012"), Some(12));
}
