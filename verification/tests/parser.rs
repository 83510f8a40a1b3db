use helpbot::command_manager::CommandManager;
use helpbot::parser::{parse, ParsedInvocation, PREFIX};

#[test]
fn text_without_prefix_is_not_a_command() {
    assert_eq!(CommandManager::get_command("ping"), None);
    assert_eq!(CommandManager::get_command(""), None);
    assert_eq!(CommandManager::get_command(" !ping"), None);
    assert_eq!(CommandManager::get_command("hello !ping"), None);
    assert_eq!(CommandManager::get_command("？ping"), None);
    assert_eq!(parse("ping"), None);
    assert_eq!(parse(""), None);
    assert_eq!(parse(" !ping"), None);
}

#[test]
fn command_with_two_arguments() {
    let parsed = parse("!cmd arg1 arg2").unwrap();
    assert_eq!(parsed.raw_command_token, "cmd");
    assert_eq!(parsed.raw_args, "arg1 arg2");
    assert_eq!(CommandManager::get_command("!cmd arg1 arg2"), Some("cmd".to_string()));
    assert_eq!(CommandManager::get_args("!cmd arg1 arg2"), "arg1 arg2");
}

#[test]
fn prefix_alone_gives_the_empty_token() {
    assert_eq!(PREFIX, '!');
    let parsed = parse("!").unwrap();
    assert_eq!(parsed.raw_command_token, "");
    assert_eq!(parsed.raw_args, "");
    assert_eq!(CommandManager::get_command("!"), Some(String::new()));
    assert_eq!(CommandManager::get_args("!"), "");
}

#[test]
fn command_without_arguments() {
    assert_eq!(
        parse("!ping"),
        Some(ParsedInvocation { raw_command_token: "ping".to_string(), raw_args: String::new() })
    );
    assert_eq!(
        parse("!ping "),
        Some(ParsedInvocation { raw_command_token: "ping".to_string(), raw_args: String::new() })
    );
}

#[test]
fn one_separator_is_taken_and_no_more() {
    assert_eq!(CommandManager::get_args("!cmd  a"), " a");
    assert_eq!(CommandManager::get_args("!cmd a "), "a ");
    assert_eq!(CommandManager::get_args("!cmd \t a  b "), "\t a  b ");
    assert_eq!(CommandManager::get_command("!cmd  a"), Some("cmd".to_string()));
}

#[test]
fn any_whitespace_ends_the_token() {
    assert_eq!(CommandManager::get_command("!cmd\targ"), Some("cmd".to_string()));
    assert_eq!(CommandManager::get_args("!cmd\targ"), "arg");
    assert_eq!(CommandManager::get_command("!cmd\narg"), Some("cmd".to_string()));
    assert_eq!(CommandManager::get_args("!cmd\narg"), "arg");
    assert_eq!(CommandManager::get_command("!cmd\u{3000}arg"), Some("cmd".to_string()));
    assert_eq!(CommandManager::get_args("!cmd\u{3000}arg"), "arg");
}

#[test]
fn whitespace_behind_the_prefix_gives_the_empty_token() {
    assert_eq!(CommandManager::get_command("! ping"), Some(String::new()));
    assert_eq!(CommandManager::get_args("! ping"), "ping");
}

#[test]
fn arguments_are_counted_in_characters() {
    assert_eq!(CommandManager::get_command("!é越 abc"), Some("é越".to_string()));
    assert_eq!(CommandManager::get_args("!é越 abc"), "abc");
    assert_eq!(CommandManager::get_args("!🤖 🤖 🤖"), "🤖 🤖");
}

#[test]
fn second_prefix_belongs_to_the_token() {
    assert_eq!(CommandManager::get_command("!!ping"), Some("!ping".to_string()));
}

#[test]
fn text_that_is_no_command_has_no_arguments() {
    assert_eq!(CommandManager::get_args("ping a b"), "");
    assert_eq!(CommandManager::get_args(""), "");
}
