//! Command-text builders and the small text helpers.

use mcbridge::rcon::command_reply;
use mcbridge::rcon::say_command;
use mcbridge::rcon::whitelist_command;
use mcbridge::text::decimal_string;
use mcbridge::text::join_with;

#[test]
fn say_wraps_the_message_in_quotes() {
    assert_eq!(say_command("hello world"), "say \"hello world\"");
    assert_eq!(say_command(""), "say \"\"");
}

#[test]
fn whitelist_commands_join_their_targets_with_spaces() {
    let targets = vec!["alice".to_string(), "bob".to_string(), "carol".to_string()];
    assert_eq!(whitelist_command(true, &targets), "whitelist add alice bob carol");
    assert_eq!(whitelist_command(false, &targets), "whitelist remove alice bob carol");
    let one = vec!["dave".to_string()];
    assert_eq!(whitelist_command(true, &one), "whitelist add dave");
    let none: Vec<String> = Vec::new();
    assert_eq!(whitelist_command(false, &none), "whitelist remove ");
}

#[test]
fn an_empty_console_response_reads_as_an_acknowledgement() {
    assert_eq!(command_reply(""), "Executed command.");
    assert_eq!(command_reply("Seed: 42"), "Seed: 42");
}

#[test]
fn join_with_separates_consecutive_items_only() {
    let items = vec!["a".to_string(), "b".to_string()];
    assert_eq!(join_with(&items, ", "), "a, b");
    assert_eq!(join_with(&Vec::new(), ", "), "");
    assert_eq!(join_with(&vec!["solo".to_string()], ", "), "solo");
}

#[test]
fn decimal_strings_print_exact_digits() {
    assert_eq!(decimal_string(0), "0");
    assert_eq!(decimal_string(7), "7");
    assert_eq!(decimal_string(10), "10");
    assert_eq!(decimal_string(12345), "12345");
    assert_eq!(decimal_string(u64::MAX), "18446744073709551615");
}
