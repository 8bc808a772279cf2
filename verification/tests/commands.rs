//! Tests for outgoing command formatting: each operation's literal line.

use pop3::command::dele_command;
use pop3::command::list_command;
use pop3::command::noop_command;
use pop3::command::pass_command;
use pop3::command::quit_command;
use pop3::command::retr_command;
use pop3::command::rset_command;
use pop3::command::stat_command;
use pop3::command::uidl_command;
use pop3::command::user_command;

#[test]
fn user_command_names_the_user() {
    assert_eq!(user_command("mailbox@example.net"), "USER mailbox@example.net\r\n");
}

#[test]
fn pass_command_carries_the_password() {
    assert_eq!(pass_command("hunter2"), "PASS hunter2\r\n");
}

#[test]
fn stat_command_is_bare() {
    assert_eq!(stat_command(), "STAT\r\n");
}

#[test]
fn list_command_with_and_without_message_number() {
    assert_eq!(list_command(None), "LIST\r\n");
    assert_eq!(list_command(Some(4)), "LIST 4\r\n");
    assert_eq!(list_command(Some(0)), "LIST 0\r\n");
}

#[test]
fn uidl_command_with_and_without_message_number() {
    assert_eq!(uidl_command(None), "UIDL\r\n");
    assert_eq!(uidl_command(Some(12)), "UIDL 12\r\n");
}

#[test]
fn retr_command_renders_the_message_id() {
    assert_eq!(retr_command(25), "RETR 25\r\n");
    assert_eq!(retr_command(1), "RETR 1\r\n");
}

#[test]
fn dele_command_renders_the_message_id() {
    assert_eq!(dele_command(3), "DELE 3\r\n");
}

#[test]
fn negative_message_ids_render_with_sign() {
    assert_eq!(retr_command(-3), "RETR -3\r\n");
    assert_eq!(retr_command(i32::MIN), "RETR -2147483648\r\n");
    assert_eq!(retr_command(i32::MAX), "RETR 2147483647\r\n");
}

#[test]
fn session_commands_are_bare() {
    assert_eq!(rset_command(), "RSET\r\n");
    assert_eq!(quit_command(), "QUIT\r\n");
    assert_eq!(noop_command(), "NOOP\r\n");
}

#[test]
fn command_formatting_round_trips_through_decimal_digits() {
    for id in [1, 9, 10, 99, 100, 1234567890] {
        let line = retr_command(id);
        let body = line.strip_prefix("RETR ").unwrap().strip_suffix("\r\n").unwrap();
        assert_eq!(body.parse::<i32>().unwrap(), id);
    }
}
