//! Formatting of outgoing command lines: each operation's literal
//! `<VERB>[ <argument>]\r\n` line, rendered exactly.

use vstd::prelude::*;

use crate::text::{format_i32, signed_decimal_of};

verus! {

/// The login line naming the mailbox user.
pub fn user_command(username: &str) -> (s: String)
    ensures
        s@ == "USER "@ + username@ + "\r\n"@,
{
    let mut s = String::from_str("USER ");
    s.append(username);
    s.append("\r\n");
    s
}

/// The login line carrying the password.
pub fn pass_command(password: &str) -> (s: String)
    ensures
        s@ == "PASS "@ + password@ + "\r\n"@,
{
    let mut s = String::from_str("PASS ");
    s.append(password);
    s.append("\r\n");
    s
}

/// The mailbox-statistics request.
pub fn stat_command() -> (s: String)
    ensures
        s@ == "STAT\r\n"@,
{
    String::from_str("STAT\r\n")
}

/// The listing request: all messages, or the one given.
pub fn list_command(message_number: Option<i32>) -> (s: String)
    ensures
        match message_number {
            Some(i) => s@ == "LIST "@ + signed_decimal_of(i as int) + "\r\n"@,
            None => s@ == "LIST\r\n"@,
        },
{
    match message_number {
        Some(i) => {
            let mut s = String::from_str("LIST ");
            let num = format_i32(i);
            s.append(num.as_str());
            s.append("\r\n");
            s
        },
        None => String::from_str("LIST\r\n"),
    }
}

/// The unique-id request: all messages, or the one given.
pub fn uidl_command(message_number: Option<i32>) -> (s: String)
    ensures
        match message_number {
            Some(i) => s@ == "UIDL "@ + signed_decimal_of(i as int) + "\r\n"@,
            None => s@ == "UIDL\r\n"@,
        },
{
    match message_number {
        Some(i) => {
            let mut s = String::from_str("UIDL ");
            let num = format_i32(i);
            s.append(num.as_str());
            s.append("\r\n");
            s
        },
        None => String::from_str("UIDL\r\n"),
    }
}

/// The retrieval request for one message.
pub fn retr_command(message_id: i32) -> (s: String)
    ensures
        s@ == "RETR "@ + signed_decimal_of(message_id as int) + "\r\n"@,
{
    let mut s = String::from_str("RETR ");
    let num = format_i32(message_id);
    s.append(num.as_str());
    s.append("\r\n");
    s
}

/// The deletion request for one message.
pub fn dele_command(message_id: i32) -> (s: String)
    ensures
        s@ == "DELE "@ + signed_decimal_of(message_id as int) + "\r\n"@,
{
    let mut s = String::from_str("DELE ");
    let num = format_i32(message_id);
    s.append(num.as_str());
    s.append("\r\n");
    s
}

/// The request that resets the session to its original state.
pub fn rset_command() -> (s: String)
    ensures
        s@ == "RSET\r\n"@,
{
    String::from_str("RSET\r\n")
}

/// The request that ends the session.
pub fn quit_command() -> (s: String)
    ensures
        s@ == "QUIT\r\n"@,
{
    String::from_str("QUIT\r\n")
}

/// The request that does nothing; used to keep the connection open.
pub fn noop_command() -> (s: String)
    ensures
        s@ == "NOOP\r\n"@,
{
    String::from_str("NOOP\r\n")
}

} // verus!
