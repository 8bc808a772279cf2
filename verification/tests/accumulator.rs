//! Scenario tests for the response accumulator: one exchange per test, fed
//! as the framed lines of a captured server reply.

use pop3::response::POP3Response;
use pop3::response::run_exchange;
use pop3::results::POP3Command;
use pop3::results::POP3Result;
use pop3::results::ProtocolError;

fn lines(parts: &[&str]) -> Vec<String> {
    let mut v = Vec::new();
    for p in parts {
        v.push((*p).to_string());
    }
    v
}

#[test]
fn greeting_ok_completes_with_ack() {
    let mut r = POP3Response::new();
    let out = r.add_line("+OK POP3 server ready\r\n".to_string(), POP3Command::Greet);
    assert!(out.is_ok());
    assert!(r.complete);
    assert!(matches!(r.result, Some(POP3Result::POP3Ok)));
}

#[test]
fn greeting_err_completes_with_failure() {
    let mut r = POP3Response::new();
    let out = r.add_line("-ERR service unavailable\r\n".to_string(), POP3Command::Greet);
    assert!(out.is_ok());
    assert!(r.complete);
    assert!(matches!(r.result, Some(POP3Result::POP3Err)));
}

#[test]
fn greeting_without_marker_is_protocol_error() {
    let mut r = POP3Response::new();
    let out = r.add_line("OK 1 2\r\n".to_string(), POP3Command::Greet);
    assert_eq!(out, Err(ProtocolError::MalformedStatusLine));
    assert!(!r.complete);
    assert!(r.lines.is_empty());
    assert!(r.result.is_none());
}

#[test]
fn malformed_status_line_never_defaults() {
    for cmd in [
        POP3Command::Stat,
        POP3Command::ListAll,
        POP3Command::ListOne,
        POP3Command::UidlAll,
        POP3Command::UidlOne,
        POP3Command::Retr,
    ] {
        let mut r = POP3Response::new();
        let out = r.add_line("OK 1 2\r\n".to_string(), cmd);
        assert_eq!(out, Err(ProtocolError::MalformedStatusLine));
        assert!(r.result.is_none());
    }
}

#[test]
fn stat_reply_parses_counts() {
    let mut r = POP3Response::new();
    let out = r.add_line("+OK 4 1200\r\n".to_string(), POP3Command::Stat);
    assert!(out.is_ok());
    assert!(r.complete);
    assert!(matches!(
        r.result,
        Some(POP3Result::POP3Stat { num_email: 4, mailbox_size: 1200 })
    ));
}

#[test]
fn stat_reply_empty_mailbox_is_valid() {
    let mut r = POP3Response::new();
    let out = r.add_line("+OK 0 0\r\n".to_string(), POP3Command::Stat);
    assert!(out.is_ok());
    assert!(matches!(
        r.result,
        Some(POP3Result::POP3Stat { num_email: 0, mailbox_size: 0 })
    ));
}

#[test]
fn stat_reply_with_text_payload_is_protocol_error() {
    let mut r = POP3Response::new();
    let out = r.add_line("+OK ready\r\n".to_string(), POP3Command::Stat);
    assert_eq!(out, Err(ProtocolError::MalformedStatusLine));
    assert!(!r.complete);
    assert!(r.result.is_none());
}

#[test]
fn stat_count_too_large_for_field_is_protocol_error() {
    let mut r = POP3Response::new();
    let out = r.add_line("+OK 99999999999 1\r\n".to_string(), POP3Command::Stat);
    assert_eq!(out, Err(ProtocolError::MalformedStatusLine));
}

#[test]
fn list_all_reply_parses_entries() {
    let t = lines(&["+OK\r\n", "1 100\r\n", "2 200\r\n", ".\r\n"]);
    let resp = run_exchange(POP3Command::ListAll, &t).unwrap();
    assert!(resp.complete);
    match resp.result {
        Some(POP3Result::POP3List { emails_metadata }) => {
            assert_eq!(emails_metadata.len(), 2);
            assert_eq!(emails_metadata[0].message_id, 1);
            assert_eq!(emails_metadata[0].message_size, 100);
            assert_eq!(emails_metadata[1].message_id, 2);
            assert_eq!(emails_metadata[1].message_size, 200);
        }
        other => panic!("expected a listing, got {:?}", other),
    }
}

#[test]
fn list_all_reply_with_no_entries_is_empty_listing() {
    let t = lines(&["+OK\r\n", ".\r\n"]);
    let resp = run_exchange(POP3Command::ListAll, &t).unwrap();
    assert!(resp.complete);
    match resp.result {
        Some(POP3Result::POP3List { emails_metadata }) => {
            assert!(emails_metadata.is_empty());
        }
        other => panic!("expected an empty listing, got {:?}", other),
    }
}

#[test]
fn list_one_err_reply_is_failure() {
    let mut r = POP3Response::new();
    let out = r.add_line("-ERR no such message\r\n".to_string(), POP3Command::ListOne);
    assert!(out.is_ok());
    assert!(r.complete);
    assert!(matches!(r.result, Some(POP3Result::POP3Err)));
}

#[test]
fn list_one_reply_parses_single_entry() {
    let mut r = POP3Response::new();
    let out = r.add_line("+OK 7 320\r\n".to_string(), POP3Command::ListOne);
    assert!(out.is_ok());
    match r.result {
        Some(POP3Result::POP3List { emails_metadata }) => {
            assert_eq!(emails_metadata.len(), 1);
            assert_eq!(emails_metadata[0].message_id, 7);
            assert_eq!(emails_metadata[0].message_size, 320);
        }
        other => panic!("expected a one-entry listing, got {:?}", other),
    }
}

#[test]
fn uidl_one_reply_parses_single_entry() {
    let mut r = POP3Response::new();
    let out = r.add_line("+OK 1 abc123\r\n".to_string(), POP3Command::UidlOne);
    assert!(out.is_ok());
    assert!(r.complete);
    match r.result {
        Some(POP3Result::POP3Uidl { emails_metadata }) => {
            assert_eq!(emails_metadata.len(), 1);
            assert_eq!(emails_metadata[0].message_id, 1);
            assert_eq!(emails_metadata[0].message_uid, "abc123");
        }
        other => panic!("expected a one-entry unique-id listing, got {:?}", other),
    }
}

#[test]
fn uidl_all_reply_parses_entries() {
    let t = lines(&["+OK\r\n", "1 whqtswO00WBw418f9t5JxYwZ\r\n", "2 QhdPYR:00WBw1Ph7x7\r\n", ".\r\n"]);
    let resp = run_exchange(POP3Command::UidlAll, &t).unwrap();
    match resp.result {
        Some(POP3Result::POP3Uidl { emails_metadata }) => {
            assert_eq!(emails_metadata.len(), 2);
            assert_eq!(emails_metadata[0].message_id, 1);
            assert_eq!(emails_metadata[0].message_uid, "whqtswO00WBw418f9t5JxYwZ");
            assert_eq!(emails_metadata[1].message_id, 2);
            assert_eq!(emails_metadata[1].message_uid, "QhdPYR:00WBw1Ph7x7");
        }
        other => panic!("expected a unique-id listing, got {:?}", other),
    }
}

#[test]
fn retr_reply_keeps_message_lines_verbatim() {
    let t = lines(&["+OK\r\n", "Hello\r\n", "World\r\n", ".\r\n"]);
    let resp = run_exchange(POP3Command::Retr, &t).unwrap();
    assert!(resp.complete);
    match resp.result {
        Some(POP3Result::POP3Message { raw }) => {
            assert_eq!(raw.len(), 2);
            assert_eq!(raw[0], "Hello");
            assert_eq!(raw[1], "World");
        }
        other => panic!("expected a message body, got {:?}", other),
    }
}

#[test]
fn parsing_same_transcript_twice_yields_identical_results() {
    let t = lines(&["+OK\r\n", "1 100\r\n", "2 200\r\n", ".\r\n"]);
    let first = run_exchange(POP3Command::ListAll, &t).unwrap();
    let second = run_exchange(POP3Command::ListAll, &t).unwrap();
    assert_eq!(format!("{:?}", first.result), format!("{:?}", second.result));
    assert_eq!(first.complete, second.complete);
    assert_eq!(first.lines, second.lines);
}

#[test]
fn malformed_list_body_line_is_protocol_error() {
    let t = lines(&["+OK\r\n", "not numbers\r\n", ".\r\n"]);
    let out = run_exchange(POP3Command::ListAll, &t);
    assert!(matches!(out, Err(ProtocolError::MalformedBodyLine)));
}

#[test]
fn malformed_uidl_body_line_is_protocol_error() {
    let t = lines(&["+OK\r\n", "1\r\n", ".\r\n"]);
    let out = run_exchange(POP3Command::UidlAll, &t);
    assert!(matches!(out, Err(ProtocolError::MalformedBodyLine)));
}

#[test]
fn body_without_terminator_never_completes() {
    let mut r = POP3Response::new();
    assert!(r.add_line("+OK\r\n".to_string(), POP3Command::Retr).is_ok());
    assert!(r.add_line("some content\r\n".to_string(), POP3Command::Retr).is_ok());
    assert!(r.add_line("more content\r\n".to_string(), POP3Command::Retr).is_ok());
    assert!(!r.complete);
    assert!(r.result.is_none());
}

#[test]
fn dele_ok_reply_is_acknowledgment() {
    let mut r = POP3Response::new();
    let out = r.add_line("+OK message 1 deleted\r\n".to_string(), POP3Command::Dele);
    assert!(out.is_ok());
    assert!(r.complete);
    assert!(matches!(r.result, Some(POP3Result::POP3Ok)));
}

#[test]
fn noop_ok_reply_is_acknowledgment() {
    let mut r = POP3Response::new();
    let out = r.add_line("+OK\r\n".to_string(), POP3Command::Noop);
    assert!(out.is_ok());
    assert!(r.complete);
    assert!(matches!(r.result, Some(POP3Result::POP3Ok)));
}

#[test]
fn terminator_line_inside_listing_ends_body() {
    let t = lines(&["+OK\r\n", "1 100\r\n", ".\r\n", "2 200\r\n"]);
    let resp = run_exchange(POP3Command::ListAll, &t).unwrap();
    match resp.result {
        Some(POP3Result::POP3List { emails_metadata }) => {
            assert_eq!(emails_metadata.len(), 1);
        }
        other => panic!("expected a listing, got {:?}", other),
    }
}
