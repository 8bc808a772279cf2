//! Tests for the line framer: assembly across byte-by-byte reads, reset
//! between lines, the ASCII requirement, and the defensive length bound.

use pop3::framer::LineFramer;
use pop3::framer::MAX_LINE_BYTES;
use pop3::response::POP3Response;
use pop3::results::POP3Command;
use pop3::results::POP3Result;
use pop3::results::ProtocolError;

fn feed(framer: &mut LineFramer, text: &str) -> Vec<String> {
    let mut out = Vec::new();
    for b in text.as_bytes() {
        match framer.push_byte(*b) {
            Ok(Some(line)) => out.push(line),
            Ok(None) => {}
            Err(e) => panic!("framer refused byte {}: {:?}", b, e),
        }
    }
    out
}

#[test]
fn framer_assembles_one_line_from_single_bytes() {
    let mut f = LineFramer::new();
    let lines = feed(&mut f, "+OK 4 1200\r\n");
    assert_eq!(lines, vec!["+OK 4 1200\r\n".to_string()]);
}

#[test]
fn framer_resets_between_lines() {
    let mut f = LineFramer::new();
    let lines = feed(&mut f, "+OK\r\n1 100\r\n.\r\n");
    assert_eq!(
        lines,
        vec!["+OK\r\n".to_string(), "1 100\r\n".to_string(), ".\r\n".to_string()]
    );
}

#[test]
fn framer_rejects_non_ascii_byte() {
    let mut f = LineFramer::new();
    assert_eq!(f.push_byte(0xFF), Err(ProtocolError::InvalidEncoding));
    assert_eq!(f.push_byte(0x80), Err(ProtocolError::InvalidEncoding));
    // The buffer is untouched: a whole line still comes out afterwards.
    let lines = feed(&mut f, "+OK\r\n");
    assert_eq!(lines, vec!["+OK\r\n".to_string()]);
}

#[test]
fn framer_without_terminator_never_yields_a_line() {
    let mut f = LineFramer::new();
    for b in "+OK partial line without ending".as_bytes() {
        assert_eq!(f.push_byte(*b), Ok(None));
    }
}

#[test]
fn framer_bare_carriage_return_does_not_end_a_line() {
    let mut f = LineFramer::new();
    let lines = feed(&mut f, "a\rb\r\n");
    assert_eq!(lines, vec!["a\rb\r\n".to_string()]);
}

#[test]
fn framer_bare_line_feed_does_not_end_a_line() {
    let mut f = LineFramer::new();
    let lines = feed(&mut f, "a\nb\r\n");
    assert_eq!(lines, vec!["a\nb\r\n".to_string()]);
}

#[test]
fn framer_refuses_oversized_line() {
    let mut f = LineFramer::new();
    for _ in 0..MAX_LINE_BYTES - 1 {
        assert_eq!(f.push_byte(b'a'), Ok(None));
    }
    assert_eq!(f.push_byte(b'a'), Err(ProtocolError::OversizedLine));
}

#[test]
fn framer_allows_line_of_exactly_the_bound() {
    let mut f = LineFramer::new();
    for _ in 0..MAX_LINE_BYTES - 2 {
        assert_eq!(f.push_byte(b'a'), Ok(None));
    }
    assert_eq!(f.push_byte(b'\r'), Ok(None));
    match f.push_byte(b'\n') {
        Ok(Some(line)) => assert_eq!(line.len(), MAX_LINE_BYTES),
        other => panic!("expected the completed line, got {:?}", other),
    }
}

#[test]
fn framer_and_accumulator_complete_a_stat_exchange() {
    let mut f = LineFramer::new();
    let mut r = POP3Response::new();
    for b in "+OK 2 320\r\n".as_bytes() {
        if let Ok(Some(line)) = f.push_byte(*b) {
            r.add_line(line, POP3Command::Stat).unwrap();
        }
    }
    assert!(r.complete);
    assert!(matches!(
        r.result,
        Some(POP3Result::POP3Stat { num_email: 2, mailbox_size: 320 })
    ));
}

#[test]
fn framer_and_accumulator_complete_a_retrieval() {
    let mut f = LineFramer::new();
    let mut r = POP3Response::new();
    for b in "+OK\r\nLine one\r\nLine two\r\n.\r\n".as_bytes() {
        if let Ok(Some(line)) = f.push_byte(*b) {
            if !r.complete {
                r.add_line(line, POP3Command::Retr).unwrap();
            }
        }
    }
    assert!(r.complete);
    match r.result {
        Some(POP3Result::POP3Message { raw }) => {
            assert_eq!(raw, vec!["Line one".to_string(), "Line two".to_string()]);
        }
        other => panic!("expected a message body, got {:?}", other),
    }
}
