use ical::ParserError;
use ical::cursor::ParseCursor;

fn cursor_over(s: &str) -> ParseCursor {
    ParseCursor::new(s.chars().collect())
}

#[test]
fn peek_does_not_consume() {
    let c = cursor_over("ab");
    assert_eq!(c.peek(), Some('a'));
    assert_eq!(c.peek(), Some('a'));
}

#[test]
fn advance_consumes_in_order() {
    let mut c = cursor_over("ab");
    assert_eq!(c.advance(), Some('a'));
    assert_eq!(c.advance(), Some('b'));
    assert_eq!(c.advance(), None);
    assert_eq!(c.peek(), None);
}

#[test]
fn expect_matches_and_consumes() {
    let mut c = cursor_over(":x");
    assert!(c.expect(':').is_ok());
    assert_eq!(c.peek(), Some('x'));
}

#[test]
fn expect_on_wrong_character() {
    let mut c = cursor_over("x");
    let r = c.expect(':');
    assert!(matches!(r, Err(ParserError::Generic(_))));
    assert_eq!(c.peek(), Some('x'));
}

#[test]
fn expect_at_end_is_end_of_stream() {
    let mut c = cursor_over("");
    let r = c.expect(':');
    assert!(matches!(r, Err(ParserError::EndOfStream)));
}

#[test]
fn expect_sequence_matches_whole_prefix() {
    let mut c = cursor_over("BEGIN:VEVENT");
    assert!(c.expect_sequence("BEGIN:").is_ok());
    assert_eq!(c.advance(), Some('V'));
}

#[test]
fn expect_sequence_stops_at_mismatch() {
    let mut c = cursor_over("BEGX");
    let r = c.expect_sequence("BEGIN");
    assert!(matches!(r, Err(ParserError::Generic(_))));
}

#[test]
fn expect_sequence_hits_end_of_stream() {
    let mut c = cursor_over("BE");
    let r = c.expect_sequence("BEGIN");
    assert!(matches!(r, Err(ParserError::EndOfStream)));
}
