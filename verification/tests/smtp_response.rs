use inspect_core::smtp::{ReplyCode, Response, ResponseLineError};

#[test]
fn simple_line() {
    let line = "220 foo.com Simple Mail Transfer Service Ready\r\n";
    let mut rsp = Response::default();
    let msg = rsp.feed_first_line(line.as_bytes()).unwrap();
    assert_eq!(rsp.code().as_u16(), 220);
    assert_eq!(msg, "foo.com Simple Mail Transfer Service Ready".as_bytes());
    assert!(rsp.finished());
}

#[test]
fn simple_multiline() {
    let line1 = "250-foo.com greets bar.com\r\n";
    let line2 = "250-8BITMIME\r\n";
    let line3 = "250 HELP\r\n";
    let mut rsp = Response::default();

    let msg = rsp.feed_first_line(line1.as_bytes()).unwrap();
    assert_eq!(rsp.code().as_u16(), 250);
    assert_eq!(msg, "foo.com greets bar.com".as_bytes());
    assert!(!rsp.finished());

    let msg = rsp.feed_following_line(line2.as_bytes()).unwrap();
    assert_eq!(msg, "8BITMIME".as_bytes());
    assert!(!rsp.finished());

    let msg = rsp.feed_following_line(line3.as_bytes()).unwrap();
    assert_eq!(msg, "HELP".as_bytes());
    assert!(rsp.finished());
}

#[test]
fn invalid_code() {
    let line = "测试啊 foo.com Simple Mail Transfer Service Ready\r\n";
    let mut rsp = Response::default();
    let err = rsp.feed_first_line(line.as_bytes()).unwrap_err();
    assert_eq!(err, ResponseLineError::InvalidCode);
}

#[test]
fn empty_end() {
    let line1 = "250-foo.com greets bar.com\r\n";
    let line2 = "250-8BITMIME\r\n";
    let line3 = "250 \r\n";
    let mut rsp = Response::default();

    let msg = rsp.feed_first_line(line1.as_bytes()).unwrap();
    assert_eq!(rsp.code().as_u16(), 250);
    assert_eq!(msg, "foo.com greets bar.com".as_bytes());
    assert!(!rsp.finished());

    let msg = rsp.feed_following_line(line2.as_bytes()).unwrap();
    assert_eq!(msg, "8BITMIME".as_bytes());
    assert!(!rsp.finished());

    let msg = rsp.feed_following_line(line3.as_bytes()).unwrap();
    assert_eq!(msg, "".as_bytes());
    assert!(rsp.finished());
}

#[test]
fn multiline_reply_through_feed_line() {
    let mut rsp = Response::default();
    assert!(!rsp.finished());
    assert!(!rsp.code().is_set());
    assert_eq!(
        rsp.feed_line(b"250-foo.com greets bar.com\r\n").unwrap(),
        b"foo.com greets bar.com"
    );
    assert!(!rsp.finished());
    assert_eq!(rsp.feed_line(b"250-8BITMIME\r\n").unwrap(), b"8BITMIME");
    assert!(!rsp.finished());
    assert_eq!(rsp.feed_line(b"250 HELP\r\n").unwrap(), b"HELP");
    assert!(rsp.finished());
    assert_eq!(rsp.code().as_u16(), 250);
    assert_eq!(rsp.code().to_string(), "250");
}

#[test]
fn line_after_the_end_is_refused() {
    let mut rsp = Response::default();
    rsp.feed_line(b"220 ready\r\n").unwrap();
    assert!(rsp.finished());
    assert_eq!(rsp.feed_line(b"220 again\r\n"), Err(ResponseLineError::Finished));
    assert_eq!(rsp.feed_line(b""), Err(ResponseLineError::Finished));
    assert!(rsp.finished());
    assert_eq!(rsp.code().as_u16(), 220);
}

#[test]
fn short_lines_are_too_short() {
    let mut rsp = Response::default();
    assert_eq!(rsp.feed_line(b""), Err(ResponseLineError::TooShort));
    assert_eq!(rsp.feed_line(b"2"), Err(ResponseLineError::TooShort));
    assert_eq!(rsp.feed_line(b"25"), Err(ResponseLineError::TooShort));
    assert!(!rsp.code().is_set());
    rsp.feed_line(b"250-first\r\n").unwrap();
    assert_eq!(rsp.feed_line(b"25"), Err(ResponseLineError::TooShort));
    assert!(!rsp.finished());
}

#[test]
fn bare_code_ends_the_reply() {
    let mut rsp = Response::default();
    assert_eq!(rsp.feed_line(b"354").unwrap(), b"");
    assert!(rsp.finished());
    assert_eq!(rsp.code().as_u16(), 354);

    let mut rsp = Response::default();
    assert_eq!(rsp.feed_line(b"250\r\n").unwrap(), b"");
    assert!(rsp.finished());

    let mut rsp = Response::default();
    assert_eq!(rsp.feed_line(b"250\n").unwrap(), b"");
    assert!(rsp.finished());
}

#[test]
fn refused_first_line_changes_nothing() {
    let mut rsp = Response::default();
    assert_eq!(rsp.feed_line(b"250xfoo"), Err(ResponseLineError::InvalidDelimiter));
    assert!(!rsp.finished());
    assert!(!rsp.code().is_set());
    assert_eq!(rsp.code(), ReplyCode::default());
    assert_eq!(rsp.feed_first_line(b"250xfoo"), Err(ResponseLineError::InvalidDelimiter));
    assert!(!rsp.finished());
    assert_eq!(rsp.feed_line(b"abc foo"), Err(ResponseLineError::InvalidCode));
    assert_eq!(rsp.feed_line(b"25"), Err(ResponseLineError::TooShort));
    assert!(!rsp.code().is_set());
    // the reply can still begin
    assert_eq!(rsp.feed_line(b"354-go on\r\n").unwrap(), b"go on");
    assert_eq!(rsp.code().as_u16(), 354);
    assert!(!rsp.finished());
    assert_eq!(rsp.feed_line(b"354xend"), Err(ResponseLineError::InvalidDelimiter));
    assert_eq!(rsp.feed_line(b"250 end"), Err(ResponseLineError::InvalidCode));
    assert_eq!(rsp.code().as_u16(), 354);
    assert!(!rsp.finished());
    assert_eq!(rsp.feed_line(b"354 end\r\n").unwrap(), b"end");
    assert!(rsp.finished());
    assert_eq!(rsp.feed_line(b"250 more"), Err(ResponseLineError::Finished));
    assert_eq!(rsp.code().as_u16(), 354);
}

#[test]
fn delimiter_must_be_known() {
    let mut rsp = Response::default();
    assert_eq!(rsp.feed_line(b"250+oops\r\n"), Err(ResponseLineError::InvalidDelimiter));
    assert!(!rsp.finished());

    let mut rsp = Response::default();
    rsp.feed_line(b"250-first\r\n").unwrap();
    assert_eq!(rsp.feed_line(b"250=second\r\n"), Err(ResponseLineError::InvalidDelimiter));
    assert!(!rsp.finished());
    assert_eq!(rsp.feed_line(b"250 third\r\n").unwrap(), b"third");
    assert!(rsp.finished());
}

#[test]
fn code_must_stay_the_same() {
    let mut rsp = Response::default();
    rsp.feed_line(b"250-first\r\n").unwrap();
    assert_eq!(rsp.feed_line(b"251 second\r\n"), Err(ResponseLineError::InvalidCode));
    assert_eq!(rsp.feed_line(b"abc second\r\n"), Err(ResponseLineError::InvalidCode));
    assert!(!rsp.finished());
    assert_eq!(rsp.code().as_u16(), 250);
}

#[test]
fn reply_code_digit_ranges() {
    assert!(ReplyCode::new(b'2', b'0', b'0').is_some());
    assert!(ReplyCode::new(b'5', b'5', b'9').is_some());
    assert!(ReplyCode::new(b'1', b'0', b'0').is_none());
    assert!(ReplyCode::new(b'6', b'0', b'0').is_none());
    assert!(ReplyCode::new(b'2', b'6', b'0').is_none());
    assert!(ReplyCode::new(b'2', b'/', b'0').is_none());
    assert!(ReplyCode::new(b'2', b'0', b':').is_none());
    assert!(ReplyCode::new(b'2', b'0', b'/').is_none());
    assert!(ReplyCode::new(0, 0, 0).is_none());
}

#[test]
fn reply_code_is_written_as_its_digits() {
    let code = ReplyCode::new(b'4', b'2', b'1').unwrap();
    assert_eq!(code.to_string(), "421");
    assert_eq!(code.as_u16(), 421);
    assert!(code.is_set());
    assert_eq!(ReplyCode::service_ready().to_string(), "220");
    assert_eq!(ReplyCode::no_service().as_u16(), 554);
    assert!(!ReplyCode::default().is_set());
    assert_eq!(ReplyCode::default().as_u16(), 0);
}

#[test]
fn longest_line() {
    assert_eq!(Response::MAX_LINE_SIZE, 512);
    let mut line = b"250 ".to_vec();
    line.resize(Response::MAX_LINE_SIZE - 2, b'x');
    line.extend_from_slice(b"\r\n");
    let mut rsp = Response::default();
    let msg = rsp.feed_line(&line).unwrap();
    assert_eq!(msg.len(), Response::MAX_LINE_SIZE - 6);
    assert!(rsp.finished());
}

#[test]
fn message_keeps_a_lone_carriage_return() {
    let mut rsp = Response::default();
    assert_eq!(rsp.feed_line(b"250 abc\r").unwrap(), b"abc\r");
    let mut rsp = Response::default();
    assert_eq!(rsp.feed_line(b"250 abc\n").unwrap(), b"abc");
    let mut rsp = Response::default();
    assert_eq!(rsp.feed_line(b"250 abc").unwrap(), b"abc");
}
