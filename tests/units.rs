use nntp::codec::{decode_text, is_valid_message, line_complete, parse_status_line, payload_line};
use nntp::errors::{
    article_error_or_network, check_io_network_error, response_error_or_network, write_error_or_network,
};
use nntp::text::{chars_of, decimal_string, parse_decimal, string_of};
use nntp::{
    after_failed_attempt, backoff, check_network_error, DialDecision, IoError, IoErrorKind, NNTPError,
    NewsGroup, ResponseCode,
};

fn io(kind: IoErrorKind) -> IoError {
    IoError { kind, message: "m".to_string() }
}

const ALL_KINDS: [IoErrorKind; 20] = [
    IoErrorKind::NotFound,
    IoErrorKind::PermissionDenied,
    IoErrorKind::ConnectionRefused,
    IoErrorKind::ConnectionReset,
    IoErrorKind::ConnectionAborted,
    IoErrorKind::NotConnected,
    IoErrorKind::AddrInUse,
    IoErrorKind::AddrNotAvailable,
    IoErrorKind::BrokenPipe,
    IoErrorKind::AlreadyExists,
    IoErrorKind::WouldBlock,
    IoErrorKind::InvalidInput,
    IoErrorKind::InvalidData,
    IoErrorKind::TimedOut,
    IoErrorKind::WriteZero,
    IoErrorKind::Interrupted,
    IoErrorKind::Unsupported,
    IoErrorKind::UnexpectedEof,
    IoErrorKind::OutOfMemory,
    IoErrorKind::Other,
];

const NETWORK_KINDS: [IoErrorKind; 9] = [
    IoErrorKind::ConnectionRefused,
    IoErrorKind::ConnectionReset,
    IoErrorKind::ConnectionAborted,
    IoErrorKind::BrokenPipe,
    IoErrorKind::NotConnected,
    IoErrorKind::TimedOut,
    IoErrorKind::WouldBlock,
    IoErrorKind::Interrupted,
    IoErrorKind::UnexpectedEof,
];

#[test]
fn network_kinds_are_network_errors() {
    for kind in ALL_KINDS {
        let expected = NETWORK_KINDS.contains(&kind);
        assert_eq!(check_network_error(NNTPError::Io(io(kind))), expected, "{:?}", kind);
        assert_eq!(check_io_network_error(&io(kind)), expected);
    }
}

#[test]
fn other_errors_are_not_network_errors() {
    assert!(!check_network_error(NNTPError::ArticleUnavailable));
    assert!(!check_network_error(NNTPError::DecodingError));
    assert!(!check_network_error(NNTPError::FailedReadingResponse { error: io(IoErrorKind::TimedOut) }));
    assert!(!check_network_error(NNTPError::ResponseCode { expected: 211, received: 411 }));
}

#[test]
fn error_wrappers() {
    assert!(matches!(response_error_or_network(io(IoErrorKind::TimedOut)), NNTPError::Io(_)));
    assert!(matches!(
        response_error_or_network(io(IoErrorKind::InvalidData)),
        NNTPError::FailedReadingResponse { .. }
    ));
    assert!(matches!(write_error_or_network(io(IoErrorKind::ConnectionReset)), NNTPError::Io(_)));
    assert!(matches!(
        write_error_or_network(io(IoErrorKind::WriteZero)),
        NNTPError::FailedWritingRequest { .. }
    ));
    assert!(matches!(article_error_or_network(io(IoErrorKind::NotConnected)), NNTPError::Io(_)));
    assert!(matches!(
        article_error_or_network(io(IoErrorKind::Other)),
        NNTPError::FailedReadingArticle { .. }
    ));
}

#[test]
fn valid_message_needs_crlf_dot_crlf() {
    assert!(!is_valid_message("hello"));
    assert!(is_valid_message("From: a\r\n\r\nbody\r\n.\r\n"));
    assert!(is_valid_message("\r\n.\r\n"));
    assert!(!is_valid_message(".\r\n"));
    assert!(!is_valid_message(""));
    assert!(!is_valid_message("body\n.\r\n"));
    assert!(!is_valid_message("body\r\n.\r\n "));
}

#[test]
fn decode_prefers_utf8() {
    assert_eq!(decode_text("caf\u{E9}\r\n".as_bytes()).unwrap(), "caf\u{E9}\r\n");
    assert_eq!(decode_text(b"plain\r\n").unwrap(), "plain\r\n");
}

#[test]
fn decode_falls_back_to_windows_1252() {
    assert_eq!(decode_text(b"caf\xE9").unwrap(), "caf\u{E9}");
    assert_eq!(decode_text(b"\x80").unwrap(), "\u{20AC}");
}

#[test]
fn decode_fails_when_both_fail() {
    assert!(matches!(decode_text(b"\xEF\xBB\xBF\xFF"), Err(NNTPError::DecodingError)));
}

#[test]
fn line_completion() {
    assert!(line_complete(&b"ab\r\n".to_vec()));
    assert!(line_complete(&b"\r\n".to_vec()));
    assert!(!line_complete(&b"ab\r".to_vec()));
    assert!(!line_complete(&b"ab\n".to_vec()));
    assert!(!line_complete(&b"\n".to_vec()));
    assert!(!line_complete(&Vec::new()));
}

#[test]
fn status_lines() {
    let (code, rest) = parse_status_line("201 ready\r\n").unwrap();
    assert_eq!(code, 201);
    assert_eq!(rest, "ready");
    let (code, rest) = parse_status_line("211 42 1 100 g\r\n").unwrap();
    assert_eq!(code, 211);
    assert_eq!(rest, "42 1 100 g");
    assert!(matches!(parse_status_line("20 x\r\n"), Err(NNTPError::InvalidResponse { .. })));
    assert!(matches!(parse_status_line("abc def\r\n"), Err(NNTPError::InvalidResponse { .. })));
    match parse_status_line("2011 x\r\n") {
        Err(NNTPError::InvalidResponse { response }) => assert_eq!(response, "2011 x"),
        other => panic!("unexpected {:?}", other),
    }
}

#[test]
fn payload_line_handling() {
    assert_eq!(payload_line(".\r\n"), None);
    assert_eq!(payload_line("x\r\n"), Some("x\r\n".to_string()));
    assert_eq!(payload_line("..x\r\n"), Some(".x\r\n".to_string()));
    assert_eq!(payload_line(".x\r\n"), Some(".x\r\n".to_string()));
    assert_eq!(payload_line("\r\n"), Some("\r\n".to_string()));
}

#[test]
fn list_round_trip() {
    let (name, high, low, status) = ("misc.test", 4isize, 1isize, "y");
    let g = NewsGroup::from_list_response(&format!("{} {} {} {}", name, high, low, status));
    assert_eq!(g, NewsGroup { name: name.to_string(), high, low, number: 3, status: status.to_string() });
    let g = NewsGroup::from_list_response("alt.neg -5 -10 m\r\n");
    assert_eq!(g.high, -5);
    assert_eq!(g.low, -10);
    assert_eq!(g.number, 5);
    let g = NewsGroup::from_list_response("low.first 1 9 y");
    assert_eq!(g.number, -8);
}

#[test]
fn group_round_trip() {
    let (count, low, high, name) = (42isize, 1isize, 100isize, "comp.sys.raspberry-pi");
    let g = NewsGroup::from_group_response(&format!("{} {} {} {}", count, low, high, name));
    assert_eq!(
        g,
        NewsGroup { name: name.to_string(), high, low, number: count, status: String::new() }
    );
}

#[test]
fn malformed_groups_are_refused() {
    assert_eq!(NewsGroup::parse_list_line("misc.test 4 1"), None);
    assert_eq!(NewsGroup::parse_list_line("misc.test four 1 y"), None);
    assert_eq!(NewsGroup::parse_list_line("g 9223372036854775807 -1 y"), None);
    assert_eq!(NewsGroup::parse_group_line("42 1 g"), None);
    assert_eq!(NewsGroup::parse_group_line("x 1 2 g"), None);
}

#[test]
fn decimal_parsing() {
    let cs = chars_of("+12 -7 x 9223372036854775807 9223372036854775808 -9223372036854775808 -");
    assert_eq!(parse_decimal(&cs, 0, 3), Some(12));
    assert_eq!(parse_decimal(&cs, 4, 6), Some(-7));
    assert_eq!(parse_decimal(&cs, 7, 8), None);
    assert_eq!(parse_decimal(&cs, 9, 28), Some(isize::MAX));
    assert_eq!(parse_decimal(&cs, 29, 48), None);
    assert_eq!(parse_decimal(&cs, 49, 69), Some(isize::MIN));
    assert_eq!(parse_decimal(&cs, 70, 71), None);
    assert_eq!(parse_decimal(&cs, 0, 0), None);
}

#[test]
fn string_slices() {
    let cs = chars_of("h\u{E9}llo");
    assert_eq!(cs.len(), 5);
    assert_eq!(string_of(&cs, 1, 4), "\u{E9}ll");
}

#[test]
fn response_code_values() {
    assert_eq!(ResponseCode::HelpTextFollows.code(), 100);
    assert_eq!(ResponseCode::ServiceAvailablePostingProhibited.code(), 201);
    assert_eq!(ResponseCode::ArticleNumbersFollows.code(), 211);
    assert_eq!(ResponseCode::SendArticleToPost.code(), 340);
    assert_eq!(ResponseCode::NoArticleWithThatNumber.code(), 423);
}

#[test]
fn dial_decisions() {
    assert_eq!(after_failed_attempt(1, 3, 2, 2), DialDecision::Retry { endpoint: 1, delay_ms: 2 });
    assert_eq!(after_failed_attempt(3, 3, 2, 2), DialDecision::Retry { endpoint: 1, delay_ms: 8 });
    assert_eq!(after_failed_attempt(4, 3, 2, 2), DialDecision::GiveUp);
    assert_eq!(after_failed_attempt(1, 0, 1, 2), DialDecision::GiveUp);
}

#[test]
fn backoff_is_capped_power() {
    assert_eq!(backoff(2, 10), 1024);
    assert_eq!(backoff(7, 0), 1);
    assert_eq!(backoff(0, 3), 0);
    assert_eq!(backoff(10, 19), 10_000_000_000_000_000_000);
    assert_eq!(backoff(10, 20), u64::MAX);
    assert_eq!(backoff(7000, 3), 343_000_000_000);
}

#[test]
fn group_description() {
    let g = NewsGroup::from_list_response("misc.test 4 1 y");
    assert_eq!(g.describe(), "misc.test (3)");
    let g = NewsGroup::from_list_response("odd 1 9 y");
    assert_eq!(g.describe(), "odd (-8)");
    let g = NewsGroup::from_group_response("42 1 100 x");
    assert_eq!(g.describe(), "x (99)");
    let g = NewsGroup::from_group_response("0 -9223372036854775808 9223372036854775807 wide");
    assert_eq!(g.describe(), "wide (18446744073709551615)");
}

#[test]
fn decimal_formatting() {
    assert_eq!(decimal_string(0), "0");
    assert_eq!(decimal_string(7), "7");
    assert_eq!(decimal_string(6187), "6187");
    assert_eq!(decimal_string(-5), "-5");
    assert_eq!(decimal_string(-100), "-100");
    assert_eq!(decimal_string(i128::MAX), i128::MAX.to_string());
    assert_eq!(decimal_string(i128::MIN), i128::MIN.to_string());
}
