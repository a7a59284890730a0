use nntp::{Article, Command, Exchange, IoError, IoErrorKind, NNTPError, NewsGroup, Reply, Step, Target};

/// Runs one command against a scripted server: each line is handed over
/// when the exchange asks to read. Returns what was sent and the result.
fn run(command: Command, server: &[&[u8]]) -> (Vec<String>, Result<Reply, NNTPError>) {
    let (mut exchange, mut step) = Exchange::start(command);
    let mut sent = Vec::new();
    let mut replies = server.iter();
    loop {
        match step {
            Step::Finished(result) => return (sent, result),
            Step::Send(text) => {
                sent.push(text);
            }
            Step::Read => {}
        }
        let line = replies.next().expect("the server has no more lines");
        step = exchange.on_line(line);
    }
}

fn s(text: &str) -> String {
    text.to_string()
}

#[test]
fn greeting_then_quit() {
    let (sent, result) = run(Command::Greeting, &[b"201 ready\r\n"]);
    assert!(sent.is_empty());
    assert!(matches!(result, Ok(Reply::Done)));
    let (sent, result) = run(Command::Quit, &[b"205 bye\r\n"]);
    assert_eq!(sent, vec![s("QUIT\r\n")]);
    assert!(matches!(result, Ok(Reply::Done)));
}

#[test]
fn greeting_accepts_posting_allowed() {
    let (_, result) = run(Command::Greeting, &[b"200 posting ok\r\n"]);
    assert!(matches!(result, Ok(Reply::Done)));
}

#[test]
fn greeting_with_wrong_code_fails_connecting() {
    let (_, result) = run(Command::Greeting, &[b"400 go away\r\n"]);
    match result {
        Err(NNTPError::FailedConnecting { error, expected }) => {
            assert_eq!(expected, "greeting response");
            assert!(matches!(*error, NNTPError::ResponseCode { expected: 201, received: 400 }));
        }
        other => panic!("unexpected {:?}", other),
    }
}

#[test]
fn list_parses_groups() {
    let (sent, result) = run(
        Command::List,
        &[b"215 ok\r\n", b"misc.test 4 1 y\r\n", b"alt.x 100 50 n\r\n", b".\r\n"],
    );
    assert_eq!(sent, vec![s("LIST\r\n")]);
    match result {
        Ok(Reply::Groups(groups)) => {
            assert_eq!(groups.len(), 2);
            assert_eq!(
                groups[0],
                NewsGroup { name: s("misc.test"), high: 4, low: 1, number: 3, status: s("y") }
            );
            assert_eq!(
                groups[1],
                NewsGroup { name: s("alt.x"), high: 100, low: 50, number: 50, status: s("n") }
            );
        }
        other => panic!("unexpected {:?}", other),
    }
}

#[test]
fn list_with_malformed_line_is_invalid_response() {
    let (_, result) = run(Command::List, &[b"215 ok\r\n", b"misc.test 4\r\n", b".\r\n"]);
    match result {
        Err(NNTPError::InvalidResponse { response }) => assert_eq!(response, "misc.test 4\r\n"),
        other => panic!("unexpected {:?}", other),
    }
}

#[test]
fn group_selects() {
    let (sent, result) = run(
        Command::Group(s("comp.sys.raspberry-pi")),
        &[b"211 42 1 100 comp.sys.raspberry-pi\r\n"],
    );
    assert_eq!(sent, vec![s("GROUP comp.sys.raspberry-pi\r\n")]);
    match result {
        Ok(Reply::Group(g)) => assert_eq!(
            g,
            NewsGroup {
                name: s("comp.sys.raspberry-pi"),
                high: 100,
                low: 1,
                number: 42,
                status: s(""),
            }
        ),
        other => panic!("unexpected {:?}", other),
    }
}

#[test]
fn article_missing() {
    let (sent, result) = run(Command::Article(Target::Number(6187)), &[b"423 no such article\r\n"]);
    assert_eq!(sent, vec![s("ARTICLE 6187\r\n")]);
    assert!(matches!(result, Err(NNTPError::ArticleUnavailable)));
}

#[test]
fn raw_article_missing() {
    let (_, result) = run(Command::RawArticle(Target::Current), &[b"423 none\r\n"]);
    assert!(matches!(result, Err(NNTPError::ArticleUnavailable)));
}

#[test]
fn head_with_423_is_a_code_mismatch() {
    let (_, result) = run(Command::Head(Target::Current), &[b"423 none\r\n"]);
    assert!(matches!(result, Err(NNTPError::ResponseCode { expected: 221, received: 423 })));
}

#[test]
fn article_is_structured() {
    let (sent, result) = run(
        Command::Article(Target::Id(s("<a@b>"))),
        &[b"220 0 <a@b>\r\n", b"A: 1\r\n", b"B: 2\r\n", b"\r\n", b"body1\r\n", b"body2\r\n", b".\r\n"],
    );
    assert_eq!(sent, vec![s("ARTICLE <a@b>\r\n")]);
    match result {
        Ok(Reply::Article(a)) => {
            assert_eq!(a.headers, vec![(s("A"), s("1")), (s("B"), s("2"))]);
            assert_eq!(a.body, vec![s("body1\r\n"), s("body2\r\n")]);
        }
        other => panic!("unexpected {:?}", other),
    }
}

#[test]
fn raw_article_keeps_lines() {
    let (sent, result) = run(
        Command::RawArticle(Target::Number(-5)),
        &[b"220 ok\r\n", b"A: 1\r\n", b"\r\n", b"x\r\n", b".\r\n"],
    );
    assert_eq!(sent, vec![s("ARTICLE -5\r\n")]);
    match result {
        Ok(Reply::Lines(lines)) => assert_eq!(lines, vec![s("A: 1\r\n"), s("\r\n"), s("x\r\n")]),
        other => panic!("unexpected {:?}", other),
    }
}

#[test]
fn post_invalid_sends_nothing() {
    let (sent, result) = run(Command::Post(s("hello")), &[]);
    assert!(sent.is_empty());
    match result {
        Err(NNTPError::InvalidMessage { message, .. }) => assert_eq!(message, "hello"),
        other => panic!("unexpected {:?}", other),
    }
}

#[test]
fn post_happy() {
    let message = "From: a\r\n\r\nbody\r\n.\r\n";
    let (sent, result) = run(Command::Post(s(message)), &[b"340 go\r\n", b"240 ok\r\n"]);
    assert_eq!(sent, vec![s("POST\r\n"), s(message)]);
    assert!(matches!(result, Ok(Reply::Done)));
}

#[test]
fn post_refused_after_article() {
    let message = "From: a\r\n\r\nbody\r\n.\r\n";
    let (_, result) = run(Command::Post(s(message)), &[b"340 go\r\n", b"441 failed\r\n"]);
    assert!(matches!(result, Err(NNTPError::ResponseCode { expected: 240, received: 441 })));
}

#[test]
fn encoding_fallback_in_payload() {
    let (_, result) = run(Command::Body(Target::Current), &[b"222 body\r\n", b"caf\xE9\r\n", b".\r\n"]);
    match result {
        Ok(Reply::Lines(lines)) => {
            assert_eq!(lines, vec![s("caf\u{E9}\r\n")]);
            assert!(lines[0].contains('\u{E9}'));
        }
        other => panic!("unexpected {:?}", other),
    }
}

#[test]
fn undecodable_line_is_decoding_error() {
    let (_, result) = run(Command::Date, &[b"\xEF\xBB\xBF\xFF\r\n"]);
    assert!(matches!(result, Err(NNTPError::DecodingError)));
}

#[test]
fn network_error_mid_response() {
    let (mut exchange, _) = Exchange::start(Command::Help);
    exchange.on_line(b"100 help follows\r\n");
    let step = exchange.on_read_error(IoError { kind: IoErrorKind::UnexpectedEof, message: s("eof") });
    match step {
        Step::Finished(Err(e)) => {
            assert!(matches!(e, NNTPError::Io(_)));
            assert!(nntp::check_network_error(e));
        }
        other => panic!("unexpected {:?}", other),
    }
}

#[test]
fn read_error_during_article_is_failed_reading_article() {
    let (mut exchange, _) = Exchange::start(Command::Article(Target::Current));
    exchange.on_line(b"220 ok\r\n");
    let step = exchange.on_read_error(IoError { kind: IoErrorKind::InvalidData, message: s("bad") });
    assert!(matches!(step, Step::Finished(Err(NNTPError::FailedReadingArticle { .. }))));
}

#[test]
fn read_error_on_status_is_failed_reading_response() {
    let (mut exchange, _) = Exchange::start(Command::Date);
    let step = exchange.on_read_error(IoError { kind: IoErrorKind::Other, message: s("x") });
    assert!(matches!(step, Step::Finished(Err(NNTPError::FailedReadingResponse { .. }))));
}

#[test]
fn write_errors_are_classified() {
    let (mut exchange, _) = Exchange::start(Command::Date);
    let step = exchange.on_write_error(IoError { kind: IoErrorKind::PermissionDenied, message: s("x") });
    assert!(matches!(step, Step::Finished(Err(NNTPError::FailedWritingRequest { .. }))));
    let (mut exchange, _) = Exchange::start(Command::Date);
    let step = exchange.on_write_error(IoError { kind: IoErrorKind::BrokenPipe, message: s("x") });
    assert!(matches!(step, Step::Finished(Err(NNTPError::Io(_)))));
}

#[test]
fn single_line_commands_carry_text() {
    let (sent, result) = run(Command::Date, &[b"111 20240101120000\r\n"]);
    assert_eq!(sent, vec![s("DATE\r\n")]);
    assert!(matches!(result, Ok(Reply::Text(t)) if t == "20240101120000"));
    let (sent, result) = run(Command::Stat(Target::Number(3)), &[b"223 3 <id@x>\r\n"]);
    assert_eq!(sent, vec![s("STAT 3\r\n")]);
    assert!(matches!(result, Ok(Reply::Text(t)) if t == "3 <id@x>"));
    let (sent, _) = run(Command::Last, &[b"223 1 <a>\r\n"]);
    assert_eq!(sent, vec![s("LAST\r\n")]);
    let (sent, _) = run(Command::Next, &[b"223 2 <b>\r\n"]);
    assert_eq!(sent, vec![s("NEXT\r\n")]);
}

#[test]
fn mismatched_code_reports_both_codes() {
    let (_, result) = run(Command::Date, &[b"500 what\r\n"]);
    assert!(matches!(result, Err(NNTPError::ResponseCode { expected: 111, received: 500 })));
    let (_, result) = run(Command::Capabilities, &[b"480 auth\r\n"]);
    assert!(matches!(result, Err(NNTPError::ResponseCode { expected: 101, received: 480 })));
}

#[test]
fn malformed_status_is_invalid_response() {
    let (_, result) = run(Command::Date, &[b"11\r\n"]);
    match result {
        Err(NNTPError::InvalidResponse { response }) => assert_eq!(response, "11"),
        other => panic!("unexpected {:?}", other),
    }
    let (_, result) = run(Command::Date, &[b"1111 x\r\n"]);
    assert!(matches!(result, Err(NNTPError::InvalidResponse { .. })));
}

#[test]
fn payload_lines_keep_crlf_and_drop_terminator() {
    let (sent, result) = run(
        Command::Capabilities,
        &[b"101 caps\r\n", b"VERSION 2\r\n", b"READER\r\n", b"..dot\r\n", b".\r\n"],
    );
    assert_eq!(sent, vec![s("CAPABILITIES\r\n")]);
    match result {
        Ok(Reply::Lines(lines)) => {
            assert_eq!(lines, vec![s("VERSION 2\r\n"), s("READER\r\n"), s(".dot\r\n")]);
        }
        other => panic!("unexpected {:?}", other),
    }
}

#[test]
fn empty_payload() {
    let (_, result) = run(Command::Help, &[b"100 help\r\n", b".\r\n"]);
    assert!(matches!(result, Ok(Reply::Lines(l)) if l.is_empty()));
}

#[test]
fn request_lines() {
    let c = Command::NewGroups { date: s("20240101"), time: s("000000"), gmt: true };
    assert_eq!(c.request(), "NEWGROUPS 20240101 000000 GMT\r\n");
    let c = Command::NewGroups { date: s("20240101"), time: s("000000"), gmt: false };
    assert_eq!(c.request(), "NEWGROUPS 20240101 000000\r\n");
    let c = Command::NewNews { wildmat: s("comp.*"), date: s("20240101"), time: s("000000"), gmt: true };
    assert_eq!(c.request(), "NEWNEWS comp.* 20240101 000000 GMT\r\n");
    assert_eq!(Command::Head(Target::Id(s("<x@y>"))).request(), "HEAD <x@y>\r\n");
    assert_eq!(Command::Body(Target::Number(12)).request(), "BODY 12\r\n");
    assert_eq!(Command::Head(Target::Current).request(), "HEAD\r\n");
    assert_eq!(Command::Help.request(), "HELP\r\n");
    assert_eq!(Command::Greeting.request(), "");
}

#[test]
fn article_from_lines() {
    let lines = vec![s("A: 1\r\n"), s("B: 2\r\n"), s("\r\n"), s("body1\r\n"), s("body2\r\n")];
    let a = Article::new_article(lines);
    assert_eq!(a.headers, vec![(s("A"), s("1")), (s("B"), s("2"))]);
    assert_eq!(a.body, vec![s("body1\r\n"), s("body2\r\n")]);
}

#[test]
fn article_later_header_wins_and_blank_body_lines_stay() {
    let lines = vec![
        s("A: 1\r\n"),
        s("Subject: x: y\r\n"),
        s("A: 3\r\n"),
        s("NoColon\r\n"),
        s("\r\n"),
        s("b\r\n"),
        s("\r\n"),
        s("c\r\n"),
    ];
    let a = Article::new_article(lines);
    assert_eq!(
        a.headers,
        vec![(s("A"), s("3")), (s("Subject"), s("x: y")), (s("NoColon"), s(""))]
    );
    assert_eq!(a.body, vec![s("b\r\n"), s("\r\n"), s("c\r\n")]);
}

#[test]
fn article_without_blank_line_has_no_body() {
    let a = Article::new_article(vec![s("A: 1\r\n")]);
    assert_eq!(a.headers, vec![(s("A"), s("1"))]);
    assert!(a.body.is_empty());
}
