use smtp_relay::smtp::{greeting, Action, Connection};

fn respond(c: &mut Connection, line: &str) -> (String, bool) {
    match c.on_line(line) {
        Action::Respond { response, close } => (response, close),
        other => panic!("unexpected action {:?}", other),
    }
}

fn in_data_phase() -> Connection {
    let mut c = Connection::new();
    assert_eq!(respond(&mut c, "EHLO x\r\n"), ("250 Hello\r\n".to_string(), false));
    assert_eq!(respond(&mut c, "MAIL FROM:<a@x.com>\r\n"), ("250 OK\r\n".to_string(), false));
    assert_eq!(respond(&mut c, "RCPT TO:<b@y.com>\r\n"), ("250 OK\r\n".to_string(), false));
    assert_eq!(
        respond(&mut c, "DATA\r\n"),
        ("354 End data with <CR><LF>.<CR><LF>\r\n".to_string(), false)
    );
    assert!(c.in_data_mode());
    c
}

fn finish(c: &mut Connection, line: &str) -> String {
    match c.on_line(line) {
        Action::Deliver { record, response } => {
            assert_eq!(response, "250 OK\r\n");
            record.unwrap().body
        }
        other => panic!("unexpected action {:?}", other),
    }
}

#[test]
fn greeting_is_the_banner() {
    assert_eq!(greeting(), "220 SMTP Server Ready\r\n");
}

#[test]
fn end_to_end_transaction() {
    let mut c = Connection::new();
    assert_eq!(respond(&mut c, "EHLO client\r\n").0, "250 Hello\r\n");
    assert_eq!(respond(&mut c, "MAIL FROM:<a@x.com>\r\n").0, "250 OK\r\n");
    assert_eq!(respond(&mut c, "RCPT TO:<b@y.com>\r\n").0, "250 OK\r\n");
    assert_eq!(respond(&mut c, "DATA\r\n").0, "354 End data with <CR><LF>.<CR><LF>\r\n");
    assert!(matches!(c.on_line("Subject: Hi\r\n"), Action::ReadMore));
    assert!(matches!(c.on_line("\r\n"), Action::ReadMore));
    assert!(matches!(c.on_line("Hello\r\n"), Action::ReadMore));
    match c.on_line(".\r\n") {
        Action::Deliver { record, response } => {
            assert_eq!(response, "250 OK\r\n");
            let record = record.unwrap();
            assert_eq!(record.from, "a@x.com");
            assert_eq!(record.to, vec!["b@y.com".to_string()]);
            assert_eq!(record.subject, "Hi");
            assert_eq!(record.body, "Subject: Hi\r\n\r\nHello\r\n");
            assert!(record.body.contains("Hello\r\n"));
            assert_eq!(record.raw_data, record.body);
        }
        other => panic!("unexpected action {:?}", other),
    }
    assert!(!c.in_data_mode());
    assert_eq!(respond(&mut c, "QUIT\r\n"), ("221 Bye\r\n".to_string(), true));
}

#[test]
fn dot_stuffed_line_loses_one_dot() {
    let mut c = in_data_phase();
    assert!(matches!(c.on_line("..x\r\n"), Action::ReadMore));
    assert_eq!(finish(&mut c, ".\r\n"), ".x\r\n");
}

#[test]
fn only_the_terminator_is_left_out() {
    let mut c = in_data_phase();
    for line in ["a\r\n", ".b\r\n", "..\r\n", "...c\r\n", "\r\n", " x .\r\n", "QUIT\r\n", "bare\n"] {
        assert!(matches!(c.on_line(line), Action::ReadMore));
    }
    assert_eq!(finish(&mut c, ".\r\n"), "a\r\n.b\r\n.\r\n..c\r\n\r\n x .\r\nQUIT\r\nbare\n");
}

#[test]
fn terminator_may_carry_whitespace() {
    let mut c = in_data_phase();
    assert!(matches!(c.on_line("one\n"), Action::ReadMore));
    assert_eq!(finish(&mut c, " . \n"), "one\n");
    let mut d = in_data_phase();
    assert_eq!(finish(&mut d, "."), "");
}

#[test]
fn end_of_stream_closes_without_an_answer() {
    let mut c = Connection::new();
    assert!(matches!(c.on_line(""), Action::Close));
    let mut d = in_data_phase();
    assert!(matches!(d.on_line("half a message\r\n"), Action::ReadMore));
    assert!(matches!(d.on_line(""), Action::Close));
}

#[test]
fn command_lines_are_trimmed() {
    let mut c = Connection::new();
    assert_eq!(respond(&mut c, "   NOOP  \r\n"), ("250 OK\r\n".to_string(), false));
    assert_eq!(respond(&mut c, "\r\n"), ("500 Syntax error\r\n".to_string(), false));
    assert_eq!(respond(&mut c, "quit\n"), ("221 Bye\r\n".to_string(), true));
}

#[test]
fn a_second_message_starts_with_an_empty_body() {
    let mut c = in_data_phase();
    assert!(matches!(c.on_line("first\r\n"), Action::ReadMore));
    assert_eq!(finish(&mut c, ".\r\n"), "first\r\n");
    assert_eq!(respond(&mut c, "DATA\r\n").0, "503 Need MAIL and RCPT commands first\r\n");
    assert_eq!(respond(&mut c, "MAIL FROM:<a@x.com>\r\n").0, "250 OK\r\n");
    assert_eq!(respond(&mut c, "RCPT TO:<b@y.com>\r\n").0, "250 OK\r\n");
    assert_eq!(respond(&mut c, "DATA\r\n").0, "354 End data with <CR><LF>.<CR><LF>\r\n");
    assert!(matches!(c.on_line("second\r\n"), Action::ReadMore));
    assert_eq!(finish(&mut c, ".\r\n"), "second\r\n");
}
