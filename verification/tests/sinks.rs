use smtp_relay::config::StrategyConfig;
use smtp_relay::smtp::session::SmtpSession;
use smtp_relay::strategies::resend::ResendStrategy;
use smtp_relay::strategies::webhook::{extract_html, WebhookStrategy};
use smtp_relay::strategies::{
    check_response, create_strategies, create_strategy, ApiStrategy, DispatchReport, Dispatcher,
    EmailData, SinkError, StrategyError,
};

fn config(kind: &str) -> StrategyConfig {
    StrategyConfig {
        strategy_type: kind.to_string(),
        api_key: None,
        api_url: None,
        from_address: None,
        extra_headers: None,
    }
}

fn pair(k: &str, v: &str) -> (String, String) {
    (k.to_string(), v.to_string())
}

fn email(raw: &str) -> EmailData {
    EmailData {
        from: "a@x.com".to_string(),
        to: vec!["b@y.com".to_string(), "c@z.com".to_string()],
        subject: "Hi".to_string(),
        body: raw.to_string(),
        raw_data: raw.to_string(),
    }
}

#[test]
fn webhook_kinds_and_default_url() {
    for kind in ["webhook", "http", "generic"] {
        match create_strategy(config(kind)).unwrap() {
            ApiStrategy::Webhook(s) => {
                assert_eq!(s.url(), "http://localhost:3000/email");
                assert_eq!(s.headers(), &vec![pair("content-type", "application/json")]);
                assert_eq!(s.name(), "webhook");
            }
            other => panic!("unexpected sink {:?}", other),
        }
    }
    let mut c = config("webhook");
    c.api_url = Some("https://example.com/hook".to_string());
    let sink = create_strategy(c).unwrap();
    assert_eq!(sink.name(), "webhook");
    match sink {
        ApiStrategy::Webhook(s) => assert_eq!(s.url(), "https://example.com/hook"),
        other => panic!("unexpected sink {:?}", other),
    }
}

#[test]
fn webhook_keeps_only_acceptable_headers() {
    let extra = vec![
        pair("X-Token", "secret"),
        pair("bad name", "v"),
        pair("", "v"),
        pair("X-Break", "a\nb"),
        pair("X-Tab", "a\tb"),
        pair("X-Del", "a\u{7f}"),
        pair("X-Utf8", "caf\u{e9}"),
        pair("N\u{e9}", "v"),
        pair("a:b", "v"),
        pair("!#$%&'*+-.^_`|~09azAZ", ""),
    ];
    let s = WebhookStrategy::new("http://h/".to_string(), Some(extra));
    assert_eq!(
        s.headers(),
        &vec![
            pair("content-type", "application/json"),
            pair("X-Token", "secret"),
            pair("X-Tab", "a\tb"),
            pair("X-Utf8", "caf\u{e9}"),
            pair("!#$%&'*+-.^_`|~09azAZ", ""),
        ]
    );
    assert_eq!(s.url(), "http://h/");
}

#[test]
fn webhook_header_name_length_limit() {
    let longest = "a".repeat(65535);
    let too_long = "a".repeat(65536);
    let s = WebhookStrategy::new(
        String::new(),
        Some(vec![(too_long, "v".to_string()), (longest.clone(), "v".to_string())]),
    );
    assert_eq!(s.headers().len(), 2);
    assert_eq!(s.headers()[1].0, longest);
}

#[test]
fn resend_needs_a_usable_key() {
    let mut c = config("resend");
    assert_eq!(create_strategy(c.clone()).unwrap_err(), StrategyError::MissingApiKey);
    c.api_key = Some("re_123".to_string());
    let sink = create_strategy(c.clone()).unwrap();
    assert_eq!(sink.name(), "resend");
    match sink {
        ApiStrategy::Resend(s) => {
            assert_eq!(s.authorization(), "Bearer re_123");
            assert_eq!(s.name(), "resend");
        }
        other => panic!("unexpected sink {:?}", other),
    }
    c.api_key = Some("line\nbreak".to_string());
    assert_eq!(create_strategy(c).unwrap_err(), StrategyError::InvalidApiKey);
    assert!(ResendStrategy::new("k\u{0}".to_string()).is_err());
    assert!(ResendStrategy::new(String::new()).is_ok());
}

#[test]
fn unknown_kind_is_an_error() {
    let e = create_strategy(config("smtp")).unwrap_err();
    assert_eq!(e, StrategyError::UnknownStrategy("smtp".to_string()));
    assert_eq!(e.message(), "Unknown API strategy: smtp");
    assert_eq!(create_strategy(config("Webhook")).unwrap_err(), StrategyError::UnknownStrategy("Webhook".to_string()));
    assert_eq!(StrategyError::MissingApiKey.message(), "api_key is required for resend strategy");
    assert_eq!(StrategyError::InvalidApiKey.message(), "failed to parse header value");
}

#[test]
fn strategies_are_made_in_order_and_the_first_error_wins() {
    let mut resend = config("resend");
    resend.api_key = Some("k".to_string());
    let sinks = create_strategies(vec![config("http"), resend.clone(), config("generic")]).unwrap();
    let names: Vec<&str> = sinks.iter().map(|s| s.name()).collect();
    assert_eq!(names, vec!["webhook", "resend", "webhook"]);
    assert!(create_strategies(Vec::new()).unwrap().is_empty());
    let e = create_strategies(vec![config("http"), config("nope"), config("resend")]).unwrap_err();
    assert_eq!(e, StrategyError::UnknownStrategy("nope".to_string()));
    let e = create_strategies(vec![config("resend"), config("nope")]).unwrap_err();
    assert_eq!(e, StrategyError::MissingApiKey);
}

#[test]
fn webhook_payload_carries_the_record_and_html() {
    let s = WebhookStrategy::new("http://h/".to_string(), None);
    let p = s.payload(email("Content-Type: text/html\r\n\r\n<p>one</p>\r\n<p>two</p>\r\n"));
    assert_eq!(p.from, "a@x.com");
    assert_eq!(p.to, vec!["b@y.com".to_string(), "c@z.com".to_string()]);
    assert_eq!(p.subject, "Hi");
    assert_eq!(p.body, "Content-Type: text/html\r\n\r\n<p>one</p>\r\n<p>two</p>\r\n");
    assert_eq!(p.html.as_deref(), Some("<p>one</p>\n<p>two</p>"));
    let q = s.payload(email("Subject: x\r\n\r\nplain"));
    assert!(q.html.is_none());
}

#[test]
fn html_is_taken_up_to_the_next_boundary_or_header() {
    assert_eq!(extract_html(""), None);
    assert_eq!(extract_html("plain\ntext"), None);
    assert_eq!(extract_html("Content-Type: text/html"), None);
    assert_eq!(
        extract_html("--b\nContent-Type: text/plain\n\nhi\n--b\ncontent-type: TEXT/HTML; charset=utf-8\n\n<b>hi</b>\n\n<i>x</i>\n--b--\nlater").as_deref(),
        Some("<b>hi</b>\n<i>x</i>")
    );
    assert_eq!(
        extract_html("Content-Type: text/html\nContent-Transfer-Encoding: 7bit\n\n<b>never</b>"),
        None
    );
    assert_eq!(
        extract_html("Content-Type: text/html\ncontent-x: kept\n<b>a</b>\nContent-Type: text/html\n<b>b</b>").as_deref(),
        Some("content-x: kept\n<b>a</b>\n<b>b</b>")
    );
}

#[test]
fn resend_payload_carries_the_decoded_content() {
    let s = ResendStrategy::new("k".to_string()).unwrap();
    let raw = "Content-Type: multipart/mixed; boundary=XYZ\r\n\r\n--XYZ\r\nContent-Type: text/plain\r\n\r\nhello\r\n--XYZ\r\nContent-Type: text/html\r\n\r\n<b>hi</b>\r\n--XYZ\r\nContent-Type: application/pdf\r\nContent-Disposition: attachment; filename=a.pdf\r\n\r\nPDF\r\n--XYZ--\r\n";
    let p = s.payload(email(raw));
    assert_eq!(p.from, "a@x.com");
    assert_eq!(p.to, vec!["b@y.com".to_string(), "c@z.com".to_string()]);
    assert_eq!(p.subject.as_deref(), Some("Hi"));
    assert_eq!(p.reply_to.as_deref(), Some("a@x.com"));
    assert_eq!(p.text.as_deref(), Some("hello"));
    assert_eq!(p.html.as_deref(), Some("<b>hi</b>"));
    let a = p.attachments.unwrap();
    assert_eq!(a.len(), 1);
    assert_eq!(a[0].filename, "a.pdf");
    assert_eq!(a[0].content, "UERG");
    assert_eq!(a[0].content_type.as_deref(), Some("application/pdf"));
}

#[test]
fn only_2xx_is_a_success() {
    for status in [200u16, 201, 204, 299] {
        assert_eq!(check_response(status, "ok".to_string()), Ok(()));
    }
    for status in [0u16, 100, 199, 300, 301, 404, 500, 999, 65535] {
        assert_eq!(
            check_response(status, "why".to_string()),
            Err(SinkError { status, body: "why".to_string() })
        );
    }
}

#[test]
fn sink_isolation() {
    let mut s = SmtpSession::new();
    s.handle_command("MAIL FROM:<a@x.com>");
    s.handle_command("RCPT TO:<b@y.com>");
    s.handle_command("DATA");
    let (record, response) = s.handle_data("Subject: Hi\r\n\r\nHello\r\n".to_string());
    assert!(record.is_some());

    let mut d = Dispatcher::new(2);
    assert_eq!(d.next(), Some(0));
    d.record(check_response(500, "down".to_string()).is_ok());
    assert_eq!(d.next(), Some(1));
    d.record(check_response(200, "{}".to_string()).is_ok());
    assert_eq!(d.next(), None);
    assert_eq!(d.report(), DispatchReport { succeeded: 1, failed: 1 });
    assert_eq!(response, "250 OK\r\n");
}

#[test]
fn dispatcher_tries_every_sink_once() {
    let mut d = Dispatcher::new(3);
    assert_eq!(d.report(), DispatchReport { succeeded: 0, failed: 0 });
    let mut order = Vec::new();
    while let Some(i) = d.next() {
        order.push(i);
        d.record(i == 1);
    }
    assert_eq!(order, vec![0, 1, 2]);
    assert_eq!(d.report(), DispatchReport { succeeded: 1, failed: 2 });
    d.record(true);
    assert_eq!(d.next(), None);
    assert_eq!(d.report(), DispatchReport { succeeded: 1, failed: 2 });
    let mut none = Dispatcher::new(0);
    assert_eq!(none.next(), None);
    none.record(true);
    assert_eq!(none.report(), DispatchReport { succeeded: 0, failed: 0 });
}

#[test]
fn html_lines_keep_a_bare_carriage_return() {
    assert_eq!(extract_html("Content-Type: text/html\nabc\r").as_deref(), Some("abc\r"));
    assert_eq!(extract_html("Content-Type: text/html\nabc\r\n").as_deref(), Some("abc"));
    assert_eq!(extract_html("Content-Type: text/html\nabc\r\r\nd").as_deref(), Some("abc\r\nd"));
    assert_eq!(extract_html("Content-Type: text/html\n\r\n\nabc").as_deref(), Some("abc"));
}
