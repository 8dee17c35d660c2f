use smtp_relay::mime::{
    assemble_part, base64_outcome, classify_part, decode_body, decode_part,
    decode_quoted_printable, extract_filename, get_header, hex_value, octets_to_text,
    parse_email, parse_multipart, split_headers_body, Part, PartKind,
};

fn chars(s: &str) -> Vec<char> {
    s.chars().collect()
}

fn text(v: &[char]) -> String {
    v.iter().collect()
}

#[test]
fn headers_and_body_split_at_the_first_blank_line() {
    assert_eq!(split_headers_body("A: 1\r\nB: 2\r\n\r\nbody\r\n\r\nmore"), Some(("A: 1\r\nB: 2", "body\r\n\r\nmore")));
    assert_eq!(split_headers_body("A: 1\n\nbody"), Some(("A: 1", "body")));
    assert_eq!(split_headers_body("\r\n\r\n"), Some(("", "")));
    assert_eq!(split_headers_body("no separator here\r\n"), None);
    assert_eq!(split_headers_body(""), None);
}

#[test]
fn crlf_separator_is_preferred_to_lf() {
    assert_eq!(split_headers_body("a\n\nb\r\n\r\nc"), Some(("a\n\nb", "c")));
}

#[test]
fn header_lookup_ignores_case_and_takes_the_first() {
    let headers = "From: a@x.com\r\ncontent-TYPE:  text/html; charset=utf-8 \r\nContent-Type: text/plain";
    assert_eq!(get_header(headers, "content-type"), "text/html; charset=utf-8");
    assert_eq!(get_header(headers, "Content-Type"), "text/html; charset=utf-8");
    assert_eq!(get_header(headers, "from"), "a@x.com");
    assert_eq!(get_header(headers, "subject"), "");
    assert_eq!(get_header("X-Time: 10:30:00\n", "x-time"), "10:30:00");
}

#[test]
fn quoted_printable_octets() {
    assert_eq!(decode_quoted_printable("Caf=C3=A9"), "Caf\u{e9}");
    assert_eq!(decode_quoted_printable("Caf=C3=A9").as_bytes(), [0x43, 0x61, 0x66, 0xC3, 0xA9]);
    assert_eq!(decode_quoted_printable("=41=62=7a"), "Abz");
    assert_eq!(decode_quoted_printable("a=3Db"), "a=b");
    assert_eq!(decode_quoted_printable("=E2=82=AC 5"), "\u{20ac} 5");
    assert_eq!(decode_quoted_printable("=f0=9f=98=80"), "\u{1f600}");
    assert_eq!(decode_quoted_printable("Caf\u{e9}=21"), "Caf\u{e9}!");
    assert_eq!(decode_quoted_printable("=00=fF"), "\u{0}\u{FFFD}");
    assert_eq!(decode_quoted_printable("=C3"), "\u{FFFD}");
    assert_eq!(decode_quoted_printable("=C3x=A9"), "\u{FFFD}x\u{FFFD}");
    assert_eq!(decode_quoted_printable("plain text"), "plain text");
    assert_eq!(decode_quoted_printable(""), "");
}

#[test]
fn quoted_printable_soft_line_breaks() {
    assert_eq!(decode_quoted_printable("one=\r\ntwo=\nthree"), "onetwothree");
    assert_eq!(decode_quoted_printable("x=\r\n"), "x");
    assert_eq!(decode_quoted_printable("x=\n=41"), "xA");
    assert_eq!(decode_quoted_printable("hard\r\nbreak"), "hard\r\nbreak");
}

#[test]
fn quoted_printable_malformed_escapes_pass_through() {
    assert_eq!(decode_quoted_printable("=ZZ"), "=ZZ");
    assert_eq!(decode_quoted_printable("a=4"), "a=4");
    assert_eq!(decode_quoted_printable("a="), "a=");
    assert_eq!(decode_quoted_printable("=4G=41"), "=4GA");
    assert_eq!(decode_quoted_printable("=X=41"), "=X=41");
    assert_eq!(decode_quoted_printable("=+A"), "=+A");
    assert_eq!(decode_quoted_printable("=\rAB"), "=\rAB");
}

#[test]
fn body_is_decoded_as_its_header_says() {
    assert_eq!(decode_body("Caf=C3=A9", "Content-Transfer-Encoding: quoted-printable"), "Caf\u{e9}".as_bytes());
    assert_eq!(decode_body("Caf=C3=A9", "content-transfer-encoding: QUOTED-PRINTABLE"), [0x43, 0x61, 0x66, 0xC3, 0xA9]);
    assert_eq!(decode_body("=FF=D8", "Content-Transfer-Encoding: quoted-printable"), [0xFF, 0xD8]);
    assert_eq!(decode_body("aGVsbG8=", "Content-Transfer-Encoding: base64"), b"hello");
    assert_eq!(decode_body("aGVs\r\nbG8=\r\n", "Content-Transfer-Encoding: Base64"), b"hello");
    assert_eq!(decode_body("Q2Fmw6k=", "Content-Transfer-Encoding: base64"), "Caf\u{E9}".as_bytes());
    assert_eq!(decode_body("/9g=", "Content-Transfer-Encoding: base64"), [0xFF, 0xD8]);
    assert_eq!(decode_body("a=41", "Content-Transfer-Encoding: 7bit"), b"a=41");
    assert_eq!(decode_body("aGVsbG8=", "Content-Type: text/plain"), b"aGVsbG8=");
    assert_eq!(decode_body("Caf\u{e9}", ""), "Caf\u{e9}".as_bytes());
}

#[test]
fn invalid_base64_is_left_unchanged() {
    let headers = "Content-Transfer-Encoding: base64";
    assert_eq!(decode_body("this is not base64!", headers), b"this is not base64!");
    assert_eq!(decode_body("aGVsbG8", headers), b"aGVsbG8");
    assert_eq!(decode_body("aGVs\r\nbG8\r\n", headers), b"aGVs\r\nbG8\r\n");
    assert_eq!(decode_body("a", headers), b"a");
    assert_eq!(decode_body("caf\u{e9}", headers), "caf\u{e9}".as_bytes());
    let (text, html, attachments) =
        parse_email("Content-Transfer-Encoding: base64\r\n\r\nthis is not base64!\r\n");
    assert_eq!(text.as_deref(), Some("this is not base64!\r\n"));
    assert!(html.is_none() && attachments.is_none());
}

#[test]
fn base64_octets_that_are_not_utf8_are_replaced() {
    let (text, _, _) = parse_email("Content-Transfer-Encoding: base64\n\n/w==");
    assert_eq!(text.as_deref(), Some("\u{FFFD}"));
    let (_, html, _) =
        parse_email("Content-Type: text/html\nContent-Transfer-Encoding: base64\n\nYf9i");
    assert_eq!(html.as_deref(), Some("a\u{FFFD}b"));
    assert_eq!(octets_to_text(&vec![0x61, 0xFF, 0x62]), "a\u{FFFD}b");
    assert_eq!(octets_to_text(&vec![0x43, 0x61, 0x66, 0xC3, 0xA9]), "Caf\u{e9}");
    assert_eq!(octets_to_text(&Vec::new()), "");
}

#[test]
fn message_without_blank_line_is_plain_text() {
    let (text, html, attachments) = parse_email("just one line");
    assert_eq!(text.as_deref(), Some("just one line"));
    assert!(html.is_none());
    assert!(attachments.is_none());
}

#[test]
fn single_part_messages() {
    let (text, html, attachments) = parse_email("Content-Type: text/plain\r\n\r\nhello");
    assert_eq!(text.as_deref(), Some("hello"));
    assert!(html.is_none() && attachments.is_none());

    let (text, html, attachments) = parse_email("Content-Type: TEXT/HTML; charset=utf-8\r\nContent-Transfer-Encoding: quoted-printable\r\n\r\n<p>a=3Db</p>");
    assert!(text.is_none() && attachments.is_none());
    assert_eq!(html.as_deref(), Some("<p>a=3Db</p>".replace("=3D", "=").as_str()));

    let (text, html, _) = parse_email("Subject: x\n\nbody\n");
    assert_eq!(text.as_deref(), Some("body\n"));
    assert!(html.is_none());
}

#[test]
fn multipart_round_trip() {
    let raw = "Content-Type: multipart/alternative; boundary=XYZ\r\n\r\n--XYZ\r\nContent-Type: text/plain\r\n\r\nhello\r\n--XYZ\r\nContent-Type: text/html\r\n\r\n<b>hi</b>\r\n--XYZ--\r\n";
    let (text, html, attachments) = parse_email(raw);
    assert_eq!(text.as_deref(), Some("hello"));
    assert_eq!(html.as_deref(), Some("<b>hi</b>"));
    assert!(attachments.is_none());
}

#[test]
fn multipart_boundary_may_be_quoted() {
    let raw = "MIME-Version: 1.0\nContent-Type: Multipart/Mixed; boundary=\"b1\"\n\n--b1\nContent-Type: text/plain\n\none\n--b1\nContent-Type: text/plain\n\ntwo\n--b1\nContent-Type: text/html\n\n<i>x</i>\n--b1\nContent-Type: text/html\n\n<i>y</i>\n--b1--\n";
    let (text, html, attachments) = parse_email(raw);
    assert_eq!(text.as_deref(), Some("one\n\ntwo"));
    assert_eq!(html.as_deref(), Some("<i>x</i><br><br><i>y</i>"));
    assert!(attachments.is_none());
}

#[test]
fn missing_boundary_gives_the_whole_body_as_text() {
    let raw = "Content-Type: multipart/mixed\r\n\r\n--XYZ\r\nContent-Type: text/html\r\n\r\n<b>hi</b>\r\n--XYZ--\r\n";
    let (text, html, attachments) = parse_email(raw);
    assert_eq!(text.as_deref(), Some("--XYZ\r\nContent-Type: text/html\r\n\r\n<b>hi</b>\r\n--XYZ--\r\n"));
    assert!(html.is_none());
    assert!(attachments.is_none());

    let (text, html, attachments) = parse_multipart("the body", "Content-Type: multipart/mixed; Boundary=XYZ");
    assert_eq!(text.as_deref(), Some("the body"));
    assert!(html.is_none() && attachments.is_none());
}

#[test]
fn attachment_is_decoded_and_encoded_for_transport() {
    let raw = "Content-Type: multipart/mixed; boundary=sep\r\n\r\n--sep\r\nContent-Type: text/plain\r\n\r\nsee attached\r\n--sep\r\nContent-Type: application/pdf; name=\"Report.PDF\"\r\nContent-Disposition: attachment; filename=\"report.pdf\"\r\nContent-Transfer-Encoding: base64\r\n\r\naGVsbG8=\r\n--sep--\r\n";
    let (text, html, attachments) = parse_email(raw);
    assert_eq!(text.as_deref(), Some("see attached"));
    assert!(html.is_none());
    let attachments = attachments.unwrap();
    assert_eq!(attachments.len(), 1);
    assert_eq!(attachments[0].filename, "report.pdf");
    assert_eq!(attachments[0].content, "aGVsbG8=");
    assert_eq!(attachments[0].content_type.as_deref(), Some("application/pdf; name=\"Report.PDF\""));
}

#[test]
fn attachment_content_is_base64_of_the_decoded_body() {
    let raw = "Content-Type: multipart/mixed; boundary=sep\n\n--sep\nContent-Type: application/octet-stream; name=Data.BIN\n\nxyz\n--sep\nContent-Type: text/plain\nContent-Disposition: ATTACHMENT; filename='notes.txt'\nContent-Transfer-Encoding: quoted-printable\n\nCaf=C3=A9\n--sep--\n";
    let (text, html, attachments) = parse_email(raw);
    assert!(text.is_none());
    assert!(html.is_none());
    let attachments = attachments.unwrap();
    assert_eq!(attachments.len(), 2);
    assert_eq!(attachments[0].filename, "Data.BIN");
    assert_eq!(attachments[0].content, "eHl6");
    assert_eq!(attachments[0].content_type.as_deref(), Some("application/octet-stream; name=Data.BIN"));
    assert_eq!(attachments[1].filename, "notes.txt");
    assert_eq!(attachments[1].content, "Q2Fmw6k=");
    assert_eq!(attachments[1].content_type.as_deref(), Some("text/plain"));
}

#[test]
fn attachment_without_a_file_name_is_dropped() {
    let raw = "Content-Type: multipart/mixed; boundary=sep\n\n--sep\nContent-Type: image/png\n\nbinary\n--sep\nContent-Disposition: attachment\nContent-Type: text/plain\n\nalso dropped\n--sep--\n";
    let (text, html, attachments) = parse_email(raw);
    assert!(text.is_none());
    assert!(html.is_none());
    assert!(attachments.is_none());
}

#[test]
fn segments_without_headers_are_skipped() {
    let raw = "Content-Type: multipart/mixed; boundary=sep\n\npreamble without blank line\n--sep\n\n--sep\nContent-Type: text/plain\n\nkept\n--sep\nno separator\n--sep--\nepilogue";
    let (text, html, attachments) = parse_email(raw);
    assert_eq!(text.as_deref(), Some("kept"));
    assert!(html.is_none());
    assert!(attachments.is_none());
}

#[test]
fn file_names_come_from_disposition_first() {
    assert_eq!(extract_filename("Content-Disposition: attachment; filename=\"a.txt\"", "text/plain; name=b.txt").as_deref(), Some("a.txt"));
    assert_eq!(extract_filename("Content-Disposition: attachment", "text/plain; name=\"b.txt\"").as_deref(), Some("b.txt"));
    assert_eq!(extract_filename("", "application/zip; name= 'c.zip' ").as_deref(), Some("c.zip"));
    assert_eq!(extract_filename("", "image/png; NAME=\"Logo.PNG\"").as_deref(), Some("Logo.PNG"));
    assert_eq!(extract_filename("", "x/y; Name=A.Txt; name=B.Txt").as_deref(), Some("A.Txt;"));
    assert_eq!(extract_filename("Content-Disposition: attachment; FILENAME=a.txt", "text/plain"), None);
    assert_eq!(extract_filename("Content-Disposition: attachment; filename=", "text/plain").as_deref(), Some(""));
    assert_eq!(extract_filename("Content-Disposition: inline", "text/plain"), None);
    assert_eq!(extract_filename("Content-Disposition: attachment; filename=a; filename=b", "").as_deref(), Some("a;"));
}

#[test]
fn header_values_are_trimmed_like_text() {
    for code in 0u32..0x3100 {
        let c = match char::from_u32(code) {
            Some(c) if c != '\n' => c,
            _ => continue,
        };
        let inner = format!("{}v{}", c, c);
        let headers = format!("x:{}", inner);
        assert_eq!(get_header(&headers, "x"), inner.trim(), "for U+{:04X}", code);
    }
    assert_eq!(get_header("x: \u{200b}v\u{200b} ", "x"), "\u{200b}v\u{200b}");
    assert_eq!(get_header("x:\u{feff}v", "x"), "\u{feff}v");
}

#[test]
fn header_blocks_are_read_line_by_line() {
    let headers = "A: 1\r\nB: 2\nC: 3\r\r\nD: 4\rE: 5";
    assert_eq!(get_header(headers, "a"), "1");
    assert_eq!(get_header(headers, "b"), "2");
    assert_eq!(get_header(headers, "c"), "3");
    assert_eq!(get_header(headers, "d"), "4\rE: 5");
    assert_eq!(get_header(headers, "e"), "");
    let expected: Vec<&str> = headers.lines().collect();
    assert_eq!(expected, vec!["A: 1", "B: 2", "C: 3\r", "D: 4\rE: 5"]);
}

#[test]
fn base64_body_keeps_the_decoded_text_or_itself() {
    assert_eq!(base64_outcome(&chars("aGk="), Some(b"hi".to_vec())), b"hi");
    assert_eq!(base64_outcome(&chars("/9g="), Some(vec![0xFF, 0xD8])), [0xFF, 0xD8]);
    assert_eq!(base64_outcome(&chars("aGk="), Some(Vec::new())), b"");
    assert_eq!(base64_outcome(&chars("not base64"), None), b"not base64");
    assert_eq!(base64_outcome(&chars("caf\u{e9}"), None), "caf\u{e9}".as_bytes());
    assert_eq!(base64_outcome(&Vec::new(), None), b"");
}

#[test]
fn hexadecimal_digits() {
    assert_eq!(hex_value('0'), Some(0));
    assert_eq!(hex_value('9'), Some(9));
    assert_eq!(hex_value('a'), Some(10));
    assert_eq!(hex_value('f'), Some(15));
    assert_eq!(hex_value('A'), Some(10));
    assert_eq!(hex_value('F'), Some(15));
    for c in ['g', 'G', '/', ':', '@', '`', ' ', '+', '\u{663}', '\u{ff11}'] {
        assert_eq!(hex_value(c), None);
    }
}

#[test]
fn parts_are_classified_by_their_headers() {
    assert!(matches!(classify_part(&chars("Content-Type: text/plain")), PartKind::Text));
    assert!(matches!(classify_part(&chars("content-type: Text/Plain; charset=utf-8")), PartKind::Text));
    assert!(matches!(classify_part(&chars("Content-Type: text/html")), PartKind::Html));
    assert!(matches!(classify_part(&chars("Content-Type: text/plain; alt=text/html")), PartKind::Html));
    assert!(matches!(classify_part(&chars("")), PartKind::Dropped));
    assert!(matches!(classify_part(&chars("Content-Type: image/png")), PartKind::Dropped));
    assert!(matches!(
        classify_part(&chars("Content-Type: text/plain\nContent-Disposition: attachment")),
        PartKind::Dropped
    ));
    match classify_part(&chars("Content-Type: text/html\nContent-Disposition:Attachment; filename=page.html")) {
        PartKind::File { filename, content_type } => {
            assert_eq!(text(&filename), "page.html");
            assert_eq!(text(&content_type), "text/html");
        }
        other => panic!("unexpected kind {:?}", other),
    }
    match classify_part(&chars("Content-Type: Image/PNG; NAME=\"Logo.PNG\"")) {
        PartKind::File { filename, content_type } => {
            assert_eq!(text(&filename), "Logo.PNG");
            assert_eq!(text(&content_type), "Image/PNG; NAME=\"Logo.PNG\"");
        }
        other => panic!("unexpected kind {:?}", other),
    }
    match classify_part(&chars("Content-Disposition: inline; filename=x.bin")) {
        PartKind::File { filename, content_type } => {
            assert_eq!(text(&filename), "x.bin");
            assert_eq!(text(&content_type), "");
        }
        other => panic!("unexpected kind {:?}", other),
    }
}

#[test]
fn parts_are_assembled_from_kind_and_content() {
    assert!(matches!(
        assemble_part(PartKind::Dropped, "x".to_string()),
        Part::Skipped
    ));
    match assemble_part(PartKind::Text, "x".to_string()) {
        Part::Text(t) => assert_eq!(text(&t), "x"),
        other => panic!("unexpected part {:?}", other),
    }
    match assemble_part(PartKind::Html, "<p>".to_string()) {
        Part::Html(t) => assert_eq!(text(&t), "<p>"),
        other => panic!("unexpected part {:?}", other),
    }
    let kind = PartKind::File { filename: chars("a.bin"), content_type: chars("application/x") };
    match assemble_part(kind, "eA==".to_string()) {
        Part::File(a) => {
            assert_eq!(a.filename, "a.bin");
            assert_eq!(a.content, "eA==");
            assert_eq!(a.content_type.as_deref(), Some("application/x"));
        }
        other => panic!("unexpected part {:?}", other),
    }
}

#[test]
fn segments_are_decoded_into_parts() {
    assert!(matches!(decode_part(&chars("")), Part::Skipped));
    assert!(matches!(decode_part(&chars(" \r\n\t ")), Part::Skipped));
    assert!(matches!(decode_part(&chars("\r\n--\r\n")), Part::Skipped));
    assert!(matches!(decode_part(&chars("Content-Type: text/plain\r\nno blank line")), Part::Skipped));
    match decode_part(&chars("\r\nContent-Type: text/plain\r\n\r\n  hello \r\n")) {
        Part::Text(t) => assert_eq!(text(&t), "  hello"),
        other => panic!("unexpected part {:?}", other),
    }
    match decode_part(&chars("Content-Type: text/html\nContent-Transfer-Encoding: base64\n\nPGI+aGk8L2I+")) {
        Part::Html(t) => assert_eq!(text(&t), "<b>hi</b>"),
        other => panic!("unexpected part {:?}", other),
    }
}

#[test]
fn file_name_from_the_content_type_is_kept_as_written() {
    let body = "--B\r\nContent-Type: application/pdf; name=Report.PDF\r\n\r\nAAAA\r\n--B--\r\n";
    let (text, html, attachments) = parse_multipart(body, "Content-Type: multipart/mixed; boundary=B");
    assert!(text.is_none());
    assert!(html.is_none());
    let attachments = attachments.unwrap();
    assert_eq!(attachments.len(), 1);
    assert_eq!(attachments[0].filename, "Report.PDF");
    assert_eq!(attachments[0].content, "QUFBQQ==");
    assert_eq!(attachments[0].content_type.as_deref(), Some("application/pdf; name=Report.PDF"));
}

#[test]
fn binary_attachment_survives_decoding_and_encoding() {
    let body = "--B\r\nContent-Type: application/octet-stream\r\nContent-Disposition: attachment; filename=x.bin\r\nContent-Transfer-Encoding: base64\r\n\r\n/9g=\r\n--B--\r\n";
    let (text, html, attachments) = parse_multipart(body, "Content-Type: multipart/mixed; boundary=B");
    assert!(text.is_none());
    assert!(html.is_none());
    let attachments = attachments.unwrap();
    assert_eq!(attachments.len(), 1);
    assert_eq!(attachments[0].filename, "x.bin");
    assert_eq!(attachments[0].content, "/9g=");

    let body = "--B\nContent-Type: image/jpeg; name=p.jpg\nContent-Transfer-Encoding: base64\n\n/9j/4AAQ\nSkZJRgAB\n--B\nContent-Type: application/x; name=q\nContent-Transfer-Encoding: quoted-printable\n\n=FF=D8=00\n--B--";
    let (_, _, attachments) = parse_multipart(body, "Content-Type: multipart/mixed; boundary=B");
    let attachments = attachments.unwrap();
    assert_eq!(attachments.len(), 2);
    assert_eq!(attachments[0].content, "/9j/4AAQSkZJRgAB");
    assert_eq!(attachments[1].content, "/9gA");
}

#[test]
fn text_parts_are_read_as_utf8() {
    let raw = "Content-Type: multipart/alternative; boundary=b\n\n--b\nContent-Type: text/plain; charset=utf-8\nContent-Transfer-Encoding: quoted-printable\n\nCaf=C3=A9 =E2=82=AC\n--b\nContent-Type: text/html\nContent-Transfer-Encoding: base64\n\nPGI+Q2Fmw6k8L2I+\n--b--";
    let (text, html, attachments) = parse_email(raw);
    assert_eq!(text.as_deref(), Some("Caf\u{e9} \u{20ac}"));
    assert_eq!(html.as_deref(), Some("<b>Caf\u{e9}</b>"));
    assert!(attachments.is_none());
}
