use cfmail::decode::{
    decode, extract_code_from_message, format_sender, from_header_contains, header_value,
    message_date, parse_rfc2822, DecodedMessage, HeaderField,
};
use cfmail::pattern::{build_pattern, CodeType};
use cfmail::text::{chars_of, string_of_chars};

fn fmt(raw: &str) -> String {
    let v = chars_of(raw);
    let out = format_sender(&v);
    string_of_chars(&out)
}

#[test]
fn sender_round_trip_name_and_address() {
    assert_eq!(fmt("Acme <no-reply@acme.com>"), "Acme <no-reply@acme.com>");
}

#[test]
fn sender_address_only() {
    assert_eq!(fmt("<no-reply@acme.com>"), "<no-reply@acme.com>");
}

#[test]
fn sender_name_only_unchanged() {
    assert_eq!(fmt("Acme Support"), "Acme Support");
}

#[test]
fn sender_trims_name_whitespace() {
    assert_eq!(fmt("  Acme  <a@b.c>"), "Acme <a@b.c>");
}

#[test]
fn sender_reversed_brackets_verbatim() {
    assert_eq!(fmt("a>b <x"), "a>b <x");
}

#[test]
fn decoder_survives_garbage() {
    let raw: Vec<u8> = vec![0xff, 0xfe, 0x00, 0x01, 0x02, 0xff];
    let m = decode(&raw);
    assert_eq!(m.subject, "[no subject]");
    assert_eq!(m.sender, "[unknown sender]");
    let p = build_pattern(CodeType::Numeric, None).unwrap();
    assert_eq!(extract_code_from_message(&m, &p), None);
}

#[test]
fn decoder_survives_empty_input() {
    let raw: Vec<u8> = Vec::new();
    let m = decode(&raw);
    assert_eq!(m.subject, "[no subject]");
    assert_eq!(m.sender, "[unknown sender]");
    assert!(m.text_body.is_none());
    assert!(m.html_body.is_none());
    assert!(m.date_epoch.is_none());
}

#[test]
fn decode_reads_subject_and_text_body() {
    let raw = b"Subject: Welcome\r\nFrom: Acme <a@b.c>\r\n\r\nYour code is 482913.\r\n".to_vec();
    let m = decode(&raw);
    assert_eq!(m.subject, "Welcome");
    let body = m.text_body.as_deref().expect("text body");
    assert!(body.contains("482913"));
    let p = build_pattern(CodeType::Numeric, None).unwrap();
    assert_eq!(extract_code_from_message(&m, &p).as_deref(), Some("482913"));
}

#[test]
fn html_body_is_rendered_before_extraction() {
    // the digit run only exists after entity decoding: the raw HTML, which
    // the parser also offers as the text body, yields no code at all
    let raw = b"Subject: x\r\nContent-Type: text/html\r\n\r\n<p>&#55;&#51;&#57;&#50;&#48;&#49;</p>\r\n"
        .to_vec();
    let m = decode(&raw);
    assert!(m.html_body.is_some());
    let p = build_pattern(CodeType::Numeric, None).unwrap();
    assert_eq!(extract_code_from_message(&m, &p).as_deref(), Some("739201"));
}

#[test]
fn header_lookup_is_case_insensitive_first_match() {
    let hs = vec![
        HeaderField { name: "X-Other".to_string(), value: Some("skip".to_string()) },
        HeaderField { name: "SUBJECT".to_string(), value: None },
        HeaderField { name: "Subject".to_string(), value: Some("first".to_string()) },
        HeaderField { name: "subject".to_string(), value: Some("second".to_string()) },
    ];
    let name = chars_of("subject");
    assert_eq!(header_value(&hs, &name).as_deref(), Some("first"));
}

#[test]
fn date_header_parses_to_epoch() {
    let hs = vec![HeaderField {
        name: "Date".to_string(),
        value: Some("Thu, 1 Jan 2015 00:00:00 +0000".to_string()),
    }];
    assert_eq!(message_date(&hs), Some(1420070400));
}

#[test]
fn unparsable_date_is_skipped_for_a_later_one() {
    let hs = vec![
        HeaderField { name: "date".to_string(), value: Some("not a date".to_string()) },
        HeaderField {
            name: "DATE".to_string(),
            value: Some("Thu, 1 Jan 2015 01:00:00 +0100".to_string()),
        },
    ];
    assert_eq!(message_date(&hs), Some(1420070400));
    assert_eq!(parse_rfc2822("not a date"), None);
}

#[test]
fn from_filter_matches_case_insensitively() {
    let hs = vec![HeaderField {
        name: "From".to_string(),
        value: Some("No-Reply@Acme.com".to_string()),
    }];
    assert!(from_header_contains(&hs, &chars_of("acme")));
    assert!(!from_header_contains(&hs, &chars_of("other")));
}

#[test]
fn text_body_preferred_over_html() {
    let m = DecodedMessage {
        text_body: Some("your code 1111".to_string()),
        html_body: Some("<p>your code 2222</p>".to_string()),
        subject: "s".to_string(),
        sender: "f".to_string(),
        date_epoch: None,
    };
    let p = build_pattern(CodeType::Numeric, None).unwrap();
    assert_eq!(extract_code_from_message(&m, &p).as_deref(), Some("1111"));
}

#[test]
fn html_tried_when_text_yields_nothing() {
    let m = DecodedMessage {
        text_body: Some("nothing in here".to_string()),
        html_body: Some("<p>your code 2222</p>".to_string()),
        subject: "s".to_string(),
        sender: "f".to_string(),
        date_epoch: None,
    };
    let p = build_pattern(CodeType::Numeric, None).unwrap();
    assert_eq!(extract_code_from_message(&m, &p).as_deref(), Some("2222"));
}
