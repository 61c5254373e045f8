use cfmail::config::{AliasConfig, CloudflareConfig, Config, EmailConfig, SmtpConfig};
use cfmail::monitor::{
    order_newest_first, MailMonitor, MonitorError, MonitorOptions, PollClock,
};
use cfmail::pattern::CodeType;

fn test_config() -> Config {
    Config {
        cloudflare: CloudflareConfig {
            auth_type: "api_key".to_string(),
            api_key: "k".to_string(),
            api_token: "t".to_string(),
            zone_id: "z".to_string(),
            email: "e@x.com".to_string(),
        },
        email: EmailConfig {
            domain: "x.com".to_string(),
            target_email: "t@x.com".to_string(),
        },
        alias: AliasConfig {
            prefix_mode: "random".to_string(),
            custom_prefixes: vec![],
            random_length: 8,
            random_charset: "alphabetic".to_string(),
        },
        smtp: SmtpConfig {
            username: "u".to_string(),
            password: "p".to_string(),
            imap_server: "imap.x.com".to_string(),
            imap_port: 993,
            smtp_server: "smtp.x.com".to_string(),
            smtp_port: 587,
        },
    }
}

fn options() -> MonitorOptions {
    MonitorOptions {
        code_length: None,
        code_type: CodeType::Numeric,
        from_filter: None,
        timeout: 300,
        poll_interval: 10,
    }
}

#[test]
fn default_options() {
    let o = MonitorOptions::default();
    assert!(o.code_length.is_none());
    assert!(matches!(o.code_type, CodeType::Numeric));
    assert!(o.from_filter.is_none());
    assert_eq!(o.timeout, 300);
    assert_eq!(o.poll_interval, 10);
}

#[test]
fn search_criteria_without_filter() {
    let cfg = test_config();
    let mon = MailMonitor::new(&cfg, options());
    assert_eq!(mon.search_criteria(), "UNSEEN");
}

#[test]
fn search_criteria_with_filter() {
    let cfg = test_config();
    let mut o = options();
    o.from_filter = Some("acme.com".to_string());
    let mon = MailMonitor::new(&cfg, o);
    assert_eq!(mon.search_criteria(), "UNSEEN FROM \"acme.com\"");
}

#[test]
fn compile_pattern_rejects_zero_length() {
    let cfg = test_config();
    let mut o = options();
    o.code_length = Some(0);
    let mon = MailMonitor::new(&cfg, o);
    let e = mon.compile_pattern().unwrap_err();
    assert_eq!(e, MonitorError::InvalidPattern);
    assert_eq!(e.message(), "cannot construct the extraction pattern");
}

#[test]
fn timeout_error_message() {
    assert_eq!(
        MonitorError::Timeout.message(),
        "timeout: no email containing a verification code was found"
    );
}

#[test]
fn newest_first_ordering() {
    let ids: Vec<u32> = vec![3, 11, 7, 11, 1];
    assert_eq!(order_newest_first(&ids), vec![11, 11, 7, 3, 1]);
}

#[test]
fn newest_first_of_empty() {
    let ids: Vec<u32> = vec![];
    assert_eq!(order_newest_first(&ids), Vec::<u32>::new());
}

#[test]
fn short_timeout_allows_one_cycle_only() {
    let mut o = options();
    o.timeout = 1;
    o.poll_interval = 5;
    let mut clock = PollClock::start(&o);
    let mut attempts: u32 = 0;
    while clock.should_attempt() {
        attempts += 1;
        clock.record_sleep();
    }
    assert_eq!(attempts, 1);
}

#[test]
fn clock_keeps_the_larger_elapsed() {
    let mut o = options();
    o.timeout = 100;
    o.poll_interval = 10;
    let mut clock = PollClock::start(&o);
    clock.record_sleep();
    assert_eq!(clock.elapsed, 10);
    clock.record_elapsed(25);
    assert_eq!(clock.elapsed, 25);
    clock.record_elapsed(5);
    assert_eq!(clock.elapsed, 25);
}

#[test]
fn clock_saturates_instead_of_wrapping() {
    let mut o = options();
    o.timeout = u64::MAX;
    o.poll_interval = u64::MAX;
    let mut clock = PollClock::start(&o);
    clock.record_sleep();
    clock.record_sleep();
    assert_eq!(clock.elapsed, u64::MAX);
}

#[test]
fn found_short_circuit_prefers_first_success() {
    let cfg = test_config();
    let mon = MailMonitor::new(&cfg, options());
    let p = mon.compile_pattern().unwrap();
    let newer =
        b"Subject: Newsletter\r\n\r\nhello there, nothing of note.\r\n".to_vec();
    let older = b"Subject: Login\r\n\r\nYour code is 555666.\r\n".to_vec();
    let raws = vec![newer, older];
    let r = mon.scan_messages(&raws, &p).expect("a code");
    assert_eq!(r.code, "555666");
    assert_eq!(r.subject, "Login");
    assert_eq!(r.from, "[unknown sender]");
}

#[test]
fn scan_stops_at_first_yielding_message() {
    let cfg = test_config();
    let mon = MailMonitor::new(&cfg, options());
    let p = mon.compile_pattern().unwrap();
    let first = b"Subject: A\r\n\r\nYour code is 111222.\r\n".to_vec();
    let second = b"Subject: B\r\n\r\nYour code is 333444.\r\n".to_vec();
    let raws = vec![first, second];
    let r = mon.scan_messages(&raws, &p).expect("a code");
    assert_eq!(r.code, "111222");
    assert_eq!(r.subject, "A");
}

#[test]
fn scan_of_no_messages_yields_nothing() {
    let cfg = test_config();
    let mon = MailMonitor::new(&cfg, options());
    let p = mon.compile_pattern().unwrap();
    let raws: Vec<Vec<u8>> = vec![];
    assert!(mon.scan_messages(&raws, &p).is_none());
}

#[test]
fn sender_filter_on_headers() {
    let cfg = test_config();
    let mut o = options();
    o.from_filter = Some("acme".to_string());
    let mon = MailMonitor::new(&cfg, o);
    let hs = vec![cfmail::decode::HeaderField {
        name: "From".to_string(),
        value: Some("mail from ACME corp".to_string()),
    }];
    assert!(mon.is_matching_filter(&hs));
    let none = MailMonitor::new(&cfg, options());
    assert!(none.is_matching_filter(&hs));
}
