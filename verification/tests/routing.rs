use cfmail::alias::{
    alias_address, custom_prefix, digit_charset, lowercase_charset, prefix_from_picks,
    prefix_source, PrefixSource,
};
use cfmail::config::default_auth_type;
use cfmail::routes::{
    aliases_of, find_route_id, forward_route, join_errors, route_alias, CloudflareError,
    EmailRoute, EmailRouteMatcher,
};

fn matcher(t: &str, f: Option<&str>, v: Option<&str>) -> EmailRouteMatcher {
    EmailRouteMatcher {
        matcher_type: t.to_string(),
        field: f.map(|s| s.to_string()),
        value: v.map(|s| s.to_string()),
    }
}

#[test]
fn forward_route_payload() {
    let r = forward_route("x@d.com", "t@e.com");
    assert!(r.enabled);
    assert_eq!(r.matchers.len(), 1);
    assert_eq!(r.matchers[0].matcher_type, "literal");
    assert_eq!(r.matchers[0].field.as_deref(), Some("to"));
    assert_eq!(r.matchers[0].value.as_deref(), Some("x@d.com"));
    assert_eq!(r.actions.len(), 1);
    assert_eq!(r.actions[0].action_type, "forward");
    assert_eq!(r.actions[0].value, vec!["t@e.com".to_string()]);
    assert_eq!(r.name.as_deref(), Some("自动创建的转发规则: x@d.com"));
}

#[test]
fn route_alias_reads_first_literal_to_matcher() {
    let route = EmailRoute {
        id: "r1".to_string(),
        matchers: vec![
            matcher("literal", Some("from"), Some("skip@x.com")),
            matcher("literal", Some("to"), None),
            matcher("literal", Some("to"), Some("a@x.com")),
        ],
        name: "n".to_string(),
    };
    assert_eq!(route_alias(&route).as_deref(), Some("a@x.com"));
}

#[test]
fn route_without_alias() {
    let route = EmailRoute {
        id: "r1".to_string(),
        matchers: vec![matcher("all", None, None)],
        name: "n".to_string(),
    };
    assert_eq!(route_alias(&route), None);
}

#[test]
fn aliases_of_listed_routes() {
    let routes = vec![
        EmailRoute {
            id: "r1".to_string(),
            matchers: vec![matcher("literal", Some("to"), Some("a@x.com"))],
            name: "".to_string(),
        },
        EmailRoute {
            id: "r2".to_string(),
            matchers: vec![matcher("all", None, None)],
            name: "".to_string(),
        },
        EmailRoute {
            id: "r3".to_string(),
            matchers: vec![matcher("literal", Some("to"), Some("b@x.com"))],
            name: "".to_string(),
        },
    ];
    assert_eq!(aliases_of(&routes), vec!["a@x.com".to_string(), "b@x.com".to_string()]);
}

#[test]
fn find_route_id_by_alias() {
    let routes = vec![
        EmailRoute {
            id: "r1".to_string(),
            matchers: vec![matcher("literal", Some("to"), Some("a@x.com"))],
            name: "".to_string(),
        },
        EmailRoute {
            id: "r2".to_string(),
            matchers: vec![matcher("literal", Some("to"), Some("b@x.com"))],
            name: "".to_string(),
        },
    ];
    assert_eq!(find_route_id(&routes, "b@x.com").as_deref(), Some("r2"));
    assert_eq!(find_route_id(&routes, "c@x.com"), None);
}

#[test]
fn join_errors_formats_and_separates() {
    let es = vec![
        CloudflareError { code: 7, message: "bad".to_string() },
        CloudflareError { code: -12, message: "worse".to_string() },
    ];
    assert_eq!(join_errors(&es), "7: bad, -12: worse");
}

#[test]
fn join_errors_of_none() {
    assert_eq!(join_errors(&vec![]), "");
}

#[test]
fn alias_address_joins_prefix_and_domain() {
    assert_eq!(alias_address("hello", "x.com"), "hello@x.com");
}

#[test]
fn custom_prefix_selection() {
    let prefixes = vec!["a".to_string(), "b".to_string(), "c".to_string()];
    assert_eq!(custom_prefix(&prefixes, 4).as_deref(), Some("b"));
    assert_eq!(custom_prefix(&Vec::new(), 0), None);
}

#[test]
fn prefix_from_picks_selects_chars() {
    let charset = lowercase_charset();
    let picks = vec![0usize, 1, 25, 26];
    assert_eq!(prefix_from_picks(&charset, &picks).as_deref(), Some("abza"));
    assert_eq!(prefix_from_picks(&Vec::new(), &picks), None);
}

#[test]
fn charsets() {
    assert_eq!(digit_charset(), "0123456789".chars().collect::<Vec<char>>());
    assert_eq!(lowercase_charset().len(), 26);
}

#[test]
fn prefix_source_decisions() {
    assert_eq!(prefix_source("random", "alphabetic"), Some(PrefixSource::RandomAlphabetic));
    assert_eq!(prefix_source("random", "numeric"), Some(PrefixSource::RandomNumeric));
    assert_eq!(prefix_source("random", "anything"), Some(PrefixSource::RandomAlphanumeric));
    assert_eq!(prefix_source("custom", ""), Some(PrefixSource::CustomList));
    assert_eq!(prefix_source("fixed", ""), None);
}

#[test]
fn default_auth_type_value() {
    assert_eq!(default_auth_type(), "api_key");
}
