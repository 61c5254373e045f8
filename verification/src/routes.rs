//! Forwarding-rule data and the pure logic of the rule client.
//!
//! The structures mirror the provider's API payloads; the functions here
//! build the creation payload for an alias, read the alias out of a rule,
//! find the rule behind an alias, and format the provider's error list.
//! The HTTP calls around them are the callers' business.

use vstd::prelude::*;
use crate::text::{chars_of, push_range, string_of_chars};

verus! {

/// A rule-creation request.
#[derive(Clone, Debug)]
pub struct EmailRouteCreate {
    pub matchers: Vec<EmailRouteMatcher>,
    pub actions: Vec<EmailRouteAction>,
    pub enabled: bool,
    pub name: Option<String>,
}

/// One matcher of a rule.
#[derive(Clone, Debug)]
pub struct EmailRouteMatcher {
    pub matcher_type: String,
    pub field: Option<String>,
    pub value: Option<String>,
}

/// One action of a rule.
#[derive(Clone, Debug)]
pub struct EmailRouteAction {
    pub action_type: String,
    pub value: Vec<String>,
}

/// The provider's response envelope.
#[derive(Clone, Debug)]
pub struct CloudflareResponse<T> {
    pub success: bool,
    pub errors: Vec<CloudflareError>,
    pub result: Option<T>,
}

/// One error of a failed response.
#[derive(Clone, Debug)]
pub struct CloudflareError {
    pub code: i32,
    pub message: String,
}

/// One forwarding rule as the provider lists it.
#[derive(Clone, Debug)]
pub struct EmailRoute {
    pub id: String,
    pub matchers: Vec<EmailRouteMatcher>,
    pub name: String,
}

/// The decimal digit character of a value below ten.
pub open spec fn digit_char_of(d: nat) -> char {
    ((48 + d) as u8) as char
}

/// The decimal digits of a natural number, most significant first.
pub open spec fn spec_digits(n: nat) -> Seq<char>
    decreases n,
{
    if n < 10 {
        seq![digit_char_of(n)]
    } else {
        spec_digits(n / 10).push(digit_char_of(n % 10))
    }
}

/// The decimal rendering of an integer, with a sign when negative.
pub open spec fn spec_int_str(n: int) -> Seq<char> {
    if n < 0 {
        seq!['-'] + spec_digits((-n) as nat)
    } else {
        spec_digits(n as nat)
    }
}

/// Append the decimal digits of `n` to `out`.
fn push_digits(out: &mut Vec<char>, n: u64)
    ensures
        final(out)@ == old(out)@ + spec_digits(n as nat),
    decreases n,
{
    if n < 10 {
        out.push(((48 + n) as u8) as char);
        proof {
            assert(out@ =~= old(out)@ + spec_digits(n as nat));
        }
    } else {
        push_digits(out, n / 10);
        out.push(((48 + n % 10) as u8) as char);
        proof {
            assert(out@ =~= old(out)@ + spec_digits(n as nat));
        }
    }
}

/// Append the decimal rendering of `n` to `out`.
fn push_int(out: &mut Vec<char>, n: i32)
    ensures
        final(out)@ == old(out)@ + spec_int_str(n as int),
{
    let wide: i64 = n as i64;
    if wide < 0 {
        out.push('-');
        let ghost mid = out@;
        push_digits(out, (-wide) as u64);
        proof {
            assert(out@ =~= old(out)@ + spec_int_str(n as int));
        }
    } else {
        push_digits(out, wide as u64);
    }
}

/// One error formatted as `code: message`.
pub open spec fn spec_error_item(e: CloudflareError) -> Seq<char> {
    spec_int_str(e.code as int) + ": "@ + e.message@
}

/// The errors from `i` on, formatted and joined with `, `.
pub open spec fn spec_join_from(es: Seq<CloudflareError>, i: int) -> Seq<char>
    decreases es.len() - i,
{
    if i < 0 || i >= es.len() {
        Seq::empty()
    } else if i == es.len() - 1 {
        spec_error_item(es[i])
    } else {
        spec_error_item(es[i]) + ", "@ + spec_join_from(es, i + 1)
    }
}

/// Format a failed response's error list as one display text.
pub fn join_errors(es: &Vec<CloudflareError>) -> (r: String)
    ensures
        r@ == spec_join_from(es@, 0),
{
    let mut out: Vec<char> = Vec::new();
    let mut i: usize = 0;
    while i < es.len()
        invariant
            i <= es.len(),
            out@ + spec_join_from(es@, i as int) == spec_join_from(es@, 0),
        decreases es.len() - i,
    {
        push_int(&mut out, es[i].code);
        out.push(':');
        out.push(' ');
        let msg = chars_of(es[i].message.as_str());
        push_range(&mut out, &msg, 0, msg.len());
        if i + 1 < es.len() {
            out.push(',');
            out.push(' ');
        }
        proof {
            reveal_strlit(": ");
            reveal_strlit(", ");
            assert(msg@.subrange(0, msg@.len() as int) =~= msg@);
            assert(": "@ =~= seq![':', ' ']);
            assert(", "@ =~= seq![',', ' ']);
            assert(out@ + spec_join_from(es@, i + 1) =~= spec_join_from(es@, 0));
        }
        i = i + 1;
    }
    string_of_chars(&out)
}

/// A matcher names an alias when it is a literal matcher on the `to` field
/// with a value.
pub open spec fn spec_matcher_alias(m: EmailRouteMatcher) -> Option<Seq<char>> {
    if m.matcher_type@ == "literal"@ && (m.field matches Some(f) && f@ == "to"@) && m.value is Some {
        Some(m.value->Some_0@)
    } else {
        None
    }
}

/// The alias of the first matcher, from `i` on, that names one.
pub open spec fn matchers_alias_from(ms: Seq<EmailRouteMatcher>, i: int) -> Option<Seq<char>>
    decreases ms.len() - i,
{
    if i < 0 || i >= ms.len() {
        None
    } else if spec_matcher_alias(ms[i]) is Some {
        spec_matcher_alias(ms[i])
    } else {
        matchers_alias_from(ms, i + 1)
    }
}

pub proof fn lemma_matchers_alias_skip(ms: Seq<EmailRouteMatcher>, i: int, m: int)
    requires
        0 <= i <= m,
        forall|j: int| i <= j < m ==> spec_matcher_alias(ms[j]) is None,
    ensures
        matchers_alias_from(ms, i) == matchers_alias_from(ms, m),
    decreases m - i,
{
    if i < m {
        if i >= ms.len() {
        } else {
            lemma_matchers_alias_skip(ms, i + 1, m);
        }
    }
}

/// The alias a rule forwards, read from its first literal `to` matcher.
pub open spec fn spec_route_alias(r: EmailRoute) -> Option<Seq<char>> {
    matchers_alias_from(r.matchers@, 0)
}

/// Whether a matcher is the literal `to` matcher of exactly `alias`.
pub open spec fn spec_matcher_points_at(m: EmailRouteMatcher, alias: Seq<char>) -> bool {
    m.matcher_type@ == "literal"@ && (m.field matches Some(f) && f@ == "to"@) && (
    m.value matches Some(v) && v@ == alias)
}

/// Whether some matcher of the rule points at `alias`.
pub open spec fn spec_route_points_at(r: EmailRoute, alias: Seq<char>) -> bool {
    exists|i: int| 0 <= i < r.matchers@.len() && spec_matcher_points_at(r.matchers@[i], alias)
}

/// The alias a rule forwards, if any matcher names one.
pub fn route_alias(route: &EmailRoute) -> (r: Option<String>)
    ensures
        match r {
            Some(a) => spec_route_alias(*route) == Some(a@),
            None => spec_route_alias(*route) is None,
        },
{
    let lit = chars_of("literal");
    let to = chars_of("to");
    let ms = &route.matchers;
    let mut i: usize = 0;
    while i < ms.len()
        invariant
            i <= ms.len(),
            ms@ == (*route).matchers@,
            lit@ == "literal"@,
            to@ == "to"@,
            forall|j: int| 0 <= j < i ==> spec_matcher_alias(ms@[j]) is None,
        decreases ms.len() - i,
    {
        if matcher_names_alias(&ms[i], &lit, &to) {
            proof {
                lemma_matchers_alias_skip(ms@, 0, i as int);
                assert(matchers_alias_from(ms@, i as int) == spec_matcher_alias(ms@[i as int]));
                assert(spec_matcher_alias(ms@[i as int]) is Some);
                assert(spec_route_alias(*route) == spec_matcher_alias(ms@[i as int]));
            }
            match &ms[i].value {
                Some(v) => {
                    proof {
                        assert(v@ == ms@[i as int].value->Some_0@);
                        assert(spec_route_alias(*route) == Some(v@));
                    }
                    return Some(v.clone());
                },
                None => {
                    proof {
                        assert(false);
                    }
                },
            }
        }
        i = i + 1;
    }
    proof {
        lemma_matchers_alias_skip(ms@, 0, i as int);
    }
    None
}

/// Whether a matcher is a literal `to` matcher holding a value.
fn matcher_names_alias(m: &EmailRouteMatcher, lit: &Vec<char>, to: &Vec<char>) -> (r: bool)
    requires
        lit@ == "literal"@,
        to@ == "to"@,
    ensures
        r == (spec_matcher_alias(*m) is Some),
{
    let mt = chars_of(m.matcher_type.as_str());
    if !crate::text::str_eq(&mt, lit) {
        return false;
    }
    match &m.field {
        Some(f) => {
            let fc = chars_of(f.as_str());
            if !crate::text::str_eq(&fc, to) {
                return false;
            }
        },
        None => {
            return false;
        },
    }
    m.value.is_some()
}

/// The aliases of all rules that name one, in order.
pub open spec fn spec_aliases_from(rs: Seq<EmailRoute>, i: int) -> Seq<Seq<char>>
    decreases rs.len() - i,
{
    if i < 0 || i >= rs.len() {
        Seq::empty()
    } else {
        match spec_route_alias(rs[i]) {
            Some(a) => seq![a] + spec_aliases_from(rs, i + 1),
            None => spec_aliases_from(rs, i + 1),
        }
    }
}

/// Collect the aliases of the listed rules, in listing order.
pub fn aliases_of(routes: &Vec<EmailRoute>) -> (r: Vec<String>)
    ensures
        r@.map_values(|s: String| s@) == spec_aliases_from(routes@, 0),
{
    let mut out: Vec<String> = Vec::new();
    let mut i: usize = 0;
    proof {
        assert(out@.map_values(|s: String| s@) =~= Seq::<Seq<char>>::empty());
    }
    while i < routes.len()
        invariant
            i <= routes.len(),
            out@.map_values(|s: String| s@) + spec_aliases_from(routes@, i as int)
                == spec_aliases_from(routes@, 0),
        decreases routes.len() - i,
    {
        let ghost pre = out@;
        match route_alias(&routes[i]) {
            Some(a) => {
                out.push(a);
                proof {
                    assert(out@.map_values(|s: String| s@) =~= pre.map_values(|s: String| s@)
                        + seq![out@[pre.len() as int]@]);
                    assert(out@.map_values(|s: String| s@) + spec_aliases_from(routes@, i + 1)
                        =~= spec_aliases_from(routes@, 0));
                }
            },
            None => {},
        }
        i = i + 1;
    }
    out
}

/// The id of the first rule, from `i` on, that points at `alias`.
pub open spec fn find_route_from(rs: Seq<EmailRoute>, alias: Seq<char>, i: int) -> Option<
    Seq<char>,
>
    decreases rs.len() - i,
{
    if i < 0 || i >= rs.len() {
        None
    } else if spec_route_points_at(rs[i], alias) {
        Some(rs[i].id@)
    } else {
        find_route_from(rs, alias, i + 1)
    }
}

pub proof fn lemma_find_route_skip(rs: Seq<EmailRoute>, alias: Seq<char>, i: int, m: int)
    requires
        0 <= i <= m,
        forall|j: int| i <= j < m ==> !spec_route_points_at(rs[j], alias),
    ensures
        find_route_from(rs, alias, i) == find_route_from(rs, alias, m),
    decreases m - i,
{
    if i < m {
        if i >= rs.len() {
        } else {
            lemma_find_route_skip(rs, alias, i + 1, m);
        }
    }
}

/// The id of the rule that forwards exactly `alias`, if one is listed.
pub fn find_route_id(routes: &Vec<EmailRoute>, alias: &str) -> (r: Option<String>)
    ensures
        match r {
            Some(id) => find_route_from(routes@, alias@, 0) == Some(id@),
            None => find_route_from(routes@, alias@, 0) is None,
        },
{
    let lit = chars_of("literal");
    let to = chars_of("to");
    let ac = chars_of(alias);
    let mut i: usize = 0;
    while i < routes.len()
        invariant
            i <= routes.len(),
            lit@ == "literal"@,
            to@ == "to"@,
            ac@ == alias@,
            forall|j: int| 0 <= j < i ==> !spec_route_points_at(routes@[j], alias@),
        decreases routes.len() - i,
    {
        let ms = &routes[i].matchers;
        let mut k: usize = 0;
        while k < ms.len()
            invariant
                k <= ms.len(),
                i < routes.len(),
                ms@ == routes@[i as int].matchers@,
                lit@ == "literal"@,
                to@ == "to"@,
                ac@ == alias@,
                forall|j: int| 0 <= j < i ==> !spec_route_points_at(routes@[j], alias@),
                forall|j: int| 0 <= j < k ==> !spec_matcher_points_at(ms@[j], alias@),
            decreases ms.len() - k,
        {
            if matcher_names_alias(&ms[k], &lit, &to) {
                match &ms[k].value {
                    Some(v) => {
                        let vc = chars_of(v.as_str());
                        if crate::text::str_eq(&vc, &ac) {
                            proof {
                                lemma_find_route_skip(routes@, alias@, 0, i as int);
                            }
                            return Some(routes[i].id.clone());
                        }
                    },
                    None => {},
                }
            }
            k = k + 1;
        }
        proof {
            assert(!spec_route_points_at(routes@[i as int], alias@));
        }
        i = i + 1;
    }
    proof {
        lemma_find_route_skip(routes@, alias@, 0, i as int);
    }
    None
}

/// The creation payload that forwards `alias` to `target`: one literal
/// `to` matcher, one forward action, enabled, with a descriptive name.
pub fn forward_route(alias: &str, target: &str) -> (r: EmailRouteCreate)
    ensures
        r.enabled == true,
        r.matchers@.len() == 1,
        spec_matcher_points_at(r.matchers@[0], alias@),
        r.actions@.len() == 1,
        r.actions@[0].action_type@ == "forward"@,
        r.actions@[0].value@.len() == 1,
        r.actions@[0].value@[0]@ == target@,
        r.name matches Some(n) && n@
            == "\u{81ea}\u{52a8}\u{521b}\u{5efa}\u{7684}\u{8f6c}\u{53d1}\u{89c4}\u{5219}: "@
            + alias@,
{
    let lit = {
        let v = chars_of("literal");
        string_of_chars(&v)
    };
    let to = {
        let v = chars_of("to");
        string_of_chars(&v)
    };
    let fwd = {
        let v = chars_of("forward");
        string_of_chars(&v)
    };
    let alias_string = {
        let v = chars_of(alias);
        string_of_chars(&v)
    };
    let target_string = {
        let v = chars_of(target);
        string_of_chars(&v)
    };
    // "automatically created forwarding rule" (zh), as the rule's name
    let mut name = {
        let v = chars_of("\u{81ea}\u{52a8}\u{521b}\u{5efa}\u{7684}\u{8f6c}\u{53d1}\u{89c4}\u{5219}: ");
        string_of_chars(&v)
    };
    name.append(alias);
    let mut matchers: Vec<EmailRouteMatcher> = Vec::new();
    matchers.push(
        EmailRouteMatcher { matcher_type: lit, field: Some(to), value: Some(alias_string) },
    );
    let mut action_value: Vec<String> = Vec::new();
    action_value.push(target_string);
    let mut actions: Vec<EmailRouteAction> = Vec::new();
    actions.push(EmailRouteAction { action_type: fwd, value: action_value });
    EmailRouteCreate { matchers, actions, enabled: true, name: Some(name) }
}

} // verus!
