//! The message decoder.
//!
//! Raw message bytes are parsed by the mail parser behind a trusted
//! wrapper; everything after that parse is verified: case-insensitive
//! header lookup with first match winning, sender formatting, date header
//! parsing, and the sentinel defaults for missing or malformed fields.

use vstd::prelude::*;
use crate::text::{chars_of, contains_ci, eq_ci_seq, find_sub_from, find_sub, has_sub_ci,
    push_range, spec_trim, str_eq_ci, string_of_chars, sub_chars, trim_chars};
use crate::pattern::CompiledPattern;
use crate::extract::{extract_code_from_text, spec_extract};

verus! {

/// One header of a parsed message: its name and, when the parser could give
/// the value as text, that text.
pub struct HeaderField {
    pub name: String,
    pub value: Option<String>,
}

/// What the library reads of a parsed message: the headers in order, and
/// the first text and first HTML body parts.
pub struct MessageParts {
    pub headers: Vec<HeaderField>,
    pub text_body: Option<String>,
    pub html_body: Option<String>,
}

/// What the mail parser yields on given raw bytes; `None` when the bytes do
/// not parse as a message at all.
pub uninterp spec fn parsed_message(raw: Seq<u8>) -> Option<MessageParts>;

/// Relies on `mail_parser::MessageParser::parse`: the parsed structure is a
/// function of the raw bytes alone. The conversion keeps each header's name
/// and text value, and the first text and first HTML body parts, decoded as
/// UTF-8 and dropped when not valid UTF-8.
#[verifier::external_body]
pub fn parse_message(raw: &Vec<u8>) -> (r: Option<MessageParts>)
    ensures
        r == parsed_message(raw@),
{
    mail_parser::MessageParser::new().parse(raw.as_slice()).map(|m| MessageParts {
        headers: m.headers().iter().map(|h| HeaderField {
            name: h.name().to_string(),
            value: h.value().as_text().map(|s| s.to_string()),
        }).collect(),
        text_body: m.text_bodies().next().and_then(|p| core::str::from_utf8(p.contents()).ok().map(
            |s| s.to_string(),
        )),
        html_body: m.html_bodies().next().and_then(|p| core::str::from_utf8(p.contents()).ok().map(
            |s| s.to_string(),
        )),
    })
}

/// What the HTML renderer yields on given HTML text.
pub uninterp spec fn rendered_html(h: Seq<char>) -> Seq<char>;

/// Relies on `html2text::from_read` at a fixed wrap width of 80 columns:
/// the rendered text depends on the HTML input alone; a rendering failure
/// yields the empty string.
#[verifier::external_body]
pub fn html_to_text(h: &str) -> (r: String)
    ensures
        r@ == rendered_html(h@),
{
    html2text::from_read(h.as_bytes(), 80).unwrap_or_default()
}

/// The Unix timestamp an RFC 2822 date text denotes, if it parses.
pub uninterp spec fn rfc2822_epoch(s: Seq<char>) -> Option<i64>;

/// Relies on `chrono::DateTime::parse_from_rfc2822`: whether a text parses
/// as an RFC 2822 timestamp, and the timestamp it denotes, depend on the
/// text alone.
#[verifier::external_body]
pub fn parse_rfc2822(s: &str) -> (r: Option<i64>)
    ensures
        r == rfc2822_epoch(s@),
{
    chrono::DateTime::parse_from_rfc2822(s).ok().map(|d| d.timestamp())
}

/// A header answers a lookup when its name matches up to ASCII case and its
/// value could be given as text.
pub open spec fn header_match(h: HeaderField, name: Seq<char>) -> bool {
    eq_ci_seq(h.name@, name) && h.value is Some
}

/// The text value of the first header, from position `i` on, that answers a
/// lookup for `name`.
pub open spec fn header_lookup_from(hs: Seq<HeaderField>, name: Seq<char>, i: int) -> Option<
    Seq<char>,
>
    decreases hs.len() - i,
{
    if i < 0 || i >= hs.len() {
        None
    } else if header_match(hs[i], name) {
        Some(hs[i].value->Some_0@)
    } else {
        header_lookup_from(hs, name, i + 1)
    }
}

pub proof fn lemma_header_lookup_skip(hs: Seq<HeaderField>, name: Seq<char>, i: int, m: int)
    requires
        0 <= i <= m,
        forall|j: int| i <= j < m ==> !header_match(hs[j], name),
    ensures
        header_lookup_from(hs, name, i) == header_lookup_from(hs, name, m),
    decreases m - i,
{
    if i < m {
        if i >= hs.len() {
        } else {
            lemma_header_lookup_skip(hs, name, i + 1, m);
        }
    }
}

/// Case-insensitive header lookup, first match winning.
pub fn header_value(hs: &Vec<HeaderField>, name: &Vec<char>) -> (r: Option<String>)
    ensures
        match r {
            Some(v) => header_lookup_from(hs@, name@, 0) == Some(v@),
            None => header_lookup_from(hs@, name@, 0) is None,
        },
{
    let mut i: usize = 0;
    while i < hs.len()
        invariant
            i <= hs.len(),
            forall|j: int| 0 <= j < i ==> !header_match(hs@[j], name@),
        decreases hs.len() - i,
    {
        let hname = chars_of(hs[i].name.as_str());
        if str_eq_ci(&hname, name) {
            match &hs[i].value {
                Some(v) => {
                    proof {
                        lemma_header_lookup_skip(hs@, name@, 0, i as int);
                    }
                    return Some(v.clone());
                },
                None => {},
            }
        }
        i = i + 1;
    }
    proof {
        lemma_header_lookup_skip(hs@, name@, 0, i as int);
    }
    None
}

/// The formatted sender for a raw From header text. With an angle-bracket
/// address `Name <addr>` the parts are split and rejoined as
/// `Name <addr>`, `<addr>` or bare `Name`, whichever parts are non-empty;
/// anything else is returned verbatim.
pub open spec fn spec_format_sender(v: Seq<char>) -> Seq<char> {
    let fi = find_sub_from(v, seq!['<'], 0, false);
    let fj = find_sub_from(v, seq!['>'], 0, false);
    if fi is Some && fj is Some && fi->Some_0 < fj->Some_0 {
        let i = fi->Some_0;
        let j = fj->Some_0;
        let name = spec_trim(v.subrange(0, i));
        let email = v.subrange(i + 1, j);
        if name.len() > 0 && email.len() > 0 {
            name + seq![' ', '<'] + email + seq!['>']
        } else if email.len() > 0 {
            seq!['<'] + email + seq!['>']
        } else if name.len() > 0 {
            name
        } else {
            v
        }
    } else {
        v
    }
}

/// Format a raw From header text for display.
pub fn format_sender(v: &Vec<char>) -> (r: Vec<char>)
    ensures
        r@ == spec_format_sender(v@),
{
    let mut lt: Vec<char> = Vec::new();
    lt.push('<');
    let mut gt: Vec<char> = Vec::new();
    gt.push('>');
    proof {
        assert(lt@ =~= seq!['<']);
        assert(gt@ =~= seq!['>']);
    }
    let fi = find_sub(v, &lt, 0, false);
    let fj = find_sub(v, &gt, 0, false);
    match (fi, fj) {
        (Some(i), Some(j)) if i < j => {
            let head = sub_chars(v, 0, i);
            let name = trim_chars(&head);
            let email = sub_chars(v, i + 1, j);
            if name.len() > 0 && email.len() > 0 {
                let mut out = name;
                out.push(' ');
                out.push('<');
                push_range(&mut out, &email, 0, email.len());
                out.push('>');
                proof {
                    assert(email@.subrange(0, email@.len() as int) =~= email@);
                    assert(out@ =~= spec_trim(v@.subrange(0, i as int)) + seq![' ', '<']
                        + v@.subrange(i + 1, j as int) + seq!['>']);
                }
                out
            } else if email.len() > 0 {
                let mut out: Vec<char> = Vec::new();
                out.push('<');
                push_range(&mut out, &email, 0, email.len());
                out.push('>');
                proof {
                    assert(email@.subrange(0, email@.len() as int) =~= email@);
                    assert(out@ =~= seq!['<'] + v@.subrange(i + 1, j as int) + seq!['>']);
                }
                out
            } else if name.len() > 0 {
                name
            } else {
                sub_chars(v, 0, v.len())
            }
        },
        _ => {
            sub_chars(v, 0, v.len())
        },
    }
}

/// A header carries the receipt date when its name is `date` up to ASCII
/// case, its value is text, and that text parses as an RFC 2822 timestamp.
pub open spec fn date_match(h: HeaderField) -> bool {
    eq_ci_seq(h.name@, "date"@) && h.value is Some && rfc2822_epoch(h.value->Some_0@) is Some
}

/// The timestamp of the first header, from position `i` on, that carries
/// the receipt date.
pub open spec fn date_lookup_from(hs: Seq<HeaderField>, i: int) -> Option<i64>
    decreases hs.len() - i,
{
    if i < 0 || i >= hs.len() {
        None
    } else if date_match(hs[i]) {
        rfc2822_epoch(hs[i].value->Some_0@)
    } else {
        date_lookup_from(hs, i + 1)
    }
}

pub proof fn lemma_date_lookup_skip(hs: Seq<HeaderField>, i: int, m: int)
    requires
        0 <= i <= m,
        forall|j: int| i <= j < m ==> !date_match(hs[j]),
    ensures
        date_lookup_from(hs, i) == date_lookup_from(hs, m),
    decreases m - i,
{
    if i < m {
        if i >= hs.len() {
        } else {
            lemma_date_lookup_skip(hs, i + 1, m);
        }
    }
}

/// The receipt date of the message: the first Date header whose text
/// parses.
pub fn message_date(hs: &Vec<HeaderField>) -> (r: Option<i64>)
    ensures
        r == date_lookup_from(hs@, 0),
{
    let dname = chars_of("date");
    let mut i: usize = 0;
    while i < hs.len()
        invariant
            i <= hs.len(),
            dname@ == "date"@,
            forall|j: int| 0 <= j < i ==> !date_match(hs@[j]),
        decreases hs.len() - i,
    {
        let hname = chars_of(hs[i].name.as_str());
        if str_eq_ci(&hname, &dname) {
            match &hs[i].value {
                Some(v) => {
                    match parse_rfc2822(v.as_str()) {
                        Some(e) => {
                            proof {
                                lemma_date_lookup_skip(hs@, 0, i as int);
                            }
                            return Some(e);
                        },
                        None => {},
                    }
                },
                None => {},
            }
        }
        i = i + 1;
    }
    proof {
        lemma_date_lookup_skip(hs@, 0, i as int);
    }
    None
}

/// A decoded message: bodies, subject and sender with their sentinel
/// defaults, and the receipt date when a Date header parses.
pub struct DecodedMessage {
    pub text_body: Option<String>,
    pub html_body: Option<String>,
    pub subject: String,
    pub sender: String,
    pub date_epoch: Option<i64>,
}

/// The decoded subject: the first Subject header with a text value, with a
/// sentinel when there is none.
pub open spec fn spec_subject(hs: Seq<HeaderField>) -> Seq<char> {
    match header_lookup_from(hs, "subject"@, 0) {
        Some(v) => v,
        None => "[no subject]"@,
    }
}

/// The decoded sender: the first From header with a text value, formatted,
/// with a sentinel when there is none.
pub open spec fn spec_sender(hs: Seq<HeaderField>) -> Seq<char> {
    match header_lookup_from(hs, "from"@, 0) {
        Some(v) => spec_format_sender(v),
        None => "[unknown sender]"@,
    }
}

/// Decode raw message bytes. This never fails: bytes that do not parse as
/// a message yield the all-default decoded message.
pub fn decode(raw: &Vec<u8>) -> (r: DecodedMessage)
    ensures
        match parsed_message(raw@) {
            Some(p) => {
                &&& r.subject@ == spec_subject(p.headers@)
                &&& r.sender@ == spec_sender(p.headers@)
                &&& r.date_epoch == date_lookup_from(p.headers@, 0)
                &&& match (r.text_body, p.text_body) {
                    (Some(a), Some(b)) => a@ == b@,
                    (None, None) => true,
                    _ => false,
                }
                &&& match (r.html_body, p.html_body) {
                    (Some(a), Some(b)) => a@ == b@,
                    (None, None) => true,
                    _ => false,
                }
            },
            None => {
                &&& r.subject@ == "[no subject]"@
                &&& r.sender@ == "[unknown sender]"@
                &&& r.text_body is None
                &&& r.html_body is None
                &&& r.date_epoch is None
            },
        },
{
    match parse_message(raw) {
        Some(parts) => {
            let sname = chars_of("subject");
            let subject = match header_value(&parts.headers, &sname) {
                Some(v) => v,
                None => default_subject(),
            };
            let fname = chars_of("from");
            let sender = match header_value(&parts.headers, &fname) {
                Some(v) => {
                    let vc = chars_of(v.as_str());
                    let formatted = format_sender(&vc);
                    string_of_chars(&formatted)
                },
                None => default_sender(),
            };
            let date_epoch = message_date(&parts.headers);
            DecodedMessage {
                text_body: parts.text_body,
                html_body: parts.html_body,
                subject,
                sender,
                date_epoch,
            }
        },
        None => DecodedMessage {
            text_body: None,
            html_body: None,
            subject: default_subject(),
            sender: default_sender(),
            date_epoch: None,
        },
    }
}

/// The sentinel subject of a message without a usable Subject header.
pub fn default_subject() -> (r: String)
    ensures
        r@ == "[no subject]"@,
{
    let v = chars_of("[no subject]");
    string_of_chars(&v)
}

/// The sentinel sender of a message without a usable From header.
pub fn default_sender() -> (r: String)
    ensures
        r@ == "[unknown sender]"@,
{
    let v = chars_of("[unknown sender]");
    string_of_chars(&v)
}

/// The text of a header value, or empty when the value is not text: what
/// the sender filter is matched against.
pub open spec fn header_text_or_empty(h: HeaderField) -> Seq<char> {
    match h.value {
        Some(v) => v@,
        None => Seq::empty(),
    }
}

/// Some From header of the message contains the filter text, compared
/// case-insensitively.
pub open spec fn from_matches(hs: Seq<HeaderField>, f: Seq<char>) -> bool {
    exists|i: int|
        0 <= i < hs.len() && eq_ci_seq(hs[i].name@, "from"@) && contains_ci(
            header_text_or_empty(hs[i]),
            f,
        )
}

/// Whether a From header of the parts contains the filter text.
pub fn from_header_contains(hs: &Vec<HeaderField>, filter: &Vec<char>) -> (r: bool)
    ensures
        r == from_matches(hs@, filter@),
{
    let fname = chars_of("from");
    let empty: Vec<char> = Vec::new();
    let mut i: usize = 0;
    while i < hs.len()
        invariant
            i <= hs.len(),
            fname@ == "from"@,
            empty@ == Seq::<char>::empty(),
            forall|j: int|
                0 <= j < i ==> !(eq_ci_seq(hs@[j].name@, "from"@) && contains_ci(
                    header_text_or_empty(hs@[j]),
                    filter@,
                )),
        decreases hs.len() - i,
    {
        let hname = chars_of(hs[i].name.as_str());
        if str_eq_ci(&hname, &fname) {
            let text = match &hs[i].value {
                Some(v) => chars_of(v.as_str()),
                None => Vec::new(),
            };
            if has_sub_ci(&text, filter) {
                return true;
            }
        }
        i = i + 1;
    }
    false
}

/// What message-level extraction returns from the HTML body, when there is
/// one: the code extracted from the rendered HTML.
pub open spec fn spec_html_code(m: DecodedMessage, pat: CompiledPattern) -> Option<Seq<char>> {
    match m.html_body {
        Some(h) => spec_extract(rendered_html(h@), pat),
        None => None,
    }
}

/// What message-level extraction returns: the plain-text body is tried
/// first, and the HTML body only when that yields nothing.
pub open spec fn spec_message_code(m: DecodedMessage, pat: CompiledPattern) -> Option<Seq<char>> {
    match m.text_body {
        Some(s) => if spec_extract(s@, pat) is Some {
            spec_extract(s@, pat)
        } else {
            spec_html_code(m, pat)
        },
        None => spec_html_code(m, pat),
    }
}

/// Extract at most one code from a decoded message.
pub fn extract_code_from_message(m: &DecodedMessage, pat: &CompiledPattern) -> (r: Option<String>)
    requires
        pat.wf(),
    ensures
        match r {
            Some(s) => spec_message_code(*m, *pat) == Some(s@),
            None => spec_message_code(*m, *pat) is None,
        },
{
    match &m.text_body {
        Some(s) => {
            match extract_code_from_text(s.as_str(), pat) {
                Some(c) => {
                    return Some(c);
                },
                None => {},
            }
        },
        None => {},
    }
    match &m.html_body {
        Some(h) => {
            let rendered = html_to_text(h.as_str());
            extract_code_from_text(rendered.as_str(), pat)
        },
        None => None,
    }
}

} // verus!
