//! The tiered code extractor.
//!
//! Extraction tries three tiers in order and returns the first success:
//! 1. marker patterns: a fixed list of contextual phrases, each matched
//!    case-insensitively and followed by the first digit run of 4 to 8
//!    digits with a word boundary after it, and a pattern for a digit run
//!    standing alone on its line;
//! 2. marker words: a fixed mixed-language word list, each matched exactly
//!    and followed by optional separators and a run of at least 4 letters
//!    or digits, of which the first at most 8 are the code;
//! 3. the session's compiled pattern applied to the whole text.
//!
//! Contextual markers are always preferred because generic shape matching
//! alone too easily picks up years or other incidental numbers.

use vstd::prelude::*;
use crate::text::{CharKind, chars_of, kind_find, kind_find_from, run_end, run_end_from,
    string_of_chars, sub_at, sub_chars, match_sub_at};
use crate::pattern::{CompiledPattern, pattern_first, word_at};

verus! {

/// The first digit run at or after `j` captures a code if it is 4 to 8
/// digits long and ends at a word boundary.
pub open spec fn digit_capture_after(t: Seq<char>, j: int) -> Option<(int, int)> {
    match kind_find_from(t, CharKind::Digit, j) {
        None => None,
        Some(d) => {
            let e = run_end_from(t, CharKind::Digit, d);
            if 4 <= e - d <= 8 && !word_at(t, e) {
                Some((d, e))
            } else {
                None
            }
        },
    }
}

/// A marker phrase hits at `s` when it occurs there (up to ASCII case) and
/// the first digit run after it captures.
pub open spec fn phrase_hit(t: Seq<char>, p: Seq<char>, s: int) -> bool {
    sub_at(t, p, s, true) && digit_capture_after(t, s + p.len()) is Some
}

/// The capture of the leftmost hit of phrase `p` at or after `s`.
pub open spec fn phrase_scan(t: Seq<char>, p: Seq<char>, s: int) -> Option<(int, int)>
    decreases t.len() - s,
{
    if s < 0 || s >= t.len() {
        None
    } else if phrase_hit(t, p, s) {
        digit_capture_after(t, s + p.len())
    } else {
        phrase_scan(t, p, s + 1)
    }
}

pub proof fn lemma_phrase_scan_skip(t: Seq<char>, p: Seq<char>, s: int, m: int)
    requires
        0 <= s <= m,
        forall|j: int| s <= j < m ==> !phrase_hit(t, p, j),
    ensures
        phrase_scan(t, p, s) == phrase_scan(t, p, m),
    decreases m - s,
{
    if s < m {
        if s >= t.len() {
        } else {
            lemma_phrase_scan_skip(t, p, s + 1, m);
        }
    }
}

/// Position `s` starts a line: the start of the text or right after a line
/// feed.
pub open spec fn line_start(t: Seq<char>, s: int) -> bool {
    s == 0 || (0 < s <= t.len() && t[s - 1] == '\n')
}

/// The capture of the isolated-line pattern on the line starting at `s`:
/// optional blanks, a digit run of 4 to 8 digits, optional blanks, then the
/// end of the line or of the text.
pub open spec fn line_capture_at(t: Seq<char>, s: int) -> Option<(int, int)> {
    let d = run_end_from(t, CharKind::Blank, s);
    let e = run_end_from(t, CharKind::Digit, d);
    let w = run_end_from(t, CharKind::Blank, e);
    if 4 <= e - d <= 8 && (w == t.len() || t[w] == '\n') {
        Some((d, e))
    } else {
        None
    }
}

pub open spec fn line_hit(t: Seq<char>, s: int) -> bool {
    line_start(t, s) && line_capture_at(t, s) is Some
}

/// The capture of the first line whose sole content is a qualifying digit
/// run.
pub open spec fn line_scan(t: Seq<char>, s: int) -> Option<(int, int)>
    decreases t.len() - s,
{
    if s < 0 || s >= t.len() {
        None
    } else if line_hit(t, s) {
        line_capture_at(t, s)
    } else {
        line_scan(t, s + 1)
    }
}

pub proof fn lemma_line_scan_skip(t: Seq<char>, s: int, m: int)
    requires
        0 <= s <= m,
        forall|j: int| s <= j < m ==> !line_hit(t, j),
    ensures
        line_scan(t, s) == line_scan(t, m),
    decreases m - s,
{
    if s < m {
        if s >= t.len() {
        } else {
            lemma_line_scan_skip(t, s + 1, m);
        }
    }
}

/// The capture of marker word `w` at position `s`: the word itself, then a
/// run of separators, then at least 4 letters or digits, of which the first
/// at most 8 are the code.
pub open spec fn marker_capture_at(t: Seq<char>, w: Seq<char>, s: int) -> Option<(int, int)> {
    if sub_at(t, w, s, false) {
        let d = run_end_from(t, CharKind::Sep, s + w.len());
        let e = run_end_from(t, CharKind::Alnum, d);
        if e - d >= 4 {
            Some((d, if e - d <= 8 { e } else { d + 8 }))
        } else {
            None
        }
    } else {
        None
    }
}

pub open spec fn marker_hit(t: Seq<char>, w: Seq<char>, s: int) -> bool {
    marker_capture_at(t, w, s) is Some
}

/// The capture of the leftmost hit of marker word `w`.
pub open spec fn marker_scan(t: Seq<char>, w: Seq<char>, s: int) -> Option<(int, int)>
    decreases t.len() - s,
{
    if s < 0 || s >= t.len() {
        None
    } else if marker_hit(t, w, s) {
        marker_capture_at(t, w, s)
    } else {
        marker_scan(t, w, s + 1)
    }
}

pub proof fn lemma_marker_scan_skip(t: Seq<char>, w: Seq<char>, s: int, m: int)
    requires
        0 <= s <= m,
        forall|j: int| s <= j < m ==> !marker_hit(t, w, j),
    ensures
        marker_scan(t, w, s) == marker_scan(t, w, m),
    decreases m - s,
{
    if s < m {
        if s >= t.len() {
        } else {
            lemma_marker_scan_skip(t, w, s + 1, m);
        }
    }
}

/// First tier: the marker phrases in their fixed order, then the
/// isolated-line pattern.
pub open spec fn tier1_result(t: Seq<char>) -> Option<(int, int)> {
    if phrase_scan(t, "enter the code"@, 0) is Some {
        phrase_scan(t, "enter the code"@, 0)
    } else if phrase_scan(t, "verification code"@, 0) is Some {
        phrase_scan(t, "verification code"@, 0)
    } else if phrase_scan(t, "your code"@, 0) is Some {
        phrase_scan(t, "your code"@, 0)
    } else if phrase_scan(t, "code"@, 0) is Some {
        phrase_scan(t, "code"@, 0)
    } else {
        line_scan(t, 0)
    }
}

/// The fixed, ordered marker word list of the second tier. The words mix
/// languages on purpose: the mailbox may receive mail in any language.
pub open spec fn marker_words() -> Seq<Seq<char>> {
    seq![
        "\u{9a8c}\u{8bc1}\u{7801}"@,
        "code"@,
        "\u{5bc6}\u{7801}"@,
        "\u{6821}\u{9a8c}\u{7801}"@,
        "\u{52a8}\u{6001}\u{7801}"@,
        "\u{53e3}\u{4ee4}"@,
        "\u{7801}"@,
        "\u{9a8c}\u{8bc1}\u{4ee3}\u{7801}"@,
        "\u{52a8}\u{6001}\u{5bc6}\u{7801}"@,
        "\u{9a8c}\u{8bc1}"@,
        "verification"@,
    ]
}

/// Second tier: the first marker word, in list order, with a hit anywhere
/// in the text.
pub open spec fn tier2_from(t: Seq<char>, i: int) -> Option<(int, int)>
    decreases marker_words().len() - i,
{
    if i < 0 || i >= marker_words().len() {
        None
    } else if marker_scan(t, marker_words()[i], 0) is Some {
        marker_scan(t, marker_words()[i], 0)
    } else {
        tier2_from(t, i + 1)
    }
}

pub open spec fn tier2_result(t: Seq<char>) -> Option<(int, int)> {
    tier2_from(t, 0)
}

/// The whole tiered extraction, as a character range of the text.
pub open spec fn extract_range(t: Seq<char>, p: CompiledPattern) -> Option<(int, int)> {
    if tier1_result(t) is Some {
        tier1_result(t)
    } else if tier2_result(t) is Some {
        tier2_result(t)
    } else {
        pattern_first(t, p)
    }
}

/// What `extract_code_from_text` returns: the captured characters.
pub open spec fn spec_extract(t: Seq<char>, p: CompiledPattern) -> Option<Seq<char>> {
    match extract_range(t, p) {
        Some((a, b)) => Some(t.subrange(a, b)),
        None => None,
    }
}

/// Marker precedence: when the first tier yields a capture, extraction
/// returns exactly it, whatever the later tiers or the generic pattern
/// would have said.
pub proof fn lemma_marker_precedence(t: Seq<char>, p: CompiledPattern)
    requires
        tier1_result(t) is Some,
    ensures
        extract_range(t, p) == tier1_result(t),
{
}

/// Tier fallback: text without a hit of any marker phrase still yields the
/// capture of the isolated-line pattern.
pub proof fn lemma_line_fallback(t: Seq<char>, p: CompiledPattern)
    requires
        phrase_scan(t, "enter the code"@, 0) is None,
        phrase_scan(t, "verification code"@, 0) is None,
        phrase_scan(t, "your code"@, 0) is None,
        phrase_scan(t, "code"@, 0) is None,
        line_scan(t, 0) is Some,
    ensures
        extract_range(t, p) == line_scan(t, 0),
{
}

/// The first qualifying digit run at or after `j`.
pub fn digit_capture(t: &Vec<char>, j: usize) -> (r: Option<(usize, usize)>)
    requires
        j <= t.len(),
    ensures
        match r {
            Some((a, b)) => digit_capture_after(t@, j as int) == Some((a as int, b as int)) && a
                <= b <= t.len(),
            None => digit_capture_after(t@, j as int) is None,
        },
{
    match kind_find(t, CharKind::Digit, j) {
        None => None,
        Some(d) => {
            let e = run_end(t, CharKind::Digit, d);
            let word_after = e < t.len() && crate::text::word_char(t[e]);
            if 4 <= e - d && e - d <= 8 && !word_after {
                Some((d, e))
            } else {
                None
            }
        },
    }
}

/// The capture of the leftmost hit of phrase `p` in `t`.
pub fn phrase_capture(t: &Vec<char>, p: &Vec<char>) -> (r: Option<(usize, usize)>)
    ensures
        match r {
            Some((a, b)) => phrase_scan(t@, p@, 0) == Some((a as int, b as int)) && a <= b
                <= t.len(),
            None => phrase_scan(t@, p@, 0) is None,
        },
{
    let mut s: usize = 0;
    while s < t.len()
        invariant
            s <= t.len(),
            forall|j: int| 0 <= j < s ==> !phrase_hit(t@, p@, j),
        decreases t.len() - s,
    {
        if p.len() <= t.len() - s && match_sub_at(t, p, s, true) {
            match digit_capture(t, s + p.len()) {
                Some((a, b)) => {
                    proof {
                        lemma_phrase_scan_skip(t@, p@, 0, s as int);
                    }
                    return Some((a, b));
                },
                None => {},
            }
        }
        s = s + 1;
    }
    proof {
        lemma_phrase_scan_skip(t@, p@, 0, s as int);
    }
    None
}

/// The capture of the first line holding nothing but a qualifying digit
/// run.
pub fn line_capture(t: &Vec<char>) -> (r: Option<(usize, usize)>)
    ensures
        match r {
            Some((a, b)) => line_scan(t@, 0) == Some((a as int, b as int)) && a <= b <= t.len(),
            None => line_scan(t@, 0) is None,
        },
{
    let mut s: usize = 0;
    while s < t.len()
        invariant
            s <= t.len(),
            forall|j: int| 0 <= j < s ==> !line_hit(t@, j),
        decreases t.len() - s,
    {
        let starts = s == 0 || t[s - 1] == '\n';
        if starts {
            let d = run_end(t, CharKind::Blank, s);
            let e = run_end(t, CharKind::Digit, d);
            let w = run_end(t, CharKind::Blank, e);
            if 4 <= e - d && e - d <= 8 && (w == t.len() || t[w] == '\n') {
                proof {
                    lemma_line_scan_skip(t@, 0, s as int);
                }
                return Some((d, e));
            }
        }
        s = s + 1;
    }
    proof {
        lemma_line_scan_skip(t@, 0, s as int);
    }
    None
}

/// The capture of the leftmost hit of marker word `w` in `t`.
pub fn marker_capture(t: &Vec<char>, w: &Vec<char>) -> (r: Option<(usize, usize)>)
    ensures
        match r {
            Some((a, b)) => marker_scan(t@, w@, 0) == Some((a as int, b as int)) && a <= b
                <= t.len(),
            None => marker_scan(t@, w@, 0) is None,
        },
{
    let mut s: usize = 0;
    while s < t.len()
        invariant
            s <= t.len(),
            forall|j: int| 0 <= j < s ==> !marker_hit(t@, w@, j),
        decreases t.len() - s,
    {
        if w.len() <= t.len() - s && match_sub_at(t, w, s, false) {
            let d = run_end(t, CharKind::Sep, s + w.len());
            let e = run_end(t, CharKind::Alnum, d);
            if e - d >= 4 {
                let b = if e - d <= 8 {
                    e
                } else {
                    d + 8
                };
                proof {
                    lemma_marker_scan_skip(t@, w@, 0, s as int);
                }
                return Some((d, b));
            }
        }
        s = s + 1;
    }
    proof {
        lemma_marker_scan_skip(t@, w@, 0, s as int);
    }
    None
}

/// First tier of the extractor over the character vector.
pub fn tier1_capture(t: &Vec<char>) -> (r: Option<(usize, usize)>)
    ensures
        match r {
            Some((a, b)) => tier1_result(t@) == Some((a as int, b as int)) && a <= b <= t.len(),
            None => tier1_result(t@) is None,
        },
{
    let p1 = chars_of("enter the code");
    match phrase_capture(t, &p1) {
        Some(c) => { return Some(c); },
        None => {},
    }
    let p2 = chars_of("verification code");
    match phrase_capture(t, &p2) {
        Some(c) => { return Some(c); },
        None => {},
    }
    let p3 = chars_of("your code");
    match phrase_capture(t, &p3) {
        Some(c) => { return Some(c); },
        None => {},
    }
    let p4 = chars_of("code");
    match phrase_capture(t, &p4) {
        Some(c) => { return Some(c); },
        None => {},
    }
    line_capture(t)
}

/// Second tier of the extractor over the character vector.
pub fn tier2_capture(t: &Vec<char>) -> (r: Option<(usize, usize)>)
    ensures
        match r {
            Some((a, b)) => tier2_result(t@) == Some((a as int, b as int)) && a <= b <= t.len(),
            None => tier2_result(t@) is None,
        },
{
    // verification code (zh)
    let w0 = chars_of("\u{9a8c}\u{8bc1}\u{7801}");
    // the English word
    let w1 = chars_of("code");
    // password (zh)
    let w2 = chars_of("\u{5bc6}\u{7801}");
    // check code (zh)
    let w3 = chars_of("\u{6821}\u{9a8c}\u{7801}");
    // dynamic code (zh)
    let w4 = chars_of("\u{52a8}\u{6001}\u{7801}");
    // passphrase (zh)
    let w5 = chars_of("\u{53e3}\u{4ee4}");
    // code (zh, single character)
    let w6 = chars_of("\u{7801}");
    // verification code, long form (zh)
    let w7 = chars_of("\u{9a8c}\u{8bc1}\u{4ee3}\u{7801}");
    // dynamic password (zh)
    let w8 = chars_of("\u{52a8}\u{6001}\u{5bc6}\u{7801}");
    // verification (zh)
    let w9 = chars_of("\u{9a8c}\u{8bc1}");
    // the English word
    let w10 = chars_of("verification");
    proof {
        assert(marker_words()[0] == "\u{9a8c}\u{8bc1}\u{7801}"@);
        assert(marker_words()[1] == "code"@);
        assert(marker_words()[2] == "\u{5bc6}\u{7801}"@);
        assert(marker_words()[3] == "\u{6821}\u{9a8c}\u{7801}"@);
        assert(marker_words()[4] == "\u{52a8}\u{6001}\u{7801}"@);
        assert(marker_words()[5] == "\u{53e3}\u{4ee4}"@);
        assert(marker_words()[6] == "\u{7801}"@);
        assert(marker_words()[7] == "\u{9a8c}\u{8bc1}\u{4ee3}\u{7801}"@);
        assert(marker_words()[8] == "\u{52a8}\u{6001}\u{5bc6}\u{7801}"@);
        assert(marker_words()[9] == "\u{9a8c}\u{8bc1}"@);
        assert(marker_words()[10] == "verification"@);
        assert(marker_words().len() == 11);
    }
    match marker_capture(t, &w0) {
        Some(c) => { return Some(c); },
        None => {
            proof {
                assert(tier2_from(t@, 0) == tier2_from(t@, 1));
            }
        },
    }
    match marker_capture(t, &w1) {
        Some(c) => { return Some(c); },
        None => {
            proof {
                assert(tier2_from(t@, 1) == tier2_from(t@, 2));
            }
        },
    }
    match marker_capture(t, &w2) {
        Some(c) => { return Some(c); },
        None => {
            proof {
                assert(tier2_from(t@, 2) == tier2_from(t@, 3));
            }
        },
    }
    match marker_capture(t, &w3) {
        Some(c) => { return Some(c); },
        None => {
            proof {
                assert(tier2_from(t@, 3) == tier2_from(t@, 4));
            }
        },
    }
    match marker_capture(t, &w4) {
        Some(c) => { return Some(c); },
        None => {
            proof {
                assert(tier2_from(t@, 4) == tier2_from(t@, 5));
            }
        },
    }
    match marker_capture(t, &w5) {
        Some(c) => { return Some(c); },
        None => {
            proof {
                assert(tier2_from(t@, 5) == tier2_from(t@, 6));
            }
        },
    }
    match marker_capture(t, &w6) {
        Some(c) => { return Some(c); },
        None => {
            proof {
                assert(tier2_from(t@, 6) == tier2_from(t@, 7));
            }
        },
    }
    match marker_capture(t, &w7) {
        Some(c) => { return Some(c); },
        None => {
            proof {
                assert(tier2_from(t@, 7) == tier2_from(t@, 8));
            }
        },
    }
    match marker_capture(t, &w8) {
        Some(c) => { return Some(c); },
        None => {
            proof {
                assert(tier2_from(t@, 8) == tier2_from(t@, 9));
            }
        },
    }
    match marker_capture(t, &w9) {
        Some(c) => { return Some(c); },
        None => {
            proof {
                assert(tier2_from(t@, 9) == tier2_from(t@, 10));
            }
        },
    }
    match marker_capture(t, &w10) {
        Some(c) => { return Some(c); },
        None => {
            proof {
                assert(tier2_from(t@, 11) is None);
                assert(tier2_from(t@, 10) is None);
            }
        },
    }
    None
}

/// Tiered extraction of at most one candidate code from decoded text.
pub fn extract_code_from_text(text: &str, p: &CompiledPattern) -> (r: Option<String>)
    requires
        p.wf(),
    ensures
        match r {
            Some(s) => spec_extract(text@, *p) == Some(s@),
            None => spec_extract(text@, *p) is None,
        },
{
    let t = chars_of(text);
    match tier1_capture(&t) {
        Some((a, b)) => {
            let sub = sub_chars(&t, a, b);
            return Some(string_of_chars(&sub));
        },
        None => {},
    }
    match tier2_capture(&t) {
        Some((a, b)) => {
            let sub = sub_chars(&t, a, b);
            return Some(string_of_chars(&sub));
        },
        None => {},
    }
    match p.find_first(&t) {
        Some((a, b)) => {
            let sub = sub_chars(&t, a, b);
            Some(string_of_chars(&sub))
        },
        None => None,
    }
}

} // verus!
