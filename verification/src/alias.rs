//! The deterministic part of alias generation.
//!
//! Randomness stays with the caller: it draws numbers and hands them in;
//! these functions turn the draws into a prefix and the prefix into an
//! address, and decide which source a configuration asks prefixes from.

use vstd::prelude::*;
use crate::text::{chars_of, push_range, str_eq, string_of_chars};

verus! {

/// Where a session draws alias prefixes from.
#[derive(Clone, Copy, Debug, PartialEq, Eq, Structural)]
pub enum PrefixSource {
    /// One of the configured custom prefixes.
    CustomList,
    /// Random ASCII letters and digits.
    RandomAlphanumeric,
    /// Random lower-case letters.
    RandomAlphabetic,
    /// Random digits.
    RandomNumeric,
}

/// The prefix source a configuration's mode and charset name denote;
/// `None` for an unsupported mode. An unknown charset name falls back to
/// letters and digits.
pub open spec fn spec_prefix_source(mode: Seq<char>, charset: Seq<char>) -> Option<PrefixSource> {
    if mode == "random"@ {
        if charset == "alphabetic"@ {
            Some(PrefixSource::RandomAlphabetic)
        } else if charset == "numeric"@ {
            Some(PrefixSource::RandomNumeric)
        } else {
            Some(PrefixSource::RandomAlphanumeric)
        }
    } else if mode == "custom"@ {
        Some(PrefixSource::CustomList)
    } else {
        None
    }
}

/// Decide the prefix source from the configured mode and charset name.
pub fn prefix_source(mode: &str, charset: &str) -> (r: Option<PrefixSource>)
    ensures
        r == spec_prefix_source(mode@, charset@),
{
    let mc = chars_of(mode);
    let cc = chars_of(charset);
    let random = chars_of("random");
    let custom = chars_of("custom");
    let alphabetic = chars_of("alphabetic");
    let numeric = chars_of("numeric");
    if str_eq(&mc, &random) {
        if str_eq(&cc, &alphabetic) {
            Some(PrefixSource::RandomAlphabetic)
        } else if str_eq(&cc, &numeric) {
            Some(PrefixSource::RandomNumeric)
        } else {
            Some(PrefixSource::RandomAlphanumeric)
        }
    } else if str_eq(&mc, &custom) {
        Some(PrefixSource::CustomList)
    } else {
        None
    }
}

/// The lower-case letters prefixes of the alphabetic source consist of.
pub fn lowercase_charset() -> (r: Vec<char>)
    ensures
        r@ == "abcdefghijklmnopqrstuvwxyz"@,
{
    chars_of("abcdefghijklmnopqrstuvwxyz")
}

/// The digits prefixes of the numeric source consist of.
pub fn digit_charset() -> (r: Vec<char>)
    ensures
        r@ == "0123456789"@,
{
    chars_of("0123456789")
}

/// The custom prefix a draw selects: none when the configured list is
/// empty, else the entry the draw picks, reduced modulo the list length.
pub fn custom_prefix(prefixes: &Vec<String>, pick: usize) -> (r: Option<String>)
    ensures
        r is None <==> prefixes@.len() == 0,
        r matches Some(p) ==> prefixes@.len() > 0 && p@ == prefixes@[(pick as int) % (
        prefixes@.len() as int)]@,
{
    if prefixes.len() == 0 {
        None
    } else {
        Some(prefixes[pick % prefixes.len()].clone())
    }
}

/// The prefix a sequence of draws selects from a charset: each draw picks
/// one character, reduced modulo the charset size. None when the charset
/// is empty.
pub fn prefix_from_picks(charset: &Vec<char>, picks: &Vec<usize>) -> (r: Option<String>)
    ensures
        r is None <==> charset@.len() == 0,
        r matches Some(p) ==> charset@.len() > 0 && p@.len() == picks@.len() && forall|i: int|
            0 <= i < picks@.len() ==> p@[i] == charset@[(picks@[i] as int) % (
            charset@.len() as int)],
{
    if charset.len() == 0 {
        return None;
    }
    let mut out: Vec<char> = Vec::new();
    let mut i: usize = 0;
    while i < picks.len()
        invariant
            i <= picks.len(),
            charset@.len() > 0,
            out@.len() == i,
            forall|j: int|
                0 <= j < i ==> out@[j] == charset@[(picks@[j] as int) % (charset@.len() as int)],
        decreases picks.len() - i,
    {
        out.push(charset[picks[i] % charset.len()]);
        i = i + 1;
    }
    Some(string_of_chars(&out))
}

/// The full alias address of a prefix under the configured domain.
pub fn alias_address(prefix: &str, domain: &str) -> (r: String)
    ensures
        r@ == prefix@ + "@"@ + domain@,
{
    let pc = chars_of(prefix);
    let dc = chars_of(domain);
    let mut out: Vec<char> = Vec::new();
    push_range(&mut out, &pc, 0, pc.len());
    out.push('@');
    push_range(&mut out, &dc, 0, dc.len());
    proof {
        reveal_strlit("@");
        assert(pc@.subrange(0, pc@.len() as int) =~= pc@);
        assert(dc@.subrange(0, dc@.len() as int) =~= dc@);
        assert(out@ =~= prefix@ + "@"@ + domain@);
    }
    string_of_chars(&out)
}

} // verus!
