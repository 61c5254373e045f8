//! Character classes and substring scanning over character sequences.
//!
//! All matching in this crate is defined over `Seq<char>`; executable code
//! works on `Vec<char>`. The classes below are the grammar of the code
//! extractor: ASCII digits, ASCII letters and digits, word characters for
//! word boundaries, and the whitespace set used by marker separators.

use vstd::prelude::*;

verus! {

/// ASCII decimal digit.
pub open spec fn is_digit_char(c: char) -> bool {
    ('0' as u32) <= (c as u32) && (c as u32) <= ('9' as u32)
}

/// ASCII letter or digit.
pub open spec fn is_alnum_char(c: char) -> bool {
    is_digit_char(c)
        || (('A' as u32) <= (c as u32) && (c as u32) <= ('Z' as u32))
        || (('a' as u32) <= (c as u32) && (c as u32) <= ('z' as u32))
}

/// Word character for word boundaries: letter, digit or underscore.
pub open spec fn is_word_char(c: char) -> bool {
    is_alnum_char(c) || c == '_'
}

/// ASCII whitespace: space, tab, line feed, carriage return, vertical tab,
/// form feed.
pub open spec fn is_space_char(c: char) -> bool {
    c == ' ' || c == '\t' || c == '\n' || c == '\r' || c == '\u{b}' || c == '\u{c}'
}

/// Characters that a non-whitespace code of the `Any` shape may contain.
pub open spec fn is_nonspace_char(c: char) -> bool {
    !is_space_char(c)
}

/// Code point of `c` with an ASCII capital letter folded to lower case.
pub open spec fn fold_char(c: char) -> int {
    if ('A' as u32) <= (c as u32) && (c as u32) <= ('Z' as u32) {
        (c as u32) + 32
    } else {
        (c as u32) as int
    }
}

/// Character equality up to ASCII case.
pub open spec fn chars_eq_ci(a: char, b: char) -> bool {
    fold_char(a) == fold_char(b)
}

pub fn digit_char(c: char) -> (r: bool)
    ensures
        r == is_digit_char(c),
{
    let u = c as u32;
    48 <= u && u <= 57
}

pub fn alnum_char(c: char) -> (r: bool)
    ensures
        r == is_alnum_char(c),
{
    let u = c as u32;
    (48 <= u && u <= 57) || (65 <= u && u <= 90) || (97 <= u && u <= 122)
}

pub fn word_char(c: char) -> (r: bool)
    ensures
        r == is_word_char(c),
{
    alnum_char(c) || c == '_'
}

pub fn space_char(c: char) -> (r: bool)
    ensures
        r == is_space_char(c),
{
    c == ' ' || c == '\t' || c == '\n' || c == '\r' || c == '\u{b}' || c == '\u{c}'
}

pub fn eq_ci(a: char, b: char) -> (r: bool)
    ensures
        r == chars_eq_ci(a, b),
{
    let ua = a as u32;
    let ub = b as u32;
    let fa = if 65 <= ua && ua <= 90 { ua + 32 } else { ua };
    let fb = if 65 <= ub && ub <= 90 { ub + 32 } else { ub };
    fa == fb
}

/// Relies on `str::chars`: it yields the characters of the string in order,
/// which is exactly the view of the string.
#[verifier::external_body]
pub fn chars_of(s: &str) -> (r: Vec<char>)
    ensures
        r@ == s@,
{
    s.chars().collect()
}

/// Relies on `String`'s `FromIterator<char>`: collecting characters builds
/// the string of exactly those characters.
#[verifier::external_body]
pub fn string_of_chars(v: &Vec<char>) -> (r: String)
    ensures
        r@ == v@,
{
    v.iter().collect()
}

/// Copy of the character range `[a, b)` of `v`.
pub fn sub_chars(v: &Vec<char>, a: usize, b: usize) -> (r: Vec<char>)
    requires
        a <= b <= v.len(),
    ensures
        r@ == v@.subrange(a as int, b as int),
{
    let mut out: Vec<char> = Vec::new();
    let mut i: usize = a;
    while i < b
        invariant
            a <= i <= b <= v.len(),
            out@ == v@.subrange(a as int, i as int),
        decreases b - i,
    {
        out.push(v[i]);
        i = i + 1;
        proof {
            assert(out@ =~= v@.subrange(a as int, i as int));
        }
    }
    out
}

/// `p` occurs in `t` at position `s`; case-insensitive when `ci` is set.
pub open spec fn sub_at(t: Seq<char>, p: Seq<char>, s: int, ci: bool) -> bool {
    &&& 0 <= s
    &&& s + p.len() <= t.len()
    &&& forall|k: int|
        0 <= k < p.len() ==> if ci {
            chars_eq_ci(t[s + k], p[k])
        } else {
            t[s + k] == p[k]
        }
}

/// Leftmost occurrence of `p` in `t` at or after position `s`.
pub open spec fn find_sub_from(t: Seq<char>, p: Seq<char>, s: int, ci: bool) -> Option<int>
    decreases t.len() - s,
{
    if s < 0 || s + p.len() > t.len() {
        None
    } else if sub_at(t, p, s, ci) {
        Some(s)
    } else {
        find_sub_from(t, p, s + 1, ci)
    }
}

/// Positions that were scanned without an occurrence do not change the
/// result of the scan.
pub proof fn lemma_find_sub_skip(t: Seq<char>, p: Seq<char>, s: int, m: int, ci: bool)
    requires
        0 <= s <= m,
        forall|j: int| s <= j < m ==> !sub_at(t, p, j, ci),
    ensures
        find_sub_from(t, p, s, ci) == find_sub_from(t, p, m, ci),
    decreases m - s,
{
    if s < m {
        if s + p.len() > t.len() {
            assert(m + p.len() > t.len());
        } else {
            lemma_find_sub_skip(t, p, s + 1, m, ci);
        }
    }
}

/// What a successful scan means.
pub proof fn lemma_find_sub_some(t: Seq<char>, p: Seq<char>, s: int, ci: bool)
    requires
        0 <= s,
    ensures
        match find_sub_from(t, p, s, ci) {
            Some(i) => s <= i && sub_at(t, p, i, ci) && forall|j: int|
                s <= j < i ==> !sub_at(t, p, j, ci),
            None => forall|j: int| s <= j ==> !sub_at(t, p, j, ci),
        },
    decreases t.len() - s,
{
    if s + p.len() > t.len() {
        assert forall|j: int| s <= j implies !sub_at(t, p, j, ci) by {
            assert(j + p.len() > t.len());
        }
    } else if sub_at(t, p, s, ci) {
    } else {
        lemma_find_sub_some(t, p, s + 1, ci);
    }
}

/// Whether `p` matches `t` at position `s`, compared case-insensitively
/// when `ci` is set.
pub fn match_sub_at(t: &Vec<char>, p: &Vec<char>, s: usize, ci: bool) -> (r: bool)
    requires
        s + p.len() <= t.len(),
    ensures
        r == sub_at(t@, p@, s as int, ci),
{
    let mut k: usize = 0;
    while k < p.len()
        invariant
            s + p.len() <= t.len(),
            k <= p.len(),
            forall|j: int|
                0 <= j < k ==> if ci {
                    chars_eq_ci(t@[s + j], p@[j])
                } else {
                    t@[s + j] == p@[j]
                },
        decreases p.len() - k,
    {
        let same = if ci {
            eq_ci(t[s + k], p[k])
        } else {
            t[s + k] == p[k]
        };
        if !same {
            return false;
        }
        k = k + 1;
    }
    true
}

/// Leftmost occurrence of `p` in `t` at or after `s`.
pub fn find_sub(t: &Vec<char>, p: &Vec<char>, s: usize, ci: bool) -> (r: Option<usize>)
    ensures
        match r {
            Some(i) => s <= i && i + p.len() <= t.len() && find_sub_from(
                t@,
                p@,
                s as int,
                ci,
            ) == Some(i as int),
            None => find_sub_from(t@, p@, s as int, ci) is None,
        },
{
    if p.len() > t.len() || s > t.len() - p.len() {
        proof {
            lemma_find_sub_some(t@, p@, s as int, ci);
        }
        return None;
    }
    let mut i: usize = s;
    let last: usize = t.len() - p.len();
    while i <= last
        invariant
            s <= i,
            p.len() + last == t.len(),
            i <= last + 1,
            forall|j: int| s <= j < i ==> !sub_at(t@, p@, j, ci),
        decreases last + 1 - i,
    {
        if match_sub_at(t, p, i, ci) {
            proof {
                lemma_find_sub_skip(t@, p@, s as int, i as int, ci);
            }
            return Some(i);
        }
        i = i + 1;
    }
    proof {
        lemma_find_sub_some(t@, p@, s as int, ci);
    }
    None
}

/// Character sequences equal up to ASCII case.
pub open spec fn eq_ci_seq(a: Seq<char>, b: Seq<char>) -> bool {
    a.len() == b.len() && sub_at(a, b, 0, true)
}

/// Whether two character vectors are equal up to ASCII case.
pub fn str_eq_ci(a: &Vec<char>, b: &Vec<char>) -> (r: bool)
    ensures
        r == eq_ci_seq(a@, b@),
{
    a.len() == b.len() && match_sub_at(a, b, 0, true)
}

/// Whether two character vectors hold exactly the same characters.
pub fn str_eq(a: &Vec<char>, b: &Vec<char>) -> (r: bool)
    ensures
        r == (a@ == b@),
{
    if a.len() != b.len() {
        return false;
    }
    let same = match_sub_at(a, b, 0, false);
    proof {
        if sub_at(a@, b@, 0, false) {
            assert(a@ =~= b@);
        } else {
            assert(a@ != b@);
        }
    }
    same
}

/// `needle` occurs somewhere in `hay`, compared case-insensitively: the
/// containment test of the sender filter.
pub open spec fn contains_ci(hay: Seq<char>, needle: Seq<char>) -> bool {
    exists|i: int| sub_at(hay, needle, i, true)
}

pub fn has_sub_ci(hay: &Vec<char>, needle: &Vec<char>) -> (r: bool)
    ensures
        r == contains_ci(hay@, needle@),
{
    let found = find_sub(hay, needle, 0, true);
    proof {
        lemma_find_sub_some(hay@, needle@, 0, true);
        if find_sub_from(hay@, needle@, 0, true) is Some {
            let i = find_sub_from(hay@, needle@, 0, true)->Some_0;
            assert(sub_at(hay@, needle@, i, true));
        } else {
            assert forall|i: int| !sub_at(hay@, needle@, i, true) by {
                if i < 0 {
                } else {
                    assert(!sub_at(hay@, needle@, i, true));
                }
            }
        }
    }
    found.is_some()
}

/// The character classes that runs are scanned over.
#[derive(Clone, Copy, PartialEq, Eq, Structural)]
pub enum CharKind {
    /// ASCII digit.
    Digit,
    /// ASCII letter or digit.
    Alnum,
    /// Anything but whitespace.
    NonSpace,
    /// The whitespace set.
    Space,
    /// Space or tab only.
    Blank,
    /// Marker separators: whitespace, ASCII colon or full-width colon.
    Sep,
}

pub open spec fn in_kind(k: CharKind, c: char) -> bool {
    match k {
        CharKind::Digit => is_digit_char(c),
        CharKind::Alnum => is_alnum_char(c),
        CharKind::NonSpace => is_nonspace_char(c),
        CharKind::Space => is_space_char(c),
        CharKind::Blank => c == ' ' || c == '\t',
        CharKind::Sep => is_space_char(c) || c == ':' || c == '\u{ff1a}',
    }
}

pub fn kind_char(k: CharKind, c: char) -> (r: bool)
    ensures
        r == in_kind(k, c),
{
    match k {
        CharKind::Digit => digit_char(c),
        CharKind::Alnum => alnum_char(c),
        CharKind::NonSpace => !space_char(c),
        CharKind::Space => space_char(c),
        CharKind::Blank => c == ' ' || c == '\t',
        CharKind::Sep => space_char(c) || c == ':' || c == '\u{ff1a}',
    }
}

/// End of the run of `k`-characters that starts at `s`.
pub open spec fn run_end_from(t: Seq<char>, k: CharKind, s: int) -> int
    decreases t.len() - s,
{
    if s < 0 || s >= t.len() {
        s
    } else if !in_kind(k, t[s]) {
        s
    } else {
        run_end_from(t, k, s + 1)
    }
}

pub proof fn lemma_run_end(t: Seq<char>, k: CharKind, s: int)
    requires
        0 <= s <= t.len(),
    ensures
        s <= run_end_from(t, k, s) <= t.len(),
        forall|j: int| s <= j < run_end_from(t, k, s) ==> in_kind(k, t[j]),
        run_end_from(t, k, s) < t.len() ==> !in_kind(k, t[run_end_from(t, k, s)]),
    decreases t.len() - s,
{
    if s < t.len() && in_kind(k, t[s]) {
        lemma_run_end(t, k, s + 1);
    }
}

/// A run already seen to consist of `k`-characters ends where the scan from
/// its interior ends.
pub proof fn lemma_run_end_skip(t: Seq<char>, k: CharKind, s: int, m: int)
    requires
        0 <= s <= m <= t.len(),
        forall|j: int| s <= j < m ==> in_kind(k, t[j]),
    ensures
        run_end_from(t, k, s) == run_end_from(t, k, m),
    decreases m - s,
{
    if s < m {
        lemma_run_end_skip(t, k, s + 1, m);
    }
}

pub fn run_end(t: &Vec<char>, k: CharKind, s: usize) -> (r: usize)
    requires
        s <= t.len(),
    ensures
        r == run_end_from(t@, k, s as int),
        s <= r <= t.len(),
{
    let mut i: usize = s;
    while i < t.len()
        invariant
            s <= i <= t.len(),
            forall|j: int| s <= j < i ==> in_kind(k, t@[j]),
        decreases t.len() - i,
    {
        if !kind_char(k, t[i]) {
            proof {
                lemma_run_end_skip(t@, k, s as int, i as int);
            }
            return i;
        }
        i = i + 1;
    }
    proof {
        lemma_run_end_skip(t@, k, s as int, i as int);
    }
    i
}

/// Position of the first `k`-character at or after `s`.
pub open spec fn kind_find_from(t: Seq<char>, k: CharKind, s: int) -> Option<int>
    decreases t.len() - s,
{
    if s < 0 || s >= t.len() {
        None
    } else if in_kind(k, t[s]) {
        Some(s)
    } else {
        kind_find_from(t, k, s + 1)
    }
}

pub proof fn lemma_kind_find_skip(t: Seq<char>, k: CharKind, s: int, m: int)
    requires
        0 <= s <= m,
        forall|j: int| s <= j < m ==> !in_kind(k, t[j]),
    ensures
        kind_find_from(t, k, s) == kind_find_from(t, k, m),
    decreases m - s,
{
    if s < m {
        if s >= t.len() {
        } else {
            lemma_kind_find_skip(t, k, s + 1, m);
        }
    }
}

pub fn kind_find(t: &Vec<char>, k: CharKind, s: usize) -> (r: Option<usize>)
    requires
        s <= t.len(),
    ensures
        match r {
            Some(i) => s <= i < t.len() && kind_find_from(t@, k, s as int) == Some(i as int),
            None => kind_find_from(t@, k, s as int) is None,
        },
{
    let mut i: usize = s;
    while i < t.len()
        invariant
            s <= i <= t.len(),
            forall|j: int| s <= j < i ==> !in_kind(k, t@[j]),
        decreases t.len() - i,
    {
        if kind_char(k, t[i]) {
            proof {
                lemma_kind_find_skip(t@, k, s as int, i as int);
            }
            return Some(i);
        }
        i = i + 1;
    }
    proof {
        lemma_kind_find_skip(t@, k, s as int, i as int);
    }
    None
}

/// Start of the run of `k`-characters that ends at `b`, scanning backwards.
pub open spec fn run_start_back(t: Seq<char>, k: CharKind, b: int) -> int
    decreases b,
{
    if b <= 0 || b > t.len() {
        b
    } else if !in_kind(k, t[b - 1]) {
        b
    } else {
        run_start_back(t, k, b - 1)
    }
}

pub proof fn lemma_run_start_back_skip(t: Seq<char>, k: CharKind, m: int, b: int)
    requires
        0 <= m <= b <= t.len(),
        forall|j: int| m <= j < b ==> in_kind(k, t[j]),
    ensures
        run_start_back(t, k, b) == run_start_back(t, k, m),
    decreases b - m,
{
    if m < b {
        lemma_run_start_back_skip(t, k, m, b - 1);
    }
}

/// The sender display text with leading and trailing whitespace removed.
pub open spec fn spec_trim(t: Seq<char>) -> Seq<char> {
    let a = run_end_from(t, CharKind::Space, 0);
    let b = run_start_back(t, CharKind::Space, t.len() as int);
    if a <= b {
        t.subrange(a, b)
    } else {
        Seq::empty()
    }
}

pub fn trim_chars(t: &Vec<char>) -> (r: Vec<char>)
    ensures
        r@ == spec_trim(t@),
{
    let a = run_end(t, CharKind::Space, 0);
    let mut b: usize = t.len();
    while b > 0 && space_char(t[b - 1])
        invariant
            b <= t.len(),
            forall|j: int| b <= j < t.len() ==> in_kind(CharKind::Space, t@[j]),
        decreases b,
    {
        b = b - 1;
    }
    proof {
        lemma_run_start_back_skip(t@, CharKind::Space, b as int, t@.len() as int);
    }
    if a <= b {
        sub_chars(t, a, b)
    } else {
        Vec::new()
    }
}

/// The text from position `s` on, with every occurrence of `p` replaced by
/// `r`, scanning left to right without overlap.
pub open spec fn replace_from(t: Seq<char>, p: Seq<char>, r: Seq<char>, s: int) -> Seq<char>
    decreases t.len() - s,
    when 0 <= s <= t.len() && p.len() > 0
    via replace_from_dec
{
    match find_sub_from(t, p, s, false) {
        None => t.subrange(s, t.len() as int),
        Some(i) => t.subrange(s, i) + r + replace_from(t, p, r, i + p.len()),
    }
}

#[via_fn]
proof fn replace_from_dec(t: Seq<char>, p: Seq<char>, r: Seq<char>, s: int) {
    if 0 <= s <= t.len() && p.len() > 0 {
        lemma_find_sub_some(t, p, s, false);
    }
}

/// Every occurrence of `p` in `t` replaced by `r`; the text is unchanged
/// when `p` is empty.
pub open spec fn spec_replace_all(t: Seq<char>, p: Seq<char>, r: Seq<char>) -> Seq<char> {
    if p.len() == 0 {
        t
    } else {
        replace_from(t, p, r, 0)
    }
}

/// Append the character range `[a, b)` of `t` to `out`.
pub fn push_range(out: &mut Vec<char>, t: &Vec<char>, a: usize, b: usize)
    requires
        a <= b <= t.len(),
    ensures
        final(out)@ == old(out)@ + t@.subrange(a as int, b as int),
{
    let mut i: usize = a;
    while i < b
        invariant
            a <= i <= b <= t.len(),
            out@ == old(out)@ + t@.subrange(a as int, i as int),
        decreases b - i,
    {
        out.push(t[i]);
        i = i + 1;
        proof {
            assert(out@ =~= old(out)@ + t@.subrange(a as int, i as int));
        }
    }
}

pub fn replace_all(t: &Vec<char>, p: &Vec<char>, r: &Vec<char>) -> (out: Vec<char>)
    ensures
        out@ == spec_replace_all(t@, p@, r@),
{
    if p.len() == 0 {
        return sub_chars(t, 0, t.len());
    }
    let mut out: Vec<char> = Vec::new();
    let mut cur: usize = 0;
    loop
        invariant
            p.len() > 0,
            cur <= t.len(),
            out@ + replace_from(t@, p@, r@, cur as int) == replace_from(t@, p@, r@, 0),
        decreases t.len() - cur,
    {
        match find_sub(t, p, cur, false) {
            None => {
                push_range(&mut out, t, cur, t.len());
                proof {
                    assert(out@ =~= replace_from(t@, p@, r@, 0));
                }
                return out;
            },
            Some(i) => {
                push_range(&mut out, t, cur, i);
                push_range(&mut out, r, 0, r.len());
                let next = i + p.len();
                proof {
                    lemma_find_sub_some(t@, p@, cur as int, false);
                    assert(r@.subrange(0, r@.len() as int) =~= r@);
                    assert(out@ + replace_from(t@, p@, r@, next as int) =~= replace_from(
                        t@,
                        p@,
                        r@,
                        0,
                    ));
                }
                cur = next;
            },
        }
    }
}

} // verus!
