//! The pattern library: the shape of a code requested for a session.
//!
//! A compiled pattern matches a run of characters of one class (digits,
//! letters and digits, or any non-whitespace) whose length is either exactly
//! the requested one or in the default range 4 to 8, delimited by word
//! boundaries on both sides. Matching is leftmost: earlier start positions
//! win, and at one position the longest admissible length wins.

use vstd::prelude::*;
use crate::text::{CharKind, in_kind, is_word_char, run_end, word_char, lemma_run_end};

verus! {

/// The requested shape of a verification code.
#[derive(Clone, Copy, Debug, PartialEq, Eq, Structural)]
pub enum CodeType {
    /// Digits only.
    Numeric,
    /// ASCII letters and digits.
    Alphanumeric,
    /// Any run of non-whitespace characters.
    Any,
}

/// The character class a code of this type consists of.
pub open spec fn kind_of(ct: CodeType) -> CharKind {
    match ct {
        CodeType::Numeric => CharKind::Digit,
        CodeType::Alphanumeric => CharKind::Alnum,
        CodeType::Any => CharKind::NonSpace,
    }
}

/// A compiled pattern: character class and admissible length range.
#[derive(Clone, Copy, Debug)]
pub struct CompiledPattern {
    pub code_type: CodeType,
    pub min_len: usize,
    pub max_len: usize,
}

impl CompiledPattern {
    /// Well-formedness: what `build_pattern` establishes.
    pub open spec fn wf(self) -> bool {
        1 <= self.min_len <= self.max_len
    }
}

/// The one rejected request: a zero code length, which would describe an
/// empty code.
#[derive(Clone, Copy, Debug, PartialEq, Eq, Structural)]
pub enum PatternError {
    ZeroLength,
}

/// Build the active pattern for a session from the requested code type and
/// optional exact length. An exact length must be positive; without one the
/// default range of 4 to 8 characters applies.
pub fn build_pattern(code_type: CodeType, length: Option<usize>) -> (r: Result<
    CompiledPattern,
    PatternError,
>)
    ensures
        r is Err <==> length == Some(0usize),
        r matches Ok(p) ==> p.code_type == code_type && p.wf() && match length {
            Some(n) => p.min_len == n && p.max_len == n,
            None => p.min_len == 4 && p.max_len == 8,
        },
{
    match length {
        Some(n) => {
            if n == 0 {
                Err(PatternError::ZeroLength)
            } else {
                Ok(CompiledPattern { code_type, min_len: n, max_len: n })
            }
        },
        None => Ok(CompiledPattern { code_type, min_len: 4, max_len: 8 }),
    }
}

/// Position `i` of `t` holds a word character.
pub open spec fn word_at(t: Seq<char>, i: int) -> bool {
    0 <= i < t.len() && is_word_char(t[i])
}

/// A word boundary sits before position `i`: exactly one of the neighbouring
/// positions holds a word character, positions outside the text counting as
/// non-word.
pub open spec fn boundary(t: Seq<char>, i: int) -> bool {
    word_at(t, i - 1) != word_at(t, i)
}

/// The pattern matches the range `[s, s+n)` of `t`: word boundaries at both
/// ends and every character in the pattern's class.
pub open spec fn match_at(t: Seq<char>, p: CompiledPattern, s: int, n: int) -> bool {
    &&& 0 <= s
    &&& 0 <= n
    &&& s + n <= t.len()
    &&& boundary(t, s)
    &&& boundary(t, s + n)
    &&& forall|i: int| s <= i < s + n ==> in_kind(kind_of(p.code_type), t[i])
}

/// The longest admissible match length at start position `s`, trying `n`
/// downwards to the pattern's minimum: the greedy choice of the matcher.
pub open spec fn match_len_at(t: Seq<char>, p: CompiledPattern, s: int, n: int) -> Option<int>
    decreases n,
    when p.min_len >= 1
{
    if n < p.min_len {
        None
    } else if match_at(t, p, s, n) {
        Some(n)
    } else {
        match_len_at(t, p, s, n - 1)
    }
}

/// The leftmost match of the pattern at or after position `s`, as a
/// half-open character range.
pub open spec fn pattern_scan(t: Seq<char>, p: CompiledPattern, s: int) -> Option<(int, int)>
    decreases t.len() - s,
{
    if s < 0 || s >= t.len() {
        None
    } else {
        match match_len_at(t, p, s, p.max_len as int) {
            Some(n) => Some((s, s + n)),
            None => pattern_scan(t, p, s + 1),
        }
    }
}

/// The first match of the pattern in the whole text.
pub open spec fn pattern_first(t: Seq<char>, p: CompiledPattern) -> Option<(int, int)> {
    pattern_scan(t, p, 0)
}

pub proof fn lemma_pattern_scan_skip(t: Seq<char>, p: CompiledPattern, s: int, m: int)
    requires
        0 <= s <= m,
        forall|j: int| s <= j < m ==> match_len_at(t, p, j, p.max_len as int) is None,
    ensures
        pattern_scan(t, p, s) == pattern_scan(t, p, m),
    decreases m - s,
{
    if s < m {
        if s >= t.len() {
            assert(pattern_scan(t, p, s) == pattern_scan(t, p, m));
        } else {
            lemma_pattern_scan_skip(t, p, s + 1, m);
        }
    }
}

/// Whether a word boundary sits before position `i`.
pub fn boundary_at(t: &Vec<char>, i: usize) -> (r: bool)
    requires
        i <= t.len(),
    ensures
        r == boundary(t@, i as int),
{
    let before = i > 0 && word_char(t[i - 1]);
    let here = i < t.len() && word_char(t[i]);
    before != here
}

/// Whether the pattern matches exactly the range `[s, s+n)`.
pub fn pattern_match_at(t: &Vec<char>, p: &CompiledPattern, s: usize, n: usize) -> (r: bool)
    requires
        s <= t.len(),
    ensures
        r == match_at(t@, *p, s as int, n as int),
{
    if n > t.len() - s {
        return false;
    }
    if !boundary_at(t, s) {
        return false;
    }
    if !boundary_at(t, s + n) {
        return false;
    }
    let e = run_end(t, kind_of_exec(p.code_type), s);
    proof {
        lemma_run_end(t@, kind_of(p.code_type), s as int);
    }
    s + n <= e
}

/// The character class of a code type.
pub fn kind_of_exec(ct: CodeType) -> (k: CharKind)
    ensures
        k == kind_of(ct),
{
    match ct {
        CodeType::Numeric => CharKind::Digit,
        CodeType::Alphanumeric => CharKind::Alnum,
        CodeType::Any => CharKind::NonSpace,
    }
}

/// The greedy match length at start position `s`, if any.
pub fn pattern_len_at(t: &Vec<char>, p: &CompiledPattern, s: usize) -> (r: Option<usize>)
    requires
        p.wf(),
        s <= t.len(),
    ensures
        match r {
            Some(n) => match_len_at(t@, *p, s as int, p.max_len as int) == Some(n as int),
            None => match_len_at(t@, *p, s as int, p.max_len as int) is None,
        },
{
    let mut n: usize = p.max_len;
    loop
        invariant
            p.wf(),
            s <= t.len(),
            p.min_len <= n + 1,
            n <= p.max_len,
            match_len_at(t@, *p, s as int, p.max_len as int) == match_len_at(
                t@,
                *p,
                s as int,
                n as int,
            ),
        decreases n,
    {
        if n < p.min_len {
            return None;
        }
        if pattern_match_at(t, p, s, n) {
            return Some(n);
        }
        n = n - 1;
    }
}

impl CompiledPattern {
    /// The leftmost, longest-at-its-position match of this pattern in `t`.
    pub fn find_first(&self, t: &Vec<char>) -> (r: Option<(usize, usize)>)
        requires
            self.wf(),
        ensures
            match r {
                Some((a, b)) => pattern_first(t@, *self) == Some((a as int, b as int)) && a <= b
                    <= t.len(),
                None => pattern_first(t@, *self) is None,
            },
    {
        let mut s: usize = 0;
        while s < t.len()
            invariant
                self.wf(),
                s <= t.len(),
                forall|j: int|
                    0 <= j < s ==> match_len_at(t@, *self, j, self.max_len as int) is None,
            decreases t.len() - s,
        {
            match pattern_len_at(t, self, s) {
                Some(n) => {
                    proof {
                        lemma_pattern_scan_skip(t@, *self, 0, s as int);
                        lemma_match_len_bounds(t@, *self, s as int, self.max_len as int);
                    }
                    return Some((s, s + n));
                },
                None => {
                    s = s + 1;
                },
            }
        }
        proof {
            lemma_pattern_scan_skip(t@, *self, 0, s as int);
        }
        None
    }
}

/// Word-boundary correctness: a numeric or alphanumeric match is never
/// flanked by word characters, so a run embedded in a longer run of its
/// own kind never matches.
pub proof fn lemma_word_boundary_correct(t: Seq<char>, p: CompiledPattern, s: int, n: int)
    requires
        match_at(t, p, s, n),
        n >= 1,
        p.code_type == CodeType::Numeric || p.code_type == CodeType::Alphanumeric,
    ensures
        !word_at(t, s - 1),
        !word_at(t, s + n),
{
    assert(in_kind(kind_of(p.code_type), t[s]));
    assert(word_at(t, s));
    assert(in_kind(kind_of(p.code_type), t[s + n - 1]));
    assert(word_at(t, s + n - 1));
}

/// A successful greedy length is admissible and fits in the text.
pub proof fn lemma_match_len_bounds(t: Seq<char>, p: CompiledPattern, s: int, n: int)
    requires
        p.min_len >= 1,
    ensures
        match match_len_at(t, p, s, n) {
            Some(m) => p.min_len <= m <= n && match_at(t, p, s, m) && s + m <= t.len(),
            None => true,
        },
    decreases n,
{
    if n >= p.min_len && !match_at(t, p, s, n) {
        lemma_match_len_bounds(t, p, s, n - 1);
    }
}

} // verus!
