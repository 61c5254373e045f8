//! The inbox monitor: options, the polling schedule, and the per-cycle
//! message scan.
//!
//! The monitor owns the deadline clock and the decisions of the polling
//! loop; the caller performs the mailbox I/O of each cycle and hands the
//! fetched raw messages to the scan. A cycle examines candidates
//! newest-first and the first message that yields a code ends the session.

use vstd::prelude::*;
use vstd::multiset::Multiset;
use vstd::seq_lib::lemma_multiset_commutative;
use crate::config::Config;
use crate::decode::{MessageParts, decode, extract_code_from_message, parsed_message,
    rendered_html, spec_message_code, spec_subject, spec_sender};
use crate::extract::spec_extract;
use crate::pattern::{CodeType, CompiledPattern, PatternError, build_pattern};
use crate::text::{chars_of, string_of_chars};

verus! {

/// Options of one polling session.
#[derive(Clone, Debug)]
pub struct MonitorOptions {
    /// Exact code length, if one is requested.
    pub code_length: Option<usize>,
    /// The shape of the code.
    pub code_type: CodeType,
    /// Sender filter applied to the unread-message search.
    pub from_filter: Option<String>,
    /// Overall deadline, in seconds.
    pub timeout: u64,
    /// Sleep between poll cycles, in seconds.
    pub poll_interval: u64,
}

impl Default for MonitorOptions {
    /// Numeric codes of any default length, no sender filter, a five minute
    /// deadline and a ten second poll interval.
    fn default() -> (r: Self)
        ensures
            r.code_length is None,
            r.code_type == CodeType::Numeric,
            r.from_filter is None,
            r.timeout == 300u64,
            r.poll_interval == 10u64,
    {
        MonitorOptions {
            code_length: None,
            code_type: CodeType::Numeric,
            from_filter: None,
            timeout: 300,
            poll_interval: 10,
        }
    }
}

/// A found code, with the subject and sender of the message it came from.
#[derive(Clone, Debug)]
pub struct CodeResult {
    pub code: String,
    pub subject: String,
    pub from: String,
}

/// The two failures a session can end with.
#[derive(Clone, Copy, Debug, PartialEq, Eq, Structural)]
pub enum MonitorError {
    /// The requested pattern cannot be built: a setup error, surfaced
    /// before any polling begins.
    InvalidPattern,
    /// The deadline elapsed with no code found.
    Timeout,
}

impl MonitorError {
    /// A display text for the failure.
    pub fn message(&self) -> (r: String)
        ensures
            *self == MonitorError::InvalidPattern ==> r@
                == "cannot construct the extraction pattern"@,
            *self == MonitorError::Timeout ==> r@
                == "timeout: no email containing a verification code was found"@,
    {
        match self {
            MonitorError::InvalidPattern => {
                let v = chars_of("cannot construct the extraction pattern");
                string_of_chars(&v)
            },
            MonitorError::Timeout => {
                let v = chars_of("timeout: no email containing a verification code was found");
                string_of_chars(&v)
            },
        }
    }
}

/// The inbox monitor of one session.
pub struct MailMonitor<'a> {
    pub config: &'a Config,
    pub options: MonitorOptions,
}

/// The search criterion of a poll cycle: unread messages, scoped to the
/// sender filter when one is set.
pub open spec fn spec_search_criteria(f: Option<String>) -> Seq<char> {
    match f {
        None => "UNSEEN"@,
        Some(s) => "UNSEEN FROM \""@ + s@ + "\""@,
    }
}

impl<'a> MailMonitor<'a> {
    /// A monitor over the given configuration and options.
    pub fn new(config: &'a Config, options: MonitorOptions) -> (r: Self)
        ensures
            r.options == options,
            r.config == config,
    {
        MailMonitor { config, options }
    }

    /// The active pattern of the session. Failure here is the one fatal
    /// setup error: it aborts before any polling.
    pub fn compile_pattern(&self) -> (r: Result<CompiledPattern, MonitorError>)
        ensures
            r is Err <==> self.options.code_length == Some(0usize),
            r matches Err(e) ==> e == MonitorError::InvalidPattern,
            r matches Ok(p) ==> p.code_type == self.options.code_type && p.wf() && match self
                .options
                .code_length {
                Some(n) => p.min_len == n && p.max_len == n,
                None => p.min_len == 4 && p.max_len == 8,
            },
    {
        match build_pattern(self.options.code_type, self.options.code_length) {
            Ok(p) => Ok(p),
            Err(PatternError::ZeroLength) => Err(MonitorError::InvalidPattern),
        }
    }

    /// Whether a message's headers pass the sender filter: with no filter
    /// every message passes; with one, some From header must contain the
    /// filter text, compared case-insensitively.
    pub fn is_matching_filter(&self, hs: &Vec<crate::decode::HeaderField>) -> (r: bool)
        ensures
            r == match self.options.from_filter {
                None => true,
                Some(f) => crate::decode::from_matches(hs@, f@),
            },
    {
        match &self.options.from_filter {
            None => true,
            Some(f) => {
                let fc = chars_of(f.as_str());
                crate::decode::from_header_contains(hs, &fc)
            },
        }
    }

    /// The search criterion sent to the mailbox on each cycle.
    pub fn search_criteria(&self) -> (r: String)
        ensures
            r@ == spec_search_criteria(self.options.from_filter),
    {
        match &self.options.from_filter {
            None => {
                let v = chars_of("UNSEEN");
                string_of_chars(&v)
            },
            Some(f) => {
                let mut out = {
                    let v = chars_of("UNSEEN FROM \"");
                    string_of_chars(&v)
                };
                out.append(f.as_str());
                out.append("\"");
                out
            },
        }
    }
}

/// Descending order: newest-first over message sequence numbers.
pub open spec fn sorted_desc(s: Seq<u32>) -> bool {
    forall|i: int, j: int| 0 <= i < j < s.len() ==> s[i] >= s[j]
}

/// Inserting an element anywhere in a sequence adds it to the multiset.
proof fn lemma_insert_multiset(s: Seq<u32>, at: int, v: u32)
    requires
        0 <= at <= s.len(),
    ensures
        (s.subrange(0, at) + seq![v] + s.subrange(at, s.len() as int)).to_multiset()
            =~= s.to_multiset().insert(v),
{
    broadcast use vstd::seq_lib::group_to_multiset_ensures;

    let pre = s.subrange(0, at);
    let suf = s.subrange(at, s.len() as int);
    lemma_multiset_commutative(pre + seq![v], suf);
    lemma_multiset_commutative(pre, seq![v]);
    lemma_multiset_commutative(pre, suf);
    assert(s =~= pre + suf);
    assert(seq![v] =~= Seq::<u32>::empty().push(v));
    assert(Seq::<u32>::empty().push(v).to_multiset() =~= Seq::<u32>::empty()
        .to_multiset()
        .insert(v));
    assert(Seq::<u32>::empty().to_multiset() =~= Multiset::<u32>::empty());
}

/// Sort message sequence numbers descending, so that the most recent
/// message is examined first.
pub fn order_newest_first(ids: &Vec<u32>) -> (r: Vec<u32>)
    ensures
        sorted_desc(r@),
        r@.to_multiset() == ids@.to_multiset(),
        r@.len() == ids@.len(),
{
    broadcast use vstd::seq_lib::group_to_multiset_ensures;

    let mut out: Vec<u32> = Vec::new();
    let mut i: usize = 0;
    proof {
        assert(ids@.subrange(0, 0) =~= Seq::<u32>::empty());
        assert(Seq::<u32>::empty().to_multiset() =~= Multiset::<u32>::empty());
    }
    while i < ids.len()
        invariant
            i <= ids.len(),
            sorted_desc(out@),
            out@.len() == i,
            out@.to_multiset() == ids@.subrange(0, i as int).to_multiset(),
        decreases ids.len() - i,
    {
        let v = ids[i];
        let mut p: usize = 0;
        while p < out.len() && out[p] >= v
            invariant
                p <= out.len(),
                forall|j: int| 0 <= j < p ==> out@[j] >= v,
            decreases out.len() - p,
        {
            p = p + 1;
        }
        let ghost old_out = out@;
        out.insert(p, v);
        proof {
            lemma_insert_multiset(old_out, p as int, v);
            assert(out@ =~= old_out.subrange(0, p as int) + seq![v] + old_out.subrange(
                p as int,
                old_out.len() as int,
            ));
            assert(ids@.subrange(0, i + 1) =~= ids@.subrange(0, i as int).push(ids@[i as int]));
            vstd::seq_lib::to_multiset_build::<u32>(ids@.subrange(0, i as int), ids@[i as int]);
            assert forall|a: int, b: int| 0 <= a < b < out@.len() implies out@[a] >= out@[b] by {
                if b < p {
                } else if a < p && b == p {
                } else if a < p && b > p {
                } else if a == p {
                    assert(out@[b] == old_out[b - 1]);
                    if p < old_out.len() {
                        assert(old_out[p as int] < v);
                    }
                } else {
                }
            }
        }
        i = i + 1;
    }
    proof {
        assert(ids@.subrange(0, ids@.len() as int) =~= ids@);
    }
    out
}

/// What extraction yields from the HTML body of parsed parts.
pub open spec fn spec_parts_html_code(p: MessageParts, pat: CompiledPattern) -> Option<Seq<char>> {
    match p.html_body {
        Some(h) => spec_extract(rendered_html(h@), pat),
        None => None,
    }
}

/// What extraction yields from parsed parts: the text body first, the
/// rendered HTML body as fallback.
pub open spec fn spec_parts_code(p: MessageParts, pat: CompiledPattern) -> Option<Seq<char>> {
    match p.text_body {
        Some(s) => if spec_extract(s@, pat) is Some {
            spec_extract(s@, pat)
        } else {
            spec_parts_html_code(p, pat)
        },
        None => spec_parts_html_code(p, pat),
    }
}

/// The code one raw message yields under the session pattern, if any.
pub open spec fn spec_raw_code(raw: Seq<u8>, pat: CompiledPattern) -> Option<Seq<char>> {
    match parsed_message(raw) {
        Some(p) => spec_parts_code(p, pat),
        None => None,
    }
}

/// The decoded subject of a raw message, with its sentinel.
pub open spec fn spec_raw_subject(raw: Seq<u8>) -> Seq<char> {
    match parsed_message(raw) {
        Some(p) => spec_subject(p.headers@),
        None => "[no subject]"@,
    }
}

/// The decoded sender of a raw message, with its sentinel.
pub open spec fn spec_raw_sender(raw: Seq<u8>) -> Seq<char> {
    match parsed_message(raw) {
        Some(p) => spec_sender(p.headers@),
        None => "[unknown sender]"@,
    }
}

/// The index of the first message, from `i` on, that yields a code.
pub open spec fn scan_from(raws: Seq<Vec<u8>>, pat: CompiledPattern, i: int) -> Option<int>
    decreases raws.len() - i,
{
    if i < 0 || i >= raws.len() {
        None
    } else if spec_raw_code(raws[i]@, pat) is Some {
        Some(i)
    } else {
        scan_from(raws, pat, i + 1)
    }
}

pub proof fn lemma_scan_skip(raws: Seq<Vec<u8>>, pat: CompiledPattern, s: int, m: int)
    requires
        0 <= s <= m,
        forall|j: int| s <= j < m ==> spec_raw_code(raws[j]@, pat) is None,
    ensures
        scan_from(raws, pat, s) == scan_from(raws, pat, m),
    decreases m - s,
{
    if s < m {
        if s >= raws.len() {
        } else {
            lemma_scan_skip(raws, pat, s + 1, m);
        }
    }
}

/// The scan settles on the first message that yields a code: everything
/// before it yields none.
pub proof fn lemma_scan_first(raws: Seq<Vec<u8>>, pat: CompiledPattern, s: int)
    requires
        0 <= s,
    ensures
        match scan_from(raws, pat, s) {
            Some(i) => s <= i < raws.len() && spec_raw_code(raws[i]@, pat) is Some && forall|
                j: int,
            | s <= j < i ==> spec_raw_code(raws[j]@, pat) is None,
            None => forall|j: int| s <= j < raws.len() ==> spec_raw_code(raws[j]@, pat) is None,
        },
    decreases raws.len() - s,
{
    if s < raws.len() && spec_raw_code(raws[s]@, pat) is None {
        lemma_scan_first(raws, pat, s + 1);
    }
}

/// The first successful match wins, not the first examined: with two
/// candidates in newest-first order where the newer yields nothing and the
/// older yields a code, the scan settles on the older one.
pub proof fn lemma_first_success_wins(raws: Seq<Vec<u8>>, pat: CompiledPattern)
    requires
        raws.len() == 2,
        spec_raw_code(raws[0]@, pat) is None,
        spec_raw_code(raws[1]@, pat) is Some,
    ensures
        scan_from(raws, pat, 0) == Some(1int),
{
    assert(scan_from(raws, pat, 1) == Some(1int));
    assert(scan_from(raws, pat, 0) == scan_from(raws, pat, 1));
}

impl<'a> MailMonitor<'a> {
    /// One poll cycle's examination of the fetched messages, in the order
    /// given: the first message that yields a code ends the cycle with a
    /// result carrying that code and the message's subject and sender.
    pub fn scan_messages(&self, raws: &Vec<Vec<u8>>, pat: &CompiledPattern) -> (r: Option<
        CodeResult,
    >)
        requires
            pat.wf(),
        ensures
            match scan_from(raws@, *pat, 0) {
                None => r is None,
                Some(i) => r matches Some(cr) && spec_raw_code(raws@[i]@, *pat) == Some(cr.code@)
                    && cr.subject@ == spec_raw_subject(raws@[i]@) && cr.from@ == spec_raw_sender(
                    raws@[i]@,
                ),
            },
    {
        let mut i: usize = 0;
        while i < raws.len()
            invariant
                pat.wf(),
                i <= raws.len(),
                forall|j: int| 0 <= j < i ==> spec_raw_code(raws@[j]@, *pat) is None,
            decreases raws.len() - i,
        {
            let m = decode(&raws[i]);
            let code = extract_code_from_message(&m, pat);
            proof {
                let raw = raws@[i as int]@;
                if parsed_message(raw) is Some {
                    let p = parsed_message(raw)->Some_0;
                    assert(spec_message_code(m, *pat) == spec_parts_code(p, *pat));
                } else {
                    assert(spec_message_code(m, *pat) is None);
                }
            }
            match code {
                Some(c) => {
                    proof {
                        lemma_scan_skip(raws@, *pat, 0, i as int);
                    }
                    return Some(CodeResult { code: c, subject: m.subject, from: m.sender });
                },
                None => {},
            }
            i = i + 1;
        }
        proof {
            lemma_scan_skip(raws@, *pat, 0, i as int);
        }
        None
    }
}

/// Addition on the elapsed clock, saturating at the largest representable
/// value.
pub open spec fn sat_add64(a: u64, b: u64) -> u64 {
    if a + b <= u64::MAX {
        (a + b) as u64
    } else {
        u64::MAX
    }
}

/// The deadline clock of a polling session. The caller records each sleep;
/// the clock says whether another cycle may start. The check happens only
/// at the top of a cycle: a cycle in progress is allowed to finish after
/// the deadline.
pub struct PollClock {
    pub timeout: u64,
    pub poll_interval: u64,
    pub elapsed: u64,
}

impl PollClock {
    /// A fresh clock for one session.
    pub fn start(options: &MonitorOptions) -> (r: Self)
        ensures
            r.timeout == options.timeout,
            r.poll_interval == options.poll_interval,
            r.elapsed == 0u64,
    {
        PollClock { timeout: options.timeout, poll_interval: options.poll_interval, elapsed: 0 }
    }

    /// Whether another poll cycle may start: the deadline has not elapsed.
    pub fn should_attempt(&self) -> (r: bool)
        ensures
            r == (self.elapsed < self.timeout),
    {
        self.elapsed < self.timeout
    }

    /// Record the sleep between two cycles.
    pub fn record_sleep(&mut self)
        ensures
            final(self).elapsed == sat_add64(old(self).elapsed, old(self).poll_interval),
            final(self).timeout == old(self).timeout,
            final(self).poll_interval == old(self).poll_interval,
    {
        if self.elapsed <= u64::MAX - self.poll_interval {
            self.elapsed = self.elapsed + self.poll_interval;
        } else {
            self.elapsed = u64::MAX;
        }
    }

    /// Record the wall-clock seconds since the session started, as the
    /// caller measures them. The clock never runs backwards, so a cycle
    /// that outlasts its sleep still counts in full.
    pub fn record_elapsed(&mut self, seconds: u64)
        ensures
            final(self).elapsed == if seconds > old(self).elapsed {
                seconds
            } else {
                old(self).elapsed
            },
            final(self).timeout == old(self).timeout,
            final(self).poll_interval == old(self).poll_interval,
    {
        if seconds > self.elapsed {
            self.elapsed = seconds;
        }
    }
}

/// The elapsed value a fresh clock records after `n` sleeps.
pub open spec fn elapsed_after(n: nat, poll: u64) -> u64
    decreases n,
{
    if n == 0 {
        0u64
    } else {
        sat_add64(elapsed_after((n - 1) as nat, poll), poll)
    }
}

/// The recorded elapsed time after `n` sleeps is at least `n` intervals,
/// up to saturation.
pub proof fn lemma_elapsed_lower(n: nat, poll: u64)
    ensures
        elapsed_after(n, poll) as int >= n * poll || elapsed_after(n, poll) == u64::MAX,
    decreases n,
{
    if n > 0 {
        let m = (n - 1) as nat;
        lemma_elapsed_lower(m, poll);
        let e = elapsed_after(m, poll);
        assert(elapsed_after(n, poll) == sat_add64(e, poll));
        assert((m as int) * (poll as int) + (poll as int) == (n as int) * (poll as int))
            by (nonlinear_arith)
            requires
                m == n - 1,
                n >= 1,
        ;
        if e == u64::MAX {
            assert(elapsed_after(n, poll) == u64::MAX);
        } else {
            assert(e as int >= m * poll);
            if e as int + poll as int <= u64::MAX as int {
                assert(elapsed_after(n, poll) as int == e as int + poll as int);
                assert(elapsed_after(n, poll) as int >= n * poll);
            } else {
                assert(elapsed_after(n, poll) == u64::MAX);
            }
        }
    } else {
        assert(elapsed_after(n, poll) == 0u64);
        assert(n * poll == 0);
    }
}

/// The polling loop terminates: with a positive poll interval, after enough
/// sleeps the recorded elapsed time reaches any deadline, and the clock
/// refuses further attempts.
pub proof fn lemma_polling_terminates(timeout: u64, poll: u64, n: nat)
    requires
        poll >= 1,
        n * poll >= timeout,
    ensures
        elapsed_after(n, poll) >= timeout,
{
    lemma_elapsed_lower(n, poll);
}

} // verus!

