//! Rate limiting of library log output, shared by the server and the client.
//!
//! Our own code logs through `tracing`; the WebRTC stack (`webrtc`, `rtc`, `ice`, `dtls`,
//! `srtp`, ...) and FFmpeg log through the `log` facade. Library warnings come in bursts that
//! repeat the same line with a different number in it (`srtp ssrc=... index=N: duplicated`,
//! decoder errors for every damaged slice), so the `log` side goes through
//! [`RateLimitedLogger`]: per (target, level) at most [`BURST`] records are forwarded per
//! [`WINDOW`]; the rest are counted and summarised in one line when the window ends.
use vstd::prelude::*;

use crate::text;
use crate::{elapsed_since, Nanos};

verus! {

/// Records allowed per (target, level) within one [`WINDOW`].
pub const BURST: u32 = 8;

/// Length of the rate-limiting window.
pub const WINDOW: Nanos = 5_000_000_000;

/// Severity of a record.
#[derive(Debug, Clone, Copy, PartialEq, Eq, Structural)]
pub enum Level {
    Error,
    Warn,
    Info,
    Debug,
    Trace,
}

impl Level {
    /// The name of the level in lower case.
    pub open spec fn name_text(self) -> Seq<char> {
        match self {
            Level::Error => "error"@,
            Level::Warn => "warn"@,
            Level::Info => "info"@,
            Level::Debug => "debug"@,
            Level::Trace => "trace"@,
        }
    }

    /// The name of the level in lower case.
    pub fn name(self) -> (r: &'static str)
        ensures
            r@ == self.name_text(),
    {
        match self {
            Level::Error => "error",
            Level::Warn => "warn",
            Level::Info => "info",
            Level::Debug => "debug",
            Level::Trace => "trace",
        }
    }
}

/// What is counted for one (target, level).
#[verifier::ext_equal]
pub struct Tally {
    /// When the window started.
    pub start: Nanos,
    pub passed: u32,
    pub suppressed: u64,
    /// The first suppressed message, quoted in the summary line.
    pub example: Seq<char>,
}

/// Seconds in a span of nanoseconds, rounded to the nearest; halves go to the even number.
pub open spec fn whole_seconds(nanos: int) -> int {
    let s = nanos / 1_000_000_000;
    let rest = nanos % 1_000_000_000;
    if rest > 500_000_000 || (rest == 500_000_000 && s % 2 == 1) {
        s + 1
    } else {
        s
    }
}

/// The line that sums up what a window suppressed.
pub open spec fn summary_text(t: Tally, level: Level, target: Seq<char>, now: Nanos) -> Seq<char> {
    text::decimal(t.suppressed as nat) + " more "@ + level.name_text() + " message(s) from "@
        + target + " suppressed in the last "@ + text::decimal(
        whole_seconds(crate::since(now, t.start)) as nat,
    ) + "s, e.g. "@ + text::debug_of(t.example)
}

/// The tally a record meets: a fresh one for the first record of its kind, or one whose window
/// has just ended.
pub open spec fn current(t: Option<Tally>, now: Nanos, window: Nanos) -> Tally {
    match t {
        Some(t) if crate::since(now, t.start) < window => t,
        _ => Tally { start: now, passed: 0, suppressed: 0, example: Seq::empty() },
    }
}

/// The tally after a record.
pub open spec fn counted(
    t: Option<Tally>,
    message: Seq<char>,
    now: Nanos,
    burst: u32,
    window: Nanos,
) -> Tally {
    let c = current(t, now, window);
    if c.passed < burst {
        Tally { passed: (c.passed + 1) as u32, ..c }
    } else {
        Tally {
            suppressed: (c.suppressed + 1) as u64,
            example: if c.suppressed == 0 {
                message
            } else {
                c.example
            },
            ..c
        }
    }
}

/// Whether a record passes.
pub open spec fn passes(t: Option<Tally>, now: Nanos, burst: u32, window: Nanos) -> bool {
    current(t, now, window).passed < burst
}

/// The summary that goes before a record: owed when a window has just ended that suppressed
/// something.
pub open spec fn summary(
    t: Option<Tally>,
    level: Level,
    target: Seq<char>,
    now: Nanos,
    window: Nanos,
) -> Option<Seq<char>> {
    match t {
        Some(t) if crate::since(now, t.start) >= window && t.suppressed > 0 => Some(
            summary_text(t, level, target, now),
        ),
        _ => None,
    }
}

/// Seconds in a span of nanoseconds, rounded to the nearest; halves go to the even number.
pub fn rounded_seconds(nanos: Nanos) -> (r: u64)
    ensures
        r == whole_seconds(nanos as int),
{
    let s: u64 = nanos / 1_000_000_000;
    let rest: u64 = nanos % 1_000_000_000;
    if rest > 500_000_000 || (rest == 500_000_000 && s % 2 == 1) {
        s + 1
    } else {
        s
    }
}

struct Bucket {
    target: String,
    level: Level,
    start: Nanos,
    passed: u32,
    suppressed: u64,
    example: String,
}

impl Bucket {
    spec fn key(self) -> (Seq<char>, Level) {
        (self.target@, self.level)
    }

    spec fn tally(self) -> Tally {
        Tally {
            start: self.start,
            passed: self.passed,
            suppressed: self.suppressed,
            example: self.example@,
        }
    }
}

spec fn tallies(v: Seq<Bucket>) -> Map<(Seq<char>, Level), Tally>
    decreases v.len(),
{
    if v.len() == 0 {
        Map::empty()
    } else {
        tallies(v.drop_last()).insert(v.last().key(), v.last().tally())
    }
}

spec fn distinct(v: Seq<Bucket>) -> bool {
    forall|i: int, j: int|
        0 <= i < j < v.len() ==> (#[trigger] v[i]).key() != (#[trigger] v[j]).key()
}

proof fn lemma_tallies(v: Seq<Bucket>)
    requires
        distinct(v),
    ensures
        forall|i: int|
            0 <= i < v.len() ==> tallies(v).contains_key((#[trigger] v[i]).key()) && tallies(
                v,
            )[v[i].key()] == v[i].tally(),
        forall|k: (Seq<char>, Level)| #[trigger]
            tallies(v).contains_key(k) ==> exists|i: int|
                0 <= i < v.len() && (#[trigger] v[i]).key() == k,
    decreases v.len(),
{
    if v.len() > 0 {
        let w = v.drop_last();
        assert forall|i: int, j: int| 0 <= i < j < w.len() implies (#[trigger] w[i]).key() != (
        #[trigger] w[j]).key() by {
            assert(v[i].key() != v[j].key());
        }
        lemma_tallies(w);
        assert forall|i: int| 0 <= i < v.len() implies tallies(v).contains_key(
            (#[trigger] v[i]).key(),
        ) && tallies(v)[v[i].key()] == v[i].tally() by {
            if i < w.len() {
                assert(w[i] == v[i]);
                assert(v[i].key() != v[v.len() - 1].key());
            }
        }
        assert forall|k: (Seq<char>, Level)| #[trigger] tallies(v).contains_key(k) implies exists|
            i: int,
        |
            0 <= i < v.len() && (#[trigger] v[i]).key() == k by {
            if k == v.last().key() {
                assert(v[v.len() - 1].key() == k);
            } else {
                assert(tallies(w).contains_key(k));
                let i = choose|i: int| 0 <= i < w.len() && (#[trigger] w[i]).key() == k;
                assert(v[i].key() == k);
            }
        }
    }
}

proof fn lemma_tallies_update(v: Seq<Bucket>, i: int, b: Bucket)
    requires
        distinct(v),
        0 <= i < v.len(),
        b.key() == v[i].key(),
    ensures
        distinct(v.update(i, b)),
        tallies(v.update(i, b)) == tallies(v).insert(b.key(), b.tally()),
{
    let w = v.update(i, b);
    assert forall|x: int, y: int| 0 <= x < y < w.len() implies (#[trigger] w[x]).key() != (
    #[trigger] w[y]).key() by {
        assert(v[x].key() != v[y].key());
    }
    lemma_tallies(v);
    lemma_tallies(w);
    let a = tallies(w);
    let c = tallies(v).insert(b.key(), b.tally());
    assert forall|k: (Seq<char>, Level)| a.contains_key(k) <==> c.contains_key(k) by {
        if a.contains_key(k) {
            let x = choose|x: int| 0 <= x < w.len() && (#[trigger] w[x]).key() == k;
            assert(v[x].key() == k);
        }
        if c.contains_key(k) && k != b.key() {
            assert(tallies(v).contains_key(k));
            let x = choose|x: int| 0 <= x < v.len() && (#[trigger] v[x]).key() == k;
            assert(w[x].key() == k);
        }
        assert(w[i].key() == b.key());
    }
    assert forall|k: (Seq<char>, Level)| a.contains_key(k) implies a[k] == c[k] by {
        let x = choose|x: int| 0 <= x < w.len() && (#[trigger] w[x]).key() == k;
        if x == i {
            assert(w[i].key() == b.key());
        } else {
            assert(v[x].key() == k);
            if x < i {
                assert(v[x].key() != v[i].key());
            } else {
                assert(v[i].key() != v[x].key());
            }
        }
    }
    assert(a =~= c);
}

/// What a limiter holds.
#[verifier::ext_equal]
pub struct LimiterState {
    pub verbatim: Seq<Seq<char>>,
    pub tallies: Map<(Seq<char>, Level), Tally>,
    pub burst: u32,
    pub window: Nanos,
}

impl LimiterState {
    /// Whether a target is never limited.
    pub open spec fn is_verbatim(self, target: Seq<char>) -> bool {
        exists|i: int|
            0 <= i < self.verbatim.len() && (#[trigger] self.verbatim[i]).is_prefix_of(target)
    }

    /// The tally for a (target, level).
    pub open spec fn tally(self, level: Level, target: Seq<char>) -> Option<Tally> {
        if self.tallies.contains_key((target, level)) {
            Some(self.tallies[(target, level)])
        } else {
            None
        }
    }

    /// The state after a record.
    pub open spec fn after(
        self,
        level: Level,
        target: Seq<char>,
        message: Seq<char>,
        now: Nanos,
    ) -> LimiterState {
        if self.is_verbatim(target) {
            self
        } else {
            LimiterState {
                tallies: self.tallies.insert(
                    (target, level),
                    counted(self.tally(level, target), message, now, self.burst, self.window),
                ),
                ..self
            }
        }
    }

    /// Whether a record passes.
    pub open spec fn admits(self, level: Level, target: Seq<char>, now: Nanos) -> bool {
        self.is_verbatim(target) || passes(
            self.tally(level, target),
            now,
            self.burst,
            self.window,
        )
    }

    /// The summary that goes before a record.
    pub open spec fn summary(self, level: Level, target: Seq<char>, now: Nanos) -> Option<
        Seq<char>,
    > {
        if self.is_verbatim(target) {
            None
        } else {
            summary(self.tally(level, target), level, target, now, self.window)
        }
    }

    /// A summary line ends with the first suppressed message, in quotes, where that one needs no
    /// escapes.
    pub open spec fn quotes_example(
        self,
        level: Level,
        target: Seq<char>,
        line: Seq<char>,
    ) -> bool {
        self.tally(level, target) matches Some(t) && (text::plain(t.example) ==> text::in_quotes(
            t.example,
        ).is_suffix_of(line))
    }}

/// Limits log records by (target, level) in front of the logger `inner`.
///
/// Targets starting with one of `verbatim` prefixes (our own crates) are never limited.
pub struct RateLimitedLogger<L> {
    inner: L,
    verbatim: Vec<&'static str>,
    buckets: Vec<Bucket>,
    burst: u32,
    window: Nanos,
}

/// The texts of a list of string slices.
pub open spec fn prefixes(v: Seq<&'static str>) -> Seq<Seq<char>> {
    Seq::new(v.len(), |i: int| v[i]@)
}

impl<L> View for RateLimitedLogger<L> {
    type V = LimiterState;

    closed spec fn view(&self) -> LimiterState {
        LimiterState {
            verbatim: prefixes(self.verbatim@),
            tallies: tallies(self.buckets@),
            burst: self.burst,
            window: self.window,
        }
    }
}

impl<L> RateLimitedLogger<L> {
    /// There is one tally per (target, level).
    pub closed spec fn wf(self) -> bool {
        distinct(self.buckets@)
    }

    /// The logger behind the limiter.
    pub closed spec fn spec_inner(self) -> L {
        self.inner
    }

    pub fn new(inner: L, verbatim: Vec<&'static str>) -> (r: Self)
        ensures
            r.wf(),
            r.spec_inner() == inner,
            r@ == (LimiterState {
                verbatim: prefixes(verbatim@),
                tallies: Map::empty(),
                burst: BURST,
                window: WINDOW,
            }),
    {
        Self::with_limits(inner, verbatim, BURST, WINDOW)
    }

    pub fn with_limits(inner: L, verbatim: Vec<&'static str>, burst: u32, window: Nanos) -> (r: Self)
        ensures
            r.wf(),
            r.spec_inner() == inner,
            r@ == (LimiterState {
                verbatim: prefixes(verbatim@),
                tallies: Map::empty(),
                burst,
                window,
            }),
    {
        RateLimitedLogger { inner, verbatim, buckets: Vec::new(), burst, window }
    }

    /// The logger behind the limiter.
    pub fn inner(&self) -> (r: &L)
        ensures
            *r == self.spec_inner(),
    {
        &self.inner
    }

    fn never_limited(&self, target: &str) -> (r: bool)
        ensures
            r == self@.is_verbatim(target@),
    {
        let t = text::chars_of(target);
        let ghost ps = prefixes(self.verbatim@);
        for i in 0..self.verbatim.len()
            invariant
                t@ == target@,
                ps == prefixes(self.verbatim@),
                ps == self@.verbatim,
                forall|j: int| 0 <= j < i ==> !(#[trigger] ps[j]).is_prefix_of(target@),
        {
            assert(ps[i as int] == self.verbatim@[i as int]@);
            if text::starts_with(t.as_slice(), self.verbatim[i]) {
                assert(self@.verbatim[i as int].is_prefix_of(target@));
                return true;
            }
        }
        false
    }

    fn find(&self, level: Level, target: &str) -> (r: Option<usize>)
        requires
            self.wf(),
        ensures
            match r {
                Some(i) => i < self.buckets@.len() && self.buckets@[i as int].key() == (
                    target@,
                    level,
                ),
                None => !self@.tallies.contains_key((target@, level)),
            },
    {
        for i in 0..self.buckets.len()
            invariant
                forall|j: int| 0 <= j < i ==> (#[trigger] self.buckets@[j]).key() != (target@, level),
        {
            if self.buckets[i].level == level && text::same_str(
                self.buckets[i].target.as_str(),
                target,
            ) {
                return Some(i);
            }
        }
        proof {
            lemma_tallies(self.buckets@);
        }
        None
    }

    /// Whether one more record of this kind can be counted.
    pub fn can_count(&self, level: Level, target: &str) -> (r: bool)
        requires
            self.wf(),
        ensures
            r == (self@.tally(level, target@) matches Some(t) ==> t.suppressed < u64::MAX),
    {
        proof {
            lemma_tallies(self.buckets@);
        }
        match self.find(level, target) {
            Some(i) => {
                assert(self@.tally(level, target@) == Some(self.buckets@[i as int].tally()));
                self.buckets[i].suppressed < u64::MAX
            },
            None => true,
        }
    }

    /// Decides whether a record passes and, when a window just ended with suppressed records,
    /// returns the summary that should be emitted before it.
    pub fn admit_record(&mut self, level: Level, target: &str, message: &str, now: Nanos) -> (r: (
        bool,
        Option<String>,
    ))
        requires
            old(self).wf(),
            old(self)@.tally(level, target@) matches Some(t) ==> t.suppressed < u64::MAX,
        ensures
            final(self).wf(),
            final(self)@ == old(self)@.after(level, target@, message@, now),
            final(self).spec_inner() == old(self).spec_inner(),
            r.0 == old(self)@.admits(level, target@, now),
            text::opt_text(r.1) == old(self)@.summary(level, target@, now),
            r.1 matches Some(line) ==> old(self)@.quotes_example(level, target@, line@),
    {
        let ghost start = self@;
        if self.never_limited(target) {
            return (true, None);
        }
        let ghost buckets = self.buckets@;
        proof {
            lemma_tallies(buckets);
        }
        let at = self.find(level, target);
        let mut window_start = now;
        let mut passed: u32 = 0;
        let mut suppressed: u64 = 0;
        let mut example = String::new();
        let mut line: Option<String> = None;
        if let Some(i) = at {
            assert(start.tally(level, target@) == Some(buckets[i as int].tally()));
            let b = &self.buckets[i];
            if elapsed_since(now, b.start) >= self.window {
                if b.suppressed > 0 {
                    let mut out = text::decimal_string(b.suppressed);
                    out.append(" more ");
                    out.append(level.name());
                    out.append(" message(s) from ");
                    out.append(target);
                    out.append(" suppressed in the last ");
                    text::push_decimal(&mut out, rounded_seconds(elapsed_since(now, b.start)));
                    out.append("s, e.g. ");
                    let quoted = text::debug_text(b.example.as_str());
                    out.append(quoted.as_str());
                    assert(out@ =~= summary_text(b.tally(), level, target@, now));
                    assert(text::plain(b.example@) ==> text::in_quotes(b.example@).is_suffix_of(
                        out@,
                    ));
                    line = Some(out);
                }
            } else {
                window_start = b.start;
                passed = b.passed;
                suppressed = b.suppressed;
                example = b.example.clone();
            }
        }
        let ghost met = current(start.tally(level, target@), now, self.window);
        assert(met == (Tally { start: window_start, passed, suppressed, example: example@ })) by {
            assert(example@ =~= met.example);
        }
        let pass = passed < self.burst;
        if pass {
            passed = passed + 1;
        } else {
            if suppressed == 0 {
                example = message.to_owned();
            }
            suppressed = suppressed + 1;
        }
        let b = Bucket {
            target: target.to_owned(),
            level,
            start: window_start,
            passed,
            suppressed,
            example,
        };
        assert(b.tally() == counted(
            start.tally(level, target@),
            message@,
            now,
            self.burst,
            self.window,
        ));
        match at {
            Some(i) => {
                proof {
                    lemma_tallies_update(buckets, i as int, b);
                }
                self.buckets.set(i, b);
            },
            None => {
                assert(buckets.push(b).drop_last() =~= buckets);
                assert(distinct(buckets.push(b))) by {
                    assert forall|x: int, y: int| 0 <= x < y < buckets.push(b).len() implies (
                    #[trigger] buckets.push(b)[x]).key() != (#[trigger] buckets.push(b)[y]).key() by {
                        if y < buckets.len() {
                            assert(buckets[x].key() != buckets[y].key());
                        } else {
                            assert(tallies(buckets).contains_key(buckets[x].key()));
                        }
                    }
                }
                self.buckets.push(b);
            },
        }
        (pass, line)
    }

    /// What is forwarded to the logger behind the limiter for a record that it has `enabled`:
    /// the summary that goes before it, and whether the record itself goes.
    pub fn route(
        &mut self,
        enabled: bool,
        level: Level,
        target: &str,
        message: &str,
        now: Nanos,
    ) -> (r: (Option<String>, bool))
        requires
            old(self).wf(),
            old(self)@.tally(level, target@) matches Some(t) ==> t.suppressed < u64::MAX,
        ensures
            final(self).wf(),
            final(self).spec_inner() == old(self).spec_inner(),
            !enabled ==> final(self)@ == old(self)@ && r.0 is None && !r.1,
            enabled ==> final(self)@ == old(self)@.after(level, target@, message@, now)
                && text::opt_text(r.0) == old(self)@.summary(level, target@, now) && r.1
                == old(self)@.admits(level, target@, now),
            r.0 matches Some(line) ==> old(self)@.quotes_example(level, target@, line@),
    {
        if !enabled {
            return (None, false);
        }
        let (pass, summary) = self.admit_record(level, target, message, now);
        (summary, pass)
    }
}

/// Default `RUST_LOG`-style filter for a verbosity level (`-v` count).
pub fn default_filter(verbose: u8) -> (r: &'static str)
    ensures
        r@ == if verbose == 0 {
            "info,webrtc=warn,rtc=warn,ffmpeg=warn"@
        } else if verbose == 1 {
            "debug,webrtc=info,rtc=info"@
        } else {
            "trace"@
        },
{
    match verbose {
        0 => "info,webrtc=warn,rtc=warn,ffmpeg=warn",
        1 => "debug,webrtc=info,rtc=info",
        _ => "trace",
    }
}

/// The least severe level that the bridge hands on, for a verbosity level (`-v` count).
pub fn max_level(verbose: u8) -> (r: Level)
    ensures
        r == if verbose >= 2 {
            Level::Trace
        } else if verbose == 1 {
            Level::Debug
        } else {
            Level::Info
        },
{
    if verbose >= 2 {
        Level::Trace
    } else if verbose == 1 {
        Level::Debug
    } else {
        Level::Info
    }
}

/// The tally after `n` records of one kind, the first of which found none.
pub open spec fn tally_after(
    times: Seq<Nanos>,
    messages: Seq<Seq<char>>,
    burst: u32,
    window: Nanos,
) -> Option<Tally>
    decreases times.len(),
{
    if times.len() == 0 {
        None
    } else {
        Some(
            counted(
                tally_after(times.drop_last(), messages.drop_last(), burst, window),
                messages.last(),
                times.last(),
                burst,
                window,
            ),
        )
    }
}

/// Of `n` records of one kind within one window, the first `burst` pass; the others are
/// counted, and the first of them is the example.
pub proof fn burst_passes_and_the_rest_is_counted(
    times: Seq<Nanos>,
    messages: Seq<Seq<char>>,
    burst: u32,
    window: Nanos,
)
    requires
        0 < times.len() <= u64::MAX,
        messages.len() == times.len(),
        window > 0,
        forall|i: int| 0 <= i < times.len() ==> crate::since(#[trigger] times[i], times[0]) < window,
    ensures
        tally_after(times, messages, burst, window) matches Some(t) && {
            &&& t.start == times[0]
            &&& times.len() <= burst ==> t.passed == times.len() && t.suppressed == 0
            &&& times.len() > burst ==> t.passed == burst && t.suppressed == times.len() - burst
                && t.example == messages[burst as int]
        },
        passes(
            tally_after(times.drop_last(), messages.drop_last(), burst, window),
            times.last(),
            burst,
            window,
        ) <==> times.len() <= burst,
    decreases times.len(),
{
    let (a, b) = (times.drop_last(), messages.drop_last());
    if a.len() > 0 {
        assert forall|i: int| 0 <= i < a.len() implies crate::since(#[trigger] a[i], a[0])
            < window by {
            assert(crate::since(times[i], times[0]) < window);
        }
        burst_passes_and_the_rest_is_counted(a, b, burst, window);
        assert(crate::since(times[times.len() - 1], times[0]) < window);
    } else {
        assert(a =~= Seq::empty());
        assert(tally_after(a, b, burst, window) is None);
    }
}

/// What a record of one kind does leaves the tallies of every other kind alone.
pub proof fn kinds_are_limited_apart(
    s: LimiterState,
    level: Level,
    target: Seq<char>,
    message: Seq<char>,
    now: Nanos,
    other_level: Level,
    other_target: Seq<char>,
)
    requires
        (target, level) != (other_target, other_level),
    ensures
        s.after(level, target, message, now).tally(other_level, other_target) == s.tally(
            other_level,
            other_target,
        ),
{
}

/// Records with a verbatim target always pass, without a summary, and are not counted.
pub proof fn verbatim_targets_are_never_limited(
    s: LimiterState,
    level: Level,
    target: Seq<char>,
    message: Seq<char>,
    now: Nanos,
)
    requires
        s.is_verbatim(target),
    ensures
        s.admits(level, target, now),
        s.summary(level, target, now) is None,
        s.after(level, target, message, now) == s,
{
}

/// Seconds are rounded to the nearest; halves go to the even number.
pub proof fn seconds_are_rounded_to_the_nearest(nanos: Nanos, r: u64)
    requires
        call_ensures(rounded_seconds, (nanos,), r),
    ensures
        -500_000_000 <= r * 1_000_000_000 - nanos <= 500_000_000,
        r * 1_000_000_000 - nanos == 500_000_000 || r * 1_000_000_000 - nanos == -500_000_000 ==> r
            % 2 == 0,
{
}

/// Levels go by their names.
pub proof fn levels_go_by_their_names(level: Level, r: &'static str)
    requires
        call_ensures(Level::name, (level,), r),
    ensures
        level is Error ==> r@ == "error"@,
        level is Warn ==> r@ == "warn"@,
        level is Info ==> r@ == "info"@,
        level is Debug ==> r@ == "debug"@,
        level is Trace ==> r@ == "trace"@,
{
}

/// Once a window has ended, the next record of its kind starts a new one and passes, and what was
/// suppressed is summed up if there was anything. Before that nothing is summed up.
pub proof fn ended_window_is_summed_up(
    t: Tally,
    level: Level,
    target: Seq<char>,
    message: Seq<char>,
    now: Nanos,
    burst: u32,
    window: Nanos,
)
    requires
        burst > 0,
        t.start <= now,
    ensures
        now - t.start >= window ==> {
            let c = counted(Some(t), message, now, burst, window);
            &&& passes(Some(t), now, burst, window)
            &&& c.start == now && c.passed == 1 && c.suppressed == 0
            &&& summary(Some(t), level, target, now, window) is Some <==> t.suppressed > 0
        },
        now - t.start < window ==> {
            let c = counted(Some(t), message, now, burst, window);
            &&& passes(Some(t), now, burst, window) <==> t.passed < burst
            &&& c.start == t.start
            &&& summary(Some(t), level, target, now, window) is None
        },
        summary(None, level, target, now, window) is None,
        passes(None, now, burst, window),
{
}

/// A summary says how many records of which kind were suppressed, for how long, and quotes one.
pub proof fn summary_says_what_was_suppressed(
    t: Tally,
    level: Level,
    target: Seq<char>,
    now: Nanos,
    seconds: u64,
)
    requires
        t.start <= now,
        call_ensures(rounded_seconds, ((now - t.start) as u64,), seconds),
    ensures
        summary_text(t, level, target, now) == text::decimal(t.suppressed as nat) + " more "@
            + level.name_text() + " message(s) from "@ + target + " suppressed in the last "@
            + text::decimal(seconds as nat) + "s, e.g. "@ + text::debug_of(t.example),
{
}

/// A target is never limited if one of the listed prefixes begins it.
pub proof fn listed_prefixes_are_never_limited(s: LimiterState, target: Seq<char>, i: int)
    ensures
        0 <= i < s.verbatim.len() && target.len() >= s.verbatim[i].len() && target.take(
            s.verbatim[i].len() as int,
        ) == s.verbatim[i] ==> s.is_verbatim(target),
        s.verbatim.len() == 0 ==> !s.is_verbatim(target),
{
    if 0 <= i < s.verbatim.len() && target.len() >= s.verbatim[i].len() && target.take(
        s.verbatim[i].len() as int,
    ) == s.verbatim[i] {
        assert(target.subrange(0, s.verbatim[i].len() as int) =~= s.verbatim[i]);
        assert(s.verbatim[i].is_prefix_of(target));
    }
}

} // verus!
