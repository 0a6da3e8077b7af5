//! Support for end-to-end tests: what the libraries complained about, and what is in an access
//! unit.
use vstd::prelude::*;

use crate::proto::logging::Level;
use crate::server::encoder::{nal_type, nal_units};
use crate::text;

verus! {

/// Captures log records (the WebRTC stack logs through a facade) so a test can look at what the
/// libraries complained about.
pub struct LogCapture {
    records: Vec<CapturedRecord>,
    echo: bool,
}

#[derive(Debug, Clone, PartialEq, Eq)]
pub struct CapturedRecord {
    pub level: Level,
    pub target: String,
    pub message: String,
}

/// What a record says.
#[verifier::ext_equal]
pub struct Captured {
    pub level: Level,
    pub target: Seq<char>,
    pub message: Seq<char>,
}

impl CapturedRecord {
    pub open spec fn view(&self) -> Captured {
        Captured { level: self.level, target: self.target@, message: self.message@ }
    }

    fn copied(&self) -> (r: CapturedRecord)
        ensures
            r@ == self@,
    {
        CapturedRecord {
            level: self.level,
            target: self.target.clone(),
            message: self.message.clone(),
        }
    }
}

/// What some records say.
pub open spec fn captured(v: Seq<CapturedRecord>) -> Seq<Captured> {
    Seq::new(v.len(), |i: int| v[i]@)
}

/// Records of this level are captured.
pub open spec fn is_captured(level: Level) -> bool {
    level is Error || level is Warn || level is Info
}

/// A level is a warning or worse.
pub open spec fn is_warning(level: Level) -> bool {
    level is Error || level is Warn
}

/// A record is a warning or worse and its message holds `needle`.
pub open spec fn complains(needle: Seq<char>) -> spec_fn(Captured) -> bool {
    |r: Captured| is_warning(r.level) && text::contains(r.message, needle)
}

/// How a record is echoed.
pub open spec fn echo_text(r: Captured) -> Seq<char> {
    "["@ + upper_name(r.level) + "] "@ + r.target + ": "@ + r.message
}

/// The name of a level in upper case.
pub open spec fn upper_name(level: Level) -> Seq<char> {
    match level {
        Level::Error => "ERROR"@,
        Level::Warn => "WARN"@,
        Level::Info => "INFO"@,
        Level::Debug => "DEBUG"@,
        Level::Trace => "TRACE"@,
    }
}

fn upper(level: Level) -> (r: &'static str)
    ensures
        r@ == upper_name(level),
{
    match level {
        Level::Error => "ERROR",
        Level::Warn => "WARN",
        Level::Info => "INFO",
        Level::Debug => "DEBUG",
        Level::Trace => "TRACE",
    }
}

impl LogCapture {
    /// The records captured.
    pub closed spec fn view(&self) -> Seq<Captured> {
        captured(self.records@)
    }

    /// Warnings are echoed.
    pub closed spec fn echoes(&self) -> bool {
        self.echo
    }

    /// A capture without records. `echo` also shows warnings.
    pub fn install(echo: bool) -> (r: LogCapture)
        ensures
            r@ == Seq::<Captured>::empty(),
            r.echoes() == echo,
    {
        let r = LogCapture { records: Vec::new(), echo };
        assert(r@ =~= Seq::<Captured>::empty());
        r
    }

    /// Takes a record. Returns the line to echo, if it is to be echoed.
    pub fn log(&mut self, level: Level, target: &str, message: &str) -> (r: Option<String>)
        ensures
            final(self).echoes() == old(self).echoes(),
            final(self)@ == if is_captured(level) {
                old(self)@.push(Captured { level, target: target@, message: message@ })
            } else {
                old(self)@
            },
            r is Some <==> old(self).echoes() && is_warning(level),
            r matches Some(line) ==> line@ == echo_text(
                (Captured { level, target: target@, message: message@ }),
            ),
    {
        let ghost before = self@;
        match level {
            Level::Debug => {
                return None;
            },
            Level::Trace => {
                return None;
            },
            _ => {},
        }
        self.records.push(
            CapturedRecord { level, target: target.to_owned(), message: message.to_owned() },
        );
        assert(self@ =~= before.push(Captured { level, target: target@, message: message@ }));
        if !self.echo || level == Level::Info {
            return None;
        }
        let mut out = "[".to_owned();
        out.append(upper(level));
        out.append("] ");
        out.append(target);
        out.append(": ");
        out.append(message);
        Some(out)
    }

    /// The records so far.
    pub fn records(&self) -> (r: Vec<CapturedRecord>)
        ensures
            captured(r@) == self@,
    {
        let mut out: Vec<CapturedRecord> = Vec::new();
        for i in 0..self.records.len()
            invariant
                captured(out@) == captured(self.records@.take(i as int)),
        {
            let ghost before = captured(out@);
            out.push(self.records[i].copied());
            assert(captured(out@) =~= before.push(self.records@[i as int]@));
            assert(captured(self.records@.take(i + 1)) =~= captured(
                self.records@.take(i as int),
            ).push(self.records@[i as int]@));
        }
        assert(self.records@.take(self.records@.len() as int) =~= self.records@);
        out
    }

    /// Records at `Warn` or above whose message contains `needle`.
    pub fn warnings_containing(&self, needle: &str) -> (r: Vec<CapturedRecord>)
        ensures
            captured(r@) == self@.filter(complains(needle@)),
    {
        let mut out: Vec<CapturedRecord> = Vec::new();
        let ghost all = self@;
        proof {
            reveal_with_fuel(Seq::filter, 1);
            assert(all.take(0) =~= Seq::empty());
            assert(captured(out@) =~= all.take(0).filter(complains(needle@)));
        }
        for i in 0..self.records.len()
            invariant
                all == captured(self.records@),
                captured(out@) == all.take(i as int).filter(complains(needle@)),
        {
            let ghost before = captured(out@);
            let rec = &self.records[i];
            let warning = rec.level == Level::Error || rec.level == Level::Warn;
            proof {
                reveal_with_fuel(Seq::filter, 1);
                assert(all.take(i + 1).drop_last() =~= all.take(i as int));
                assert(all.take(i + 1).last() == rec@);
            }
            if warning && text::has_str(rec.message.as_str(), needle) {
                out.push(rec.copied());
                assert(captured(out@) =~= before.push(rec@));
                assert(complains(needle@)(rec@));
            } else {
                assert(!complains(needle@)(rec@));
            }
        }
        assert(all.take(all.len() as int) =~= all);
        out
    }

    /// Forgets the records.
    pub fn clear(&mut self)
        ensures
            final(self)@ == Seq::<Captured>::empty(),
            final(self).echoes() == old(self).echoes(),
    {
        self.records.clear();
        assert(self@ =~= Seq::<Captured>::empty());
    }
}

/// The NAL units that are not empty.
pub open spec fn full() -> spec_fn(Seq<u8>) -> bool {
    |n: Seq<u8>| n.len() > 0
}

/// The type of a NAL unit.
pub open spec fn type_of() -> spec_fn(Seq<u8>) -> u8 {
    |n: Seq<u8>| n[0] & 0x1F
}

/// NAL unit types found in an Annex B access unit.
pub fn nal_types(annexb: &[u8]) -> (r: Vec<u8>)
    ensures
        r@ == crate::server::encoder::nals(annexb@).filter(full()).map_values(type_of()),
{
    let units = nal_units(annexb);
    let mut out: Vec<u8> = Vec::new();
    let ghost all = crate::server::encoder::nals(annexb@);
    proof {
        reveal_with_fuel(Seq::filter, 1);
        assert(all.take(0) =~= Seq::empty());
        assert(out@ =~= all.take(0).filter(full()).map_values(type_of()));
    }
    for i in 0..units.len()
        invariant
            crate::server::encoder::slices(units@) == all,
            out@ == all.take(i as int).filter(full()).map_values(type_of()),
    {
        let ghost n = all[i as int];
        let ghost before = all.take(i as int).filter(full());
        proof {
            reveal_with_fuel(Seq::filter, 1);
            assert(all.take(i + 1).drop_last() =~= all.take(i as int));
            assert(all.take(i + 1).last() == n);
            assert(n == units@[i as int]@);
            assert(full()(n) == (n.len() > 0));
        }
        match nal_type(units[i]) {
            Some(t) => {
                out.push(t);
                assert(before.push(n).map_values(type_of()) =~= before.map_values(type_of()).push(
                    t,
                ));
            },
            None => {},
        }
    }
    assert(all.take(all.len() as int) =~= all);
    out
}

/// Errors, warnings and information are captured; errors and warnings are complaints.
pub proof fn levels_that_are_captured(level: Level)
    ensures
        is_captured(level) <==> !(level is Debug) && !(level is Trace),
        is_warning(level) <==> level is Error || level is Warn,
        upper_name(Level::Error) == "ERROR"@ && upper_name(Level::Warn) == "WARN"@,
        upper_name(Level::Info) == "INFO"@ && upper_name(Level::Debug) == "DEBUG"@,
        upper_name(Level::Trace) == "TRACE"@,
{
}

/// An echoed record shows its level, where it comes from and what it says.
pub proof fn echo_shows_the_record(r: Captured)
    ensures
        echo_text(r) == "["@ + upper_name(r.level) + "] "@ + r.target + ": "@ + r.message,
{
}

/// The types of an access unit are those of its NAL units, in order.
pub proof fn types_are_those_of_the_nal_units(ns: Seq<Seq<u8>>, au: &[u8], r: Vec<u8>, i: int)
    requires
        crate::server::encoder::proper_nals(ns),
        au@ == crate::client::depacketizer::annex_b(ns),
        call_ensures(nal_types, (au,), r),
        0 <= i < ns.len(),
    ensures
        r@.len() == ns.len(),
        r@[i] == ns[i][0] & 0x1F,
{
    crate::server::encoder::access_units_split_into_their_nal_units(ns);
    lemma_all_full(ns);
}

proof fn lemma_all_full(ns: Seq<Seq<u8>>)
    requires
        forall|i: int| 0 <= i < ns.len() ==> (#[trigger] ns[i]).len() > 0,
    ensures
        ns.filter(full()) == ns,
    decreases ns.len(),
{
    reveal_with_fuel(Seq::filter, 1);
    if ns.len() > 0 {
        assert(ns[ns.len() - 1].len() > 0);
        assert forall|i: int| 0 <= i < ns.drop_last().len() implies (
        #[trigger] ns.drop_last()[i]).len() > 0 by {
            assert(ns[i].len() > 0);
        }
        lemma_all_full(ns.drop_last());
        assert(ns.filter(full()) =~= ns);
    } else {
        assert(ns.filter(full()) =~= ns);
    }
}

/// A record complains of something if it is a warning or an error and mentions it.
pub proof fn complaints_mention_their_subject(r: Captured, needle: Seq<char>)
    ensures
        complains(needle)(r) <==> (r.level is Error || r.level is Warn) && text::contains(
            r.message,
            needle,
        ),
{
}

} // verus!
