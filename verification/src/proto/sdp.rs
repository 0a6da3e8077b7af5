//! Minimal SDP inspection and rewriting.
//!
//! The server is ICE-lite. Its IPv4 sits behind OCI's 1:1 NAT, so the IPv4 host candidates it
//! gathers carry the VM's private address and have to be rewritten to the public one before the
//! answer is returned ([`rewrite_host_candidates`]). IPv6 addresses are global (no NAT) and are
//! kept unless an override is configured. These helpers work on the SDP text only.
use vstd::prelude::*;

use crate::text;

verus! {

/// A piece between line feeds without the carriage return at its end.
pub open spec fn unterminated(piece: Seq<char>) -> Seq<char> {
    if piece.len() > 0 && piece.last() == '\r' {
        piece.drop_last()
    } else {
        piece
    }
}

/// The lines of a text: the pieces between line feeds, each without one carriage return at its
/// end, as far as they are not empty.
pub open spec fn lines(sdp: Seq<char>) -> Seq<Seq<char>> {
    text::split(sdp, text::Separator::Is('\n')).map_values(
        |p: Seq<char>| unterminated(p),
    ).filter(text::non_empty())
}

/// The lines of `sdp`.
fn lines_of(sdp: &str) -> (r: Vec<Vec<char>>)
    ensures
        text::texts(r@) == lines(sdp@),
{
    let chars = text::chars_of(sdp);
    let pieces = text::split_at(chars.as_slice(), text::Separator::Is('\n'));
    let ghost all = text::texts(pieces@);
    let mut out: Vec<Vec<char>> = Vec::new();
    for i in 0..pieces.len()
        invariant
            all == text::texts(pieces@),
            out@.len() == i,
            forall|j: int| 0 <= j < i ==> (#[trigger] out@[j])@ == unterminated(all[j]),
    {
        let p = &pieces[i];
        if p.len() > 0 && p[p.len() - 1] == '\r' {
            let line = text::part(p.as_slice(), 0, p.len() - 1);
            assert(line@ =~= all[i as int].drop_last());
            out.push(line);
        } else {
            out.push(text::copy_of(p.as_slice()));
        }
    }
    assert(text::texts(out@) =~= all.map_values(|p: Seq<char>| unterminated(p)));
    text::keep_non_empty(out)
}

/// `m=`, the kind and a space.
pub open spec fn media_prefix(kind: Seq<char>) -> Seq<char> {
    "m="@ + kind + " "@
}

/// Returns true if the SDP has an `m=<kind>` media section (`"video"`, `"audio"`, `"application"`).
pub fn has_media(sdp: &str, kind: &str) -> (r: bool)
    ensures
        r == exists|i: int|
            0 <= i < lines(sdp@).len() && media_prefix(kind@).is_prefix_of(
                #[trigger] lines(sdp@)[i],
            ),
{
    let mut prefix: Vec<char> = Vec::new();
    text::push_str(&mut prefix, "m=");
    text::push_str(&mut prefix, kind);
    text::push_str(&mut prefix, " ");
    assert(prefix@ =~= media_prefix(kind@));
    let all = lines_of(sdp);
    let ghost ls = lines(sdp@);
    for i in 0..all.len()
        invariant
            text::texts(all@) == ls,
            ls == lines(sdp@),
            prefix@ == media_prefix(kind@),
            forall|j: int| 0 <= j < i ==> !prefix@.is_prefix_of(#[trigger] ls[j]),
    {
        assert(ls[i as int] == all@[i as int]@);
        if text::is_at(all[i].as_slice(), prefix.as_slice(), 0) {
            return true;
        }
    }
    false
}

/// The line starts like a candidate attribute.
pub open spec fn candidate_line(line: Seq<char>) -> bool {
    "a=candidate:"@.is_prefix_of(line)
}

/// Number of `a=candidate:` lines.
pub fn candidate_count(sdp: &str) -> (r: usize)
    ensures
        r == lines(sdp@).filter(|l: Seq<char>| candidate_line(l)).len(),
{
    let all = lines_of(sdp);
    let ghost ls = lines(sdp@);
    let ghost keep = |l: Seq<char>| candidate_line(l);
    let mut n: usize = 0;
    assert(ls.take(0) =~= Seq::empty());
    proof {
        reveal_with_fuel(Seq::filter, 1);
    }
    for i in 0..all.len()
        invariant
            text::texts(all@) == ls,
            keep == (|l: Seq<char>| candidate_line(l)),
            n == ls.take(i as int).filter(keep).len(),
            n <= i,
    {
        proof {
            assert(ls.take(i + 1).drop_last() =~= ls.take(i as int));
            assert(ls.take(i + 1).last() == all@[i as int]@);
            reveal_with_fuel(Seq::filter, 1);
        }
        if text::starts_with(all[i].as_slice(), "a=candidate:") {
            n = n + 1;
        }
    }
    assert(ls.take(ls.len() as int) =~= ls);
    n
}

/// True if the session advertises `a=ice-lite`.
pub fn is_ice_lite(sdp: &str) -> (r: bool)
    ensures
        r == exists|i: int|
            0 <= i < lines(sdp@).len() && text::trim_end(#[trigger] lines(sdp@)[i])
                == "a=ice-lite"@,
{
    let all = lines_of(sdp);
    let want = text::chars_of("a=ice-lite");
    let ghost ls = lines(sdp@);
    for i in 0..all.len()
        invariant
            text::texts(all@) == ls,
            ls == lines(sdp@),
            want@ == "a=ice-lite"@,
            forall|j: int| 0 <= j < i ==> text::trim_end(#[trigger] ls[j]) != want@,
    {
        assert(ls[i as int] == all@[i as int]@);
        let line = text::trimmed_end(all[i].as_slice());
        if text::same(line.as_slice(), want.as_slice()) {
            return true;
        }
    }
    false
}

/// The address is an IPv6 address: it holds a colon.
pub open spec fn is_ipv6(address: Seq<char>) -> bool {
    address.contains(':')
}

/// `"IPv6"` for an address containing a colon, `"IPv4"` otherwise.
pub fn address_family(address: &str) -> (r: &'static str)
    ensures
        r@ == if is_ipv6(address@) {
            "IPv6"@
        } else {
            "IPv4"@
        },
{
    let chars = text::chars_of(address);
    if text::has_char(chars.as_slice(), ':') {
        "IPv6"
    } else {
        "IPv4"
    }
}

/// `host:port`, with brackets around IPv6 addresses.
pub open spec fn endpoint_text(address: Seq<char>, port: u16) -> Seq<char> {
    if is_ipv6(address) {
        "["@ + address + "]:"@ + text::decimal(port as nat)
    } else {
        address + ":"@ + text::decimal(port as nat)
    }
}

/// `host:port`, with brackets around IPv6 addresses.
pub fn format_endpoint(address: &str, port: u16) -> (r: String)
    ensures
        r@ == endpoint_text(address@, port),
{
    let chars = text::chars_of(address);
    let mut out = String::new();
    if text::has_char(chars.as_slice(), ':') {
        out.append("[");
        out.append(address);
        out.append("]:");
    } else {
        out.append(address);
        out.append(":");
    }
    text::push_decimal(&mut out, port as u64);
    assert(out@ =~= endpoint_text(address@, port));
    out
}

/// The fields of an `a=candidate:` line (RFC 8839 §5.1).
#[verifier::ext_equal]
pub struct CandidateText {
    pub foundation: Seq<char>,
    pub component: Seq<char>,
    pub transport: Seq<char>,
    pub priority: Seq<char>,
    pub address: Seq<char>,
    pub port: Seq<char>,
    pub typ: Seq<char>,
    /// Everything after `typ <type>` (raddr/rport/generation/... extensions), may be empty.
    pub rest: Seq<char>,
}

/// The candidate that a line describes.
pub open spec fn candidate(line: Seq<char>) -> Option<CandidateText> {
    let body = line.skip("a=candidate:"@.len() as int);
    let w = text::words(body);
    if !candidate_line(line) || w.len() < 8 || w[6] != "typ"@ {
        None
    } else {
        Some(
            CandidateText {
                foundation: w[0],
                component: w[1],
                transport: w[2],
                priority: w[3],
                address: w[4],
                port: w[5],
                typ: w[7],
                rest: text::behind(body, 8),
            },
        )
    }
}

struct Candidate {
    foundation: Vec<char>,
    component: Vec<char>,
    transport: Vec<char>,
    priority: Vec<char>,
    address: Vec<char>,
    port: Vec<char>,
    typ: Vec<char>,
    rest: Vec<char>,
}

impl View for Candidate {
    type V = CandidateText;

    closed spec fn view(&self) -> CandidateText {
        CandidateText {
            foundation: self.foundation@,
            component: self.component@,
            transport: self.transport@,
            priority: self.priority@,
            address: self.address@,
            port: self.port@,
            typ: self.typ@,
            rest: self.rest@,
        }
    }
}

fn parse_candidate(line: &[char]) -> (r: Option<Candidate>)
    ensures
        match r {
            Some(c) => candidate(line@) == Some(c@),
            None => candidate(line@) is None,
        },
{
    let prefix = text::chars_of("a=candidate:");
    if !text::is_at(line, prefix.as_slice(), 0) {
        return None;
    }
    let body = text::part(line, prefix.len(), line.len());
    assert(body@ =~= line@.skip("a=candidate:"@.len() as int));
    let w = text::words_of(body.as_slice());
    let typ = text::chars_of("typ");
    if w.len() < 8 || !text::same(w[6].as_slice(), typ.as_slice()) {
        return None;
    }
    let at = text::position_behind(body.as_slice(), 8);
    let rest = text::part(body.as_slice(), at, body.len());
    assert(rest@ =~= body@.skip(at as int));
    let c = Candidate {
        foundation: text::copy_of(w[0].as_slice()),
        component: text::copy_of(w[1].as_slice()),
        transport: text::copy_of(w[2].as_slice()),
        priority: text::copy_of(w[3].as_slice()),
        address: text::copy_of(w[4].as_slice()),
        port: text::copy_of(w[5].as_slice()),
        typ: text::copy_of(w[7].as_slice()),
        rest,
    };
    assert(Some(c@) == candidate(line@));
    Some(c)
}

impl CandidateText {
    /// The line that describes this candidate at another address.
    pub open spec fn at_address(self, address: Seq<char>) -> Seq<char> {
        let head = "a=candidate:"@ + self.foundation + " "@ + self.component + " "@
            + self.transport + " "@ + self.priority + " "@ + address + " "@ + self.port + " typ "@
            + self.typ;
        if self.rest.len() > 0 {
            head + " "@ + self.rest
        } else {
            head
        }
    }
}

impl Candidate {
    fn with_address(&self, address: &[char]) -> (r: Vec<char>)
        ensures
            r@ == self@.at_address(address@),
    {
        let mut s: Vec<char> = Vec::new();
        text::push_str(&mut s, "a=candidate:");
        text::push_all(&mut s, self.foundation.as_slice());
        text::push_str(&mut s, " ");
        text::push_all(&mut s, self.component.as_slice());
        text::push_str(&mut s, " ");
        text::push_all(&mut s, self.transport.as_slice());
        text::push_str(&mut s, " ");
        text::push_all(&mut s, self.priority.as_slice());
        text::push_str(&mut s, " ");
        text::push_all(&mut s, address);
        text::push_str(&mut s, " ");
        text::push_all(&mut s, self.port.as_slice());
        text::push_str(&mut s, " typ ");
        text::push_all(&mut s, self.typ.as_slice());
        if self.rest.len() > 0 {
            text::push_str(&mut s, " ");
            text::push_all(&mut s, self.rest.as_slice());
        }
        assert(s@ =~= self@.at_address(address@));
        s
    }
}

/// The address of a host candidate's line.
pub open spec fn host_address(line: Seq<char>) -> Option<Seq<char>> {
    match candidate(line) {
        Some(c) if c.typ == "host"@ => Some(c.address),
        _ => None,
    }
}

/// The addresses of the host candidates among some lines, in order.
pub open spec fn host_addresses(ls: Seq<Seq<char>>) -> Seq<Seq<char>>
    decreases ls.len(),
{
    if ls.len() == 0 {
        Seq::empty()
    } else {
        match host_address(ls.last()) {
            Some(a) => host_addresses(ls.drop_last()).push(a),
            None => host_addresses(ls.drop_last()),
        }
    }
}

/// Connection addresses of all host candidates (in order, duplicates kept).
pub fn host_candidate_addresses(sdp: &str) -> (r: Vec<String>)
    ensures
        text::strings(r@) == host_addresses(lines(sdp@)),
{
    let all = lines_of(sdp);
    let host = text::chars_of("host");
    let ghost ls = lines(sdp@);
    let mut out: Vec<String> = Vec::new();
    assert(ls.take(0) =~= Seq::empty());
    assert(text::strings(out@) =~= host_addresses(ls.take(0)));
    for i in 0..all.len()
        invariant
            text::texts(all@) == ls,
            host@ == "host"@,
            text::strings(out@) == host_addresses(ls.take(i as int)),
    {
        let ghost before = text::strings(out@);
        assert(ls.take(i + 1).drop_last() =~= ls.take(i as int));
        assert(ls.take(i + 1).last() == all@[i as int]@);
        if let Some(c) = parse_candidate(all[i].as_slice()) {
            if text::same(c.typ.as_slice(), host.as_slice()) {
                let a = text::string_of(c.address.as_slice());
                out.push(a);
                assert(text::strings(out@) =~= before.push(c@.address));
            }
        }
    }
    assert(ls.take(ls.len() as int) =~= ls);
    out
}

/// The addresses to advertise.
#[verifier::ext_equal]
pub struct Public {
    pub ipv4: Option<Seq<char>>,
    pub ipv6: Option<Seq<char>>,
}

impl Public {
    /// What an address is replaced by: the public address of its family, if there is one.
    pub open spec fn replacement(self, address: Seq<char>) -> Seq<char> {
        let new = if is_ipv6(address) {
            self.ipv6
        } else {
            self.ipv4
        };
        match new {
            Some(a) => a,
            None => address,
        }
    }
}

/// What tells host candidates apart.
#[verifier::ext_equal]
pub struct HostKey {
    /// In lower case.
    pub transport: Seq<char>,
    pub address: Seq<char>,
    pub port: Seq<char>,
}

/// What makes two host candidates the same once their addresses are replaced: transport,
/// address and port. `None` for a line that is no host candidate.
pub open spec fn key(line: Seq<char>, to: Public) -> Option<HostKey> {
    match candidate(line) {
        Some(c) if c.typ == "host"@ => Some(
            HostKey {
                transport: text::lower(c.transport),
                address: to.replacement(c.address),
                port: c.port,
            },
        ),
        _ => None,
    }
}

/// A line after the rewrite.
pub open spec fn rewritten(line: Seq<char>, to: Public) -> Seq<char> {
    match candidate(line) {
        Some(c) => if c.typ == "host"@ {
            c.at_address(to.replacement(c.address))
        } else {
            line
        },
        None => if "c=IN IP4 "@.is_prefix_of(line) {
            match to.ipv4 {
                Some(ip) if text::trim_end(line.skip("c=IN IP4 "@.len() as int)) != "0.0.0.0"@ =>
                "c=IN IP4 "@ + ip,
                _ => line,
            }
        } else if "c=IN IP6 "@.is_prefix_of(line) {
            match to.ipv6 {
                Some(ip) if text::trim_end(line.skip("c=IN IP6 "@.len() as int)) != "::"@ =>
                "c=IN IP6 "@ + ip,
                _ => line,
            }
        } else {
            line
        },
    }
}

/// A line of a text: what it says, and how it ends.
#[verifier::ext_equal]
pub struct Line {
    pub content: Seq<char>,
    /// A carriage return, a line feed, both, or nothing at the end of the text.
    pub ending: Seq<char>,
}

/// The line that a piece between line feeds is: a carriage return at its end belongs to the
/// ending, and so does the line feed behind it.
pub open spec fn line_of(piece: Seq<char>, fed: bool) -> Line {
    Line {
        content: unterminated(piece),
        ending: piece.skip(unterminated(piece).len() as int) + if fed {
            seq!['\n']
        } else {
            Seq::empty()
        },
    }
}

/// All lines of a text, blank ones too, each with its own ending. Behind the last line feed there
/// is one more line without an ending.
pub open spec fn all_lines(sdp: Seq<char>) -> Seq<Line> {
    let pieces = text::split(sdp, text::Separator::Is('\n'));
    Seq::new(pieces.len(), |i: int| line_of(pieces[i], i < pieces.len() - 1))
}

/// Lines one after the other.
pub open spec fn written(ls: Seq<Line>) -> Seq<char>
    decreases ls.len(),
{
    if ls.len() == 0 {
        Seq::empty()
    } else {
        written(ls.drop_last()) + ls.last().content + ls.last().ending
    }
}

/// Line `i` is a host candidate that an earlier line already describes.
pub open spec fn repeated(ls: Seq<Line>, i: int, to: Public) -> bool {
    key(ls[i].content, to) is Some && exists|j: int|
        0 <= j < i && key((#[trigger] ls[j]).content, to) == key(ls[i].content, to)
}

/// The lines after the rewrite: each rewritten, with its own ending; repeated host candidates
/// left out.
pub open spec fn rewritten_lines(ls: Seq<Line>, to: Public) -> Seq<Line>
    decreases ls.len(),
{
    if ls.len() == 0 {
        Seq::empty()
    } else if repeated(ls, ls.len() - 1, to) {
        rewritten_lines(ls.drop_last(), to)
    } else {
        rewritten_lines(ls.drop_last(), to).push(
            Line { content: rewritten(ls.last().content, to), ..ls.last() },
        )
    }
}

/// A text after the rewrite.
pub open spec fn rewritten_text(sdp: Seq<char>, to: Public) -> Seq<char> {
    written(rewritten_lines(all_lines(sdp), to))
}

/// The characters of a [`HostKey`].
struct HostChars {
    transport: Vec<char>,
    address: Vec<char>,
    port: Vec<char>,
}

impl View for HostChars {
    type V = HostKey;

    closed spec fn view(&self) -> HostKey {
        HostKey { transport: self.transport@, address: self.address@, port: self.port@ }
    }
}

impl HostChars {
    fn same(&self, other: &HostChars) -> (r: bool)
        ensures
            r == (self@ == other@),
    {
        text::same(self.transport.as_slice(), other.transport.as_slice()) && text::same(
            self.address.as_slice(),
            other.address.as_slice(),
        ) && text::same(self.port.as_slice(), other.port.as_slice())
    }
}

spec fn opt_key(v: Option<HostChars>) -> Option<HostKey> {
    match v {
        Some(k) => Some(k@),
        None => None,
    }
}

/// The keys that a list holds.
spec fn keys_of(v: Seq<HostChars>) -> Seq<HostKey> {
    Seq::new(v.len(), |i: int| v[i]@)
}

fn chars_or<'a>(replacement: &'a Option<Vec<char>>, address: &'a Vec<char>) -> (r: &'a Vec<char>)
    ensures
        r@ == match *replacement {
            Some(a) => a@,
            None => address@,
        },
{
    match replacement {
        Some(a) => a,
        None => address,
    }
}

spec fn opt_chars(v: Option<Vec<char>>) -> Option<Seq<char>> {
    match v {
        Some(a) => Some(a@),
        None => None,
    }
}

fn chars_of_opt(s: Option<&str>) -> (r: Option<Vec<char>>)
    ensures
        opt_chars(r) == text::opt_str(s),
{
    match s {
        Some(t) => Some(text::chars_of(t)),
        None => None,
    }
}

/// What [`rewrite_host_candidates`] does with one line.
fn rewrite_line(
    line: &[char],
    ipv4: &Option<Vec<char>>,
    ipv6: &Option<Vec<char>>,
) -> (r: (Vec<char>, Option<HostChars>))
    ensures
        ({
            let to = Public { ipv4: opt_chars(*ipv4), ipv6: opt_chars(*ipv6) };
            &&& r.0@ == rewritten(line@, to)
            &&& opt_key(r.1) == key(line@, to)
        }),
{
    let ghost to = Public { ipv4: opt_chars(*ipv4), ipv6: opt_chars(*ipv6) };
    if let Some(c) = parse_candidate(line) {
        let host = text::chars_of("host");
        if text::same(c.typ.as_slice(), host.as_slice()) {
            let address = if text::has_char(c.address.as_slice(), ':') {
                chars_or(ipv6, &c.address)
            } else {
                chars_or(ipv4, &c.address)
            };
            let k = HostChars {
                transport: text::lower_case(c.transport.as_slice()),
                address: text::copy_of(address.as_slice()),
                port: text::copy_of(c.port.as_slice()),
            };
            assert(Some(k@) == key(line@, to));
            return (c.with_address(address.as_slice()), Some(k));
        }
    } else if text::starts_with(line, "c=IN IP4 ") {
        if let Some(ip) = ipv4 {
            let prefix = text::chars_of("c=IN IP4 ");
            let rest = text::part(line, prefix.len(), line.len());
            assert(rest@ =~= line@.skip("c=IN IP4 "@.len() as int));
            let rest = text::trimmed_end(rest.as_slice());
            let any = text::chars_of("0.0.0.0");
            if !text::same(rest.as_slice(), any.as_slice()) {
                let mut out = prefix;
                text::push_all(&mut out, ip.as_slice());
                return (out, None);
            }
        }
    } else if text::starts_with(line, "c=IN IP6 ") {
        if let Some(ip) = ipv6 {
            let prefix = text::chars_of("c=IN IP6 ");
            let rest = text::part(line, prefix.len(), line.len());
            assert(rest@ =~= line@.skip("c=IN IP6 "@.len() as int));
            let rest = text::trimmed_end(rest.as_slice());
            let any = text::chars_of("::");
            if !text::same(rest.as_slice(), any.as_slice()) {
                let mut out = prefix;
                text::push_all(&mut out, ip.as_slice());
                return (out, None);
            }
        }
    }
    (text::copy_of(line), None)
}

/// Whether one of `keys` is `k`.
fn has_key(keys: &Vec<HostChars>, k: &HostChars) -> (r: bool)
    ensures
        r == keys_of(keys@).contains(k@),
{
    for i in 0..keys.len()
        invariant
            forall|j: int| 0 <= j < i ==> keys_of(keys@)[j] != k@,
    {
        assert(keys_of(keys@)[i as int] == keys@[i as int]@);
        if keys[i].same(k) {
            return true;
        }
    }
    false
}

/// Rewrites `typ host` candidates: IPv4 ones advertise `public_ipv4` and IPv6 ones
/// `public_ipv6`, when given. Candidates of a family without a replacement keep their address.
/// `c=` lines are pointed at the replacement of their family as well.
///
/// Candidates that become identical (same transport, address and port) after the rewrite are
/// collapsed into one, so a VM with several interfaces bound on the same port produces a
/// single candidate per family. Non-host candidates and all other lines are left untouched.
/// Line endings (`\r\n` or `\n`) are preserved.
pub fn rewrite_host_candidates(
    sdp: &str,
    public_ipv4: Option<&str>,
    public_ipv6: Option<&str>,
) -> (r: String)
    ensures
        r@ == rewritten_text(
            sdp@,
            Public { ipv4: text::opt_str(public_ipv4), ipv6: text::opt_str(public_ipv6) },
        ),
{
    let ghost to = Public { ipv4: text::opt_str(public_ipv4), ipv6: text::opt_str(public_ipv6) };
    let ghost ls = all_lines(sdp@);
    let ipv4 = chars_of_opt(public_ipv4);
    let ipv6 = chars_of_opt(public_ipv6);
    let chars = text::chars_of(sdp);
    let pieces = text::split_at(chars.as_slice(), text::Separator::Is('\n'));
    let mut out: Vec<char> = Vec::new();
    let mut seen: Vec<HostChars> = Vec::new();
    assert(ls.take(0) =~= Seq::empty());
    for i in 0..pieces.len()
        invariant
            ls == all_lines(sdp@),
            text::texts(pieces@) == text::split(sdp@, text::Separator::Is('\n')),
            to == (Public { ipv4: opt_chars(ipv4), ipv6: opt_chars(ipv6) }),
            out@ == written(rewritten_lines(ls.take(i as int), to)),
            seen_below(ls, to, i as int, keys_of(seen@)),
    {
        let ghost here = ls.take(i + 1);
        let ghost l = ls[i as int];
        assert(here.drop_last() =~= ls.take(i as int));
        assert(here.last() == l);
        let p = &pieces[i];
        assert(l == line_of(p@, i < pieces@.len() - 1)) by {
            assert(text::texts(pieces@)[i as int] == p@);
        }
        let end: usize = if p.len() > 0 && p[p.len() - 1] == '\r' {
            p.len() - 1
        } else {
            p.len()
        };
        let content = text::part(p.as_slice(), 0, end);
        assert(content@ =~= l.content);
        let (line, k) = rewrite_line(content.as_slice(), &ipv4, &ipv6);
        let ghost seen_before = keys_of(seen@);
        let mut skip = false;
        if let Some(k) = k {
            if has_key(&seen, &k) {
                skip = true;
            } else {
                let ghost kk = k@;
                seen.push(k);
                assert(keys_of(seen@) =~= seen_before.push(kk));
            }
        }
        proof {
            lemma_seen(ls, to, i as int, seen_before);
        }
        if !skip {
            let ghost before = out@;
            text::push_all(&mut out, line.as_slice());
            let ending = text::part(p.as_slice(), end, p.len());
            text::push_all(&mut out, ending.as_slice());
            if i < pieces.len() - 1 {
                out.push('\n');
            }
            let ghost rewritten_line = Line { content: line@, ..l };
            assert(rewritten_lines(here, to) == rewritten_lines(ls.take(i as int), to).push(
                rewritten_line,
            ));
            assert(rewritten_lines(here, to).drop_last() =~= rewritten_lines(
                ls.take(i as int),
                to,
            ));
            assert(ending@ =~= p@.skip(end as int));
            assert(out@ =~= before + line@ + l.ending);
        }
    }
    assert(ls.take(ls.len() as int) =~= ls);
    text::string_of(out.as_slice())
}

/// `seen` holds the keys of the host candidates among the first `n` lines.
spec fn seen_below(ls: Seq<Line>, to: Public, n: int, seen: Seq<HostKey>) -> bool {
    forall|k: HostKey| #[trigger]
        seen.contains(k) <==> exists|j: int|
            0 <= j < n && key((#[trigger] ls[j]).content, to) == Some(k)
}

/// What the keys seen say of line `i`, and what they are with its own.
proof fn lemma_seen(ls: Seq<Line>, to: Public, i: int, seen: Seq<HostKey>)
    requires
        0 <= i < ls.len(),
        seen_below(ls, to, i, seen),
    ensures
        match key(ls[i].content, to) {
            Some(k) => {
                &&& repeated(ls.take(i + 1), i, to) <==> seen.contains(k)
                &&& seen_below(
                    ls,
                    to,
                    i + 1,
                    if seen.contains(k) {
                        seen
                    } else {
                        seen.push(k)
                    },
                )
            },
            None => !repeated(ls.take(i + 1), i, to) && seen_below(ls, to, i + 1, seen),
        },
{
    let here = ls.take(i + 1);
    let own = key(ls[i].content, to);
    if let Some(k) = own {
        if seen.contains(k) {
            let j = choose|j: int| 0 <= j < i && key((#[trigger] ls[j]).content, to) == Some(k);
            assert(key(here[j].content, to) == key(here[i].content, to));
        }
        if repeated(here, i, to) {
            let j = choose|j: int|
                0 <= j < i && key((#[trigger] here[j]).content, to) == key(here[i].content, to);
            assert(key(ls[j].content, to) == Some(k));
            assert(seen.contains(k));
        }
    }
    let all = match own {
        Some(k) if !seen.contains(k) => seen.push(k),
        _ => seen,
    };
    assert forall|x: HostKey| #[trigger] all.contains(x) <==> exists|j: int|
        0 <= j < i + 1 && key((#[trigger] ls[j]).content, to) == Some(x) by {
        if all.contains(x) {
            if seen.contains(x) {
                let j = choose|j: int| 0 <= j < i && key((#[trigger] ls[j]).content, to) == Some(x);
                assert(key(ls[j].content, to) == Some(x));
            } else {
                let m = choose|m: int| 0 <= m < all.len() && all[m] == x;
                if m < seen.len() {
                    assert(seen[m] == x);
                }
                assert(key(ls[i].content, to) == Some(x));
            }
        }
        if exists|j: int| 0 <= j < i + 1 && key((#[trigger] ls[j]).content, to) == Some(x) {
            let j = choose|j: int|
                0 <= j < i + 1 && key((#[trigger] ls[j]).content, to) == Some(x);
            if j < i {
                assert(seen.contains(x));
                let m = choose|m: int| 0 <= m < seen.len() && seen[m] == x;
                assert(all[m] == x);
            } else if !seen.contains(x) {
                assert(all[seen.len() as int] == x);
            }
        }
    }
}

// ------------------------------------------------------------------------------------------
// Laws
// ------------------------------------------------------------------------------------------
/// The public addresses are words, as addresses are.
pub open spec fn addresses(to: Public) -> bool {
    &&& to.ipv4 matches Some(a) ==> text::is_word(a)
    &&& to.ipv6 matches Some(a) ==> text::is_word(a)
}

/// A line that is neither a host candidate nor a `c=` line is left untouched; so is a `c=` line
/// with the unspecified address, or of a family without a replacement.
pub proof fn other_lines_are_untouched(line: Seq<char>, to: Public)
    requires
        host_address(line) is None,
        "c=IN IP4 "@.is_prefix_of(line) ==> to.ipv4 is None || text::trim_end(
            line.skip("c=IN IP4 "@.len() as int),
        ) == "0.0.0.0"@,
        "c=IN IP6 "@.is_prefix_of(line) ==> to.ipv6 is None || text::trim_end(
            line.skip("c=IN IP6 "@.len() as int),
        ) == "::"@,
    ensures
        rewritten(line, to) == line,
        key(line, to) is None,
{
}

proof fn lemma_candidate_words(line: Seq<char>)
    ensures
        candidate(line) matches Some(c) ==> {
            &&& text::is_word(c.foundation)
            &&& text::is_word(c.component)
            &&& text::is_word(c.transport)
            &&& text::is_word(c.priority)
            &&& text::is_word(c.address)
            &&& text::is_word(c.port)
            &&& text::is_word(c.typ)
        },
{
    text::lemma_words_are_words(line.skip("a=candidate:"@.len() as int));
}

/// The words of a candidate's line at another address.
proof fn lemma_at_address_words(c: CandidateText, a: Seq<char>)
    requires
        text::is_word(c.foundation),
        text::is_word(c.component),
        text::is_word(c.transport),
        text::is_word(c.priority),
        text::is_word(a),
        text::is_word(c.port),
        text::is_word(c.typ),
    ensures
        candidate_line(c.at_address(a)),
        ({
            let w = text::words(c.at_address(a).skip("a=candidate:"@.len() as int));
            &&& w.len() >= 8
            &&& w[0] == c.foundation
            &&& w[1] == c.component
            &&& w[2] == c.transport
            &&& w[3] == c.priority
            &&& w[4] == a
            &&& w[5] == c.port
            &&& w[6] == "typ"@
            &&& w[7] == c.typ
        }),
        text::behind(c.at_address(a).skip("a=candidate:"@.len() as int), 8) == text::behind(
            c.rest,
            0,
        ),
{
    reveal_strlit(" ");
    reveal_strlit("typ");
    reveal_strlit(" typ ");
    let t7 = if c.rest.len() > 0 {
        c.typ.push(' ') + c.rest
    } else {
        c.typ
    };
    let t6 = "typ"@.push(' ') + t7;
    let t5 = c.port.push(' ') + t6;
    let t4 = a.push(' ') + t5;
    let t3 = c.priority.push(' ') + t4;
    let t2 = c.transport.push(' ') + t3;
    let t1 = c.component.push(' ') + t2;
    let t0 = c.foundation.push(' ') + t1;
    let line = c.at_address(a);
    assert(line =~= "a=candidate:"@ + t0);
    assert(line.skip("a=candidate:"@.len() as int) =~= t0);
    assert("a=candidate:"@ =~= line.subrange(0, "a=candidate:"@.len() as int));
    assert(text::is_word("typ"@));
    text::lemma_first_word(c.foundation, ' ', t1);
    text::lemma_first_word(c.component, ' ', t2);
    text::lemma_first_word(c.transport, ' ', t3);
    text::lemma_first_word(c.priority, ' ', t4);
    text::lemma_first_word(a, ' ', t5);
    text::lemma_first_word(c.port, ' ', t6);
    text::lemma_first_word("typ"@, ' ', t7);
    if c.rest.len() > 0 {
        text::lemma_first_word(c.typ, ' ', c.rest);
    } else {
        text::lemma_only_word(c.typ);
    }
    let w7 = text::words(t7);
    let w6 = text::words(t6);
    let w5 = text::words(t5);
    let w4 = text::words(t4);
    let w3 = text::words(t3);
    let w2 = text::words(t2);
    let w1 = text::words(t1);
    let w0 = text::words(t0);
    assert(w7[0] == c.typ);
    assert(w6[0] == "typ"@ && w6[1] == w7[0]);
    assert(w5[0] == c.port && w5[1] == w6[0] && w5[2] == w6[1]);
    assert(w4[0] == a && w4[1] == w5[0] && w4[2] == w5[1] && w4[3] == w5[2]);
    assert(w3[0] == c.priority && w3[1] == w4[0] && w3[2] == w4[1] && w3[3] == w4[2] && w3[4]
        == w4[3]);
    assert(w2[0] == c.transport && w2[1] == w3[0] && w2[2] == w3[1] && w2[3] == w3[2] && w2[4]
        == w3[3] && w2[5] == w3[4]);
    assert(w1[0] == c.component && w1[1] == w2[0] && w1[2] == w2[1] && w1[3] == w2[2] && w1[4]
        == w2[3] && w1[5] == w2[4] && w1[6] == w2[5]);
    assert(w0[0] == c.foundation && w0[1] == w1[0] && w0[2] == w1[1] && w0[3] == w1[2] && w0[4]
        == w1[3] && w0[5] == w1[4] && w0[6] == w1[5] && w0[7] == w1[6]);
    text::lemma_behind_word(c.foundation, ' ', t1, 8);
    text::lemma_behind_word(c.component, ' ', t2, 7);
    text::lemma_behind_word(c.transport, ' ', t3, 6);
    text::lemma_behind_word(c.priority, ' ', t4, 5);
    text::lemma_behind_word(a, ' ', t5, 4);
    text::lemma_behind_word(c.port, ' ', t6, 3);
    text::lemma_behind_word("typ"@, ' ', t7, 2);
    if c.rest.len() > 0 {
        text::lemma_behind_word(c.typ, ' ', c.rest, 1);
    } else {
        text::lemma_behind_only_word(c.typ);
    }
}

/// A host candidate comes out as that candidate at the public address of its family: nothing
/// else about it changes.
pub proof fn host_candidate_changes_only_its_address(line: Seq<char>, to: Public)
    requires
        addresses(to),
        host_address(line) is Some,
    ensures
        candidate(rewritten(line, to)) == Some(
            CandidateText {
                address: to.replacement(host_address(line)->0),
                ..candidate(line)->0
            },
        ),
{
    lemma_candidate_words(line);
    let c = candidate(line)->0;
    lemma_at_address_words(c, to.replacement(c.address));
    text::lemma_behind_suffix(line.skip("a=candidate:"@.len() as int), 8);
}

/// A host candidate comes out at the public address of its family, and is told from others by
/// the same transport, address and port.
pub proof fn host_candidate_moves_to_public_address(line: Seq<char>, to: Public)
    requires
        addresses(to),
        host_address(line) is Some,
    ensures
        host_address(rewritten(line, to)) == Some(to.replacement(host_address(line)->0)),
        key(rewritten(line, to), Public { ipv4: None, ipv6: None }) == key(line, to),
{
    host_candidate_changes_only_its_address(line, to);
}

/// One of `ls` has the host address `a`.
pub open spec fn has_host(ls: Seq<Line>, a: Seq<char>) -> bool {
    exists|i: int| 0 <= i < ls.len() && host_address((#[trigger] ls[i]).content) == Some(a)
}

/// Every host candidate among the rewritten lines stands at the replacement of an address that
/// a host candidate had before.
pub proof fn hosts_advertise_replacements(ls: Seq<Line>, to: Public, i: int)
    requires
        addresses(to),
        0 <= i < rewritten_lines(ls, to).len(),
        host_address(rewritten_lines(ls, to)[i].content) is Some,
    ensures
        exists|a: Seq<char>| #[trigger]
            has_host(ls, a) && host_address(rewritten_lines(ls, to)[i].content) == Some(
                to.replacement(a),
            ),
{
    let k = lemma_line_behind(ls, to, i);
    lemma_rewritten_host(ls[k].content, to);
    let a = host_address(ls[k].content)->0;
    assert(has_host(ls, a));
}

proof fn lemma_rewritten_host(line: Seq<char>, to: Public)
    requires
        addresses(to),
    ensures
        host_address(rewritten(line, to)) == match host_address(line) {
            Some(a) => Some(to.replacement(a)),
            None => None,
        },
        key(rewritten(line, to), Public { ipv4: None, ipv6: None }) == key(line, to),
{
    if host_address(line) is Some {
        host_candidate_moves_to_public_address(line, to);
    } else {
        reveal_strlit("a=candidate:");
        reveal_strlit("c=IN IP4 ");
        reveal_strlit("c=IN IP6 ");
        let out = rewritten(line, to);
        if out != line {
            assert(out[0] == 'c');
            assert(!candidate_line(out)) by {
                if candidate_line(out) {
                    assert(out.subrange(0, 12)[0] == 'a');
                }
            }
        }
    }
}

/// Among the rewritten lines, no two host candidates share transport, address and port.
pub proof fn hosts_are_distinct(ls: Seq<Line>, to: Public, i: int, j: int)
    requires
        addresses(to),
        0 <= i < j < rewritten_lines(ls, to).len(),
        key(rewritten_lines(ls, to)[i].content, Public { ipv4: None, ipv6: None }) is Some,
    ensures
        key(rewritten_lines(ls, to)[i].content, Public { ipv4: None, ipv6: None }) != key(
            rewritten_lines(ls, to)[j].content,
            Public { ipv4: None, ipv6: None },
        ),
    decreases ls.len(),
{
    let none = Public { ipv4: None, ipv6: None };
    let out = rewritten_lines(ls, to);
    let init = ls.drop_last();
    let out_init = rewritten_lines(init, to);
    if j < out_init.len() {
        assert(out[i] == out_init[i] && out[j] == out_init[j]);
        hosts_are_distinct(init, to, i, j);
    } else {
        assert(out[i] == out_init[i]);
        lemma_rewritten_host(ls.last().content, to);
        let k = lemma_line_behind(init, to, i);
        lemma_rewritten_host(init[k].content, to);
        if key(out[i].content, none) == key(out[j].content, none) {
            assert(key(init[k].content, to) == key(out[i].content, none));
            assert(key(ls[k].content, to) == key(ls[ls.len() - 1].content, to));
            assert(repeated(ls, ls.len() - 1, to));
        }
    }
}

/// The line that a rewritten line comes from.
proof fn lemma_line_behind(ls: Seq<Line>, to: Public, i: int) -> (k: int)
    requires
        0 <= i < rewritten_lines(ls, to).len(),
    ensures
        0 <= k < ls.len(),
        rewritten_lines(ls, to)[i] == (Line { content: rewritten(ls[k].content, to), ..ls[k] }),
        i == rewritten_lines(ls, to).len() - 1 || k < ls.len() - 1,
    decreases ls.len(),
{
    let init = ls.drop_last();
    if i < rewritten_lines(init, to).len() {
        lemma_line_behind(init, to, i)
    } else {
        ls.len() - 1
    }
}

/// The host candidates among some lines, in order.
pub open spec fn hosts(ls: Seq<Line>) -> Seq<CandidateText>
    decreases ls.len(),
{
    if ls.len() == 0 {
        Seq::empty()
    } else {
        match candidate(ls.last().content) {
            Some(c) if c.typ == "host"@ => hosts(ls.drop_last()).push(c),
            _ => hosts(ls.drop_last()),
        }
    }
}

/// Candidates with the public addresses in place of their own.
pub open spec fn moved(cs: Seq<CandidateText>, to: Public) -> Seq<CandidateText> {
    cs.map_values(|c: CandidateText| CandidateText { address: to.replacement(c.address), ..c })
}

/// The candidates share transport, ASCII case ignored, address and port.
pub open spec fn same_host(a: CandidateText, b: CandidateText) -> bool {
    text::lower(a.transport) == text::lower(b.transport) && a.address == b.address && a.port
        == b.port
}

/// Candidates without those that share transport, address and port with an earlier one.
pub open spec fn without_repeats(cs: Seq<CandidateText>) -> Seq<CandidateText>
    decreases cs.len(),
{
    if cs.len() == 0 {
        Seq::empty()
    } else if exists|i: int| 0 <= i < cs.len() - 1 && same_host(#[trigger] cs[i], cs.last()) {
        without_repeats(cs.drop_last())
    } else {
        without_repeats(cs.drop_last()).push(cs.last())
    }
}

proof fn lemma_repeats_only_leave(cs: Seq<CandidateText>, j: int)
    requires
        0 <= j < without_repeats(cs).len(),
    ensures
        cs.contains(without_repeats(cs)[j]),
    decreases cs.len(),
{
    let before = without_repeats(cs.drop_last());
    if j < before.len() {
        lemma_repeats_only_leave(cs.drop_last(), j);
        let i = choose|i: int| 0 <= i < cs.drop_last().len() && cs.drop_last()[i] == before[j];
        assert(cs[i] == before[j]);
    } else {
        assert(cs[cs.len() - 1] == without_repeats(cs)[j]);
    }
}

proof fn lemma_one_is_kept(cs: Seq<CandidateText>, i: int) -> (j: int)
    requires
        0 <= i < cs.len(),
    ensures
        0 <= j < without_repeats(cs).len(),
        same_host(without_repeats(cs)[j], cs[i]),
    decreases cs.len(),
{
    if i < cs.len() - 1 {
        lemma_one_is_kept(cs.drop_last(), i)
    } else if exists|k: int| 0 <= k < cs.len() - 1 && same_host(#[trigger] cs[k], cs.last()) {
        let k = choose|k: int| 0 <= k < cs.len() - 1 && same_host(#[trigger] cs[k], cs.last());
        lemma_one_is_kept(cs.drop_last(), k)
    } else {
        without_repeats(cs).len() - 1
    }
}

proof fn lemma_no_two_are_kept(cs: Seq<CandidateText>, j: int, k: int)
    requires
        0 <= j < k < without_repeats(cs).len(),
    ensures
        !same_host(without_repeats(cs)[j], without_repeats(cs)[k]),
    decreases cs.len(),
{
    let init = cs.drop_last();
    let before = without_repeats(init);
    if k < before.len() {
        lemma_no_two_are_kept(init, j, k);
    } else {
        lemma_repeats_only_leave(init, j);
        let i = choose|i: int| 0 <= i < init.len() && init[i] == before[j];
        assert(!same_host(cs[i], cs.last()));
    }
}

/// Leaving out repeats keeps one candidate for each transport, address and port, brings in none,
/// and leaves no two that are the same.
pub proof fn repeats_are_left_out(cs: Seq<CandidateText>)
    ensures
        forall|i: int|
            0 <= i < cs.len() ==> exists|j: int|
                0 <= j < without_repeats(cs).len() && same_host(
                    #[trigger] without_repeats(cs)[j],
                    #[trigger] cs[i],
                ),
        forall|j: int|
            0 <= j < without_repeats(cs).len() ==> cs.contains(
                #[trigger] without_repeats(cs)[j],
            ),
        forall|j: int, k: int|
            0 <= j < k < without_repeats(cs).len() ==> !same_host(
                #[trigger] without_repeats(cs)[j],
                #[trigger] without_repeats(cs)[k],
            ),
{
    let out = without_repeats(cs);
    assert forall|i: int| 0 <= i < cs.len() implies exists|j: int|
        0 <= j < out.len() && same_host(#[trigger] out[j], #[trigger] cs[i]) by {
        let j = lemma_one_is_kept(cs, i);
        assert(same_host(out[j], cs[i]));
    }
    assert forall|j: int| 0 <= j < out.len() implies cs.contains(#[trigger] out[j]) by {
        lemma_repeats_only_leave(cs, j);
    }
    assert forall|j: int, k: int| 0 <= j < k < out.len() implies !same_host(
        #[trigger] out[j],
        #[trigger] out[k],
    ) by {
        lemma_no_two_are_kept(cs, j, k);
    }
}

/// The keys of some lines are those of their host candidates at the public addresses.
proof fn lemma_host_keys(ls: Seq<Line>, to: Public, c: CandidateText)
    ensures
        ({
            let k = HostKey {
                transport: text::lower(c.transport),
                address: c.address,
                port: c.port,
            };
            (exists|j: int| 0 <= j < ls.len() && key((#[trigger] ls[j]).content, to) == Some(k))
                <==> (exists|m: int|
                0 <= m < moved(hosts(ls), to).len() && same_host(
                    #[trigger] moved(hosts(ls), to)[m],
                    c,
                ))
        }),
    decreases ls.len(),
{
    let k = HostKey { transport: text::lower(c.transport), address: c.address, port: c.port };
    let all = moved(hosts(ls), to);
    if ls.len() > 0 {
        let init = ls.drop_last();
        let before = moved(hosts(init), to);
        let own = key(ls.last().content, to);
        lemma_host_keys(init, to, c);
        if exists|j: int| 0 <= j < ls.len() && key((#[trigger] ls[j]).content, to) == Some(k) {
            let j = choose|j: int|
                0 <= j < ls.len() && key((#[trigger] ls[j]).content, to) == Some(k);
            if j < init.len() {
                assert(key(init[j].content, to) == Some(k));
                let m = choose|m: int| 0 <= m < before.len() && same_host(#[trigger] before[m], c);
                assert(all[m] == before[m]);
            } else {
                assert(same_host(all[all.len() - 1], c));
            }
        }
        if exists|m: int| 0 <= m < all.len() && same_host(#[trigger] all[m], c) {
            let m = choose|m: int| 0 <= m < all.len() && same_host(#[trigger] all[m], c);
            if m < before.len() {
                assert(all[m] == before[m]);
                let j = choose|j: int|
                    0 <= j < init.len() && key((#[trigger] init[j]).content, to) == Some(k);
                assert(key(ls[j].content, to) == Some(k));
            } else {
                assert(own == Some(k));
                assert(key(ls[ls.len() - 1].content, to) == Some(k));
            }
        }
    }
}

/// What the rewrite does to the host candidates, exactly: each stands at the public address of its
/// family and is otherwise as it was; those that then share transport, address and port with an
/// earlier one are left out.
pub proof fn hosts_after_the_rewrite(ls: Seq<Line>, to: Public)
    requires
        addresses(to),
    ensures
        hosts(rewritten_lines(ls, to)) == without_repeats(moved(hosts(ls), to)),
    decreases ls.len(),
{
    let out = rewritten_lines(ls, to);
    let all = moved(hosts(ls), to);
    if ls.len() > 0 {
        let init = ls.drop_last();
        let line = ls.last().content;
        let before = moved(hosts(init), to);
        hosts_after_the_rewrite(init, to);
        if host_address(line) is Some {
            host_candidate_changes_only_its_address(line, to);
            let c = candidate(line)->0;
            let d = CandidateText { address: to.replacement(c.address), ..c };
            assert(all =~= before.push(d));
            assert(all.drop_last() =~= before);
            lemma_host_keys(init, to, d);
            let k = key(line, to)->0;
            assert(repeated(ls, ls.len() - 1, to) <==> exists|j: int|
                0 <= j < init.len() && key((#[trigger] init[j]).content, to) == Some(k)) by {
                if repeated(ls, ls.len() - 1, to) {
                    let j = choose|j: int|
                        0 <= j < ls.len() - 1 && key((#[trigger] ls[j]).content, to) == Some(k);
                    assert(key(init[j].content, to) == Some(k));
                }
                if exists|j: int|
                    0 <= j < init.len() && key((#[trigger] init[j]).content, to) == Some(k) {
                    let j = choose|j: int|
                        0 <= j < init.len() && key((#[trigger] init[j]).content, to) == Some(k);
                    assert(key(ls[j].content, to) == Some(k));
                }
            }
            assert((exists|i: int| 0 <= i < all.len() - 1 && same_host(#[trigger] all[i], d))
                <==> (exists|m: int| 0 <= m < before.len() && same_host(#[trigger] before[m], d)))
                by {
                if exists|i: int| 0 <= i < all.len() - 1 && same_host(#[trigger] all[i], d) {
                    let i = choose|i: int|
                        0 <= i < all.len() - 1 && same_host(#[trigger] all[i], d);
                    assert(same_host(before[i], d));
                }
                if exists|m: int| 0 <= m < before.len() && same_host(#[trigger] before[m], d) {
                    let m = choose|m: int|
                        0 <= m < before.len() && same_host(#[trigger] before[m], d);
                    assert(same_host(all[m], d));
                }
            }
            if !repeated(ls, ls.len() - 1, to) {
                assert(out.drop_last() =~= rewritten_lines(init, to));
            }
        } else {
            lemma_rewritten_host(line, to);
            assert(all =~= before);
            assert(out.drop_last() =~= rewritten_lines(init, to));
        }
    } else {
        assert(all =~= Seq::empty());
    }
}

// ------------------------------------------------------------------------------------------
// Lines and texts
// ------------------------------------------------------------------------------------------
/// Lines as they stand in a text: every one but the last ends in a line feed, and a carriage
/// return at the end of one belongs to its ending.
pub open spec fn proper_lines(ls: Seq<Line>) -> bool {
    forall|i: int|
        0 <= i < ls.len() ==> proper_line(#[trigger] ls[i]) && (i < ls.len() - 1 ==> fed(ls[i]))
}

/// The line ends in a line feed.
pub open spec fn fed(l: Line) -> bool {
    l.ending.len() > 0 && l.ending.last() == '\n'
}

/// The content holds no line feed, the ending is one of four, and a content that ends in a
/// carriage return has an ending that starts with one.
pub open spec fn proper_line(l: Line) -> bool {
    &&& text::unbroken(l.content, text::Separator::Is('\n'))
    &&& l.ending == Seq::<char>::empty() || l.ending == seq!['\r'] || l.ending == seq!['\n']
        || l.ending == seq!['\r', '\n']
    &&& l.content.len() > 0 && l.content.last() == '\r' ==> l.ending.len() > 0 && l.ending[0]
        == '\r'
}

/// The piece between line feeds that a line is.
spec fn piece_of(l: Line) -> Seq<char> {
    if fed(l) {
        l.content + l.ending.drop_last()
    } else {
        l.content + l.ending
    }
}

proof fn lemma_piece_and_line(piece: Seq<char>, is_fed: bool)
    requires
        text::unbroken(piece, text::Separator::Is('\n')),
    ensures
        proper_line(line_of(piece, is_fed)),
        fed(line_of(piece, is_fed)) == is_fed,
        piece_of(line_of(piece, is_fed)) == piece,
{
    let l = line_of(piece, is_fed);
    let nl = text::Separator::Is('\n');
    assert forall|i: int| 0 <= i < l.content.len() implies !nl.separates(#[trigger] l.content[i]) by {
        assert(l.content[i] == piece[i]);
    }
    if piece.len() > 0 && piece.last() == '\r' {
        assert(piece.skip(piece.len() - 1) =~= seq!['\r']);
        if is_fed {
            assert(l.ending =~= seq!['\r', '\n']);
            assert(l.ending.drop_last() =~= seq!['\r']);
        } else {
            assert(l.ending =~= seq!['\r']);
        }
        assert(piece.drop_last() + seq!['\r'] =~= piece);
    } else {
        assert(piece.skip(piece.len() as int) =~= Seq::empty());
        if is_fed {
            assert(l.ending =~= seq!['\n']);
            assert(l.ending.drop_last() =~= Seq::empty());
        } else {
            assert(l.ending =~= Seq::empty());
        }
        assert(piece + Seq::<char>::empty() =~= piece);
    }
}

proof fn lemma_line_and_piece(l: Line)
    requires
        proper_line(l),
    ensures
        text::unbroken(piece_of(l), text::Separator::Is('\n')),
        line_of(piece_of(l), fed(l)) == l,
        l.content + l.ending == piece_of(l) + (if fed(l) {
            seq!['\n']
        } else {
            Seq::empty()
        }),
{
    let nl = text::Separator::Is('\n');
    let p = piece_of(l);
    let cr = if fed(l) {
        l.ending.drop_last()
    } else {
        l.ending
    };
    assert(cr =~= Seq::empty() || cr =~= seq!['\r']);
    lemma_unbroken_sum(l.content, cr, nl);
    if cr.len() > 0 {
        assert(p.drop_last() =~= l.content);
        assert(p.skip(l.content.len() as int) =~= cr);
    } else {
        assert(p =~= l.content);
        assert(p.skip(p.len() as int) =~= cr);
    }
    if fed(l) {
        assert(l.ending =~= cr + seq!['\n']);
        assert(l.content + l.ending =~= p + seq!['\n']);
    } else {
        assert(l.ending =~= cr + Seq::<char>::empty());
        assert(l.content + l.ending =~= p + Seq::<char>::empty());
    }
    assert(line_of(p, fed(l)) =~= l);
}

/// A text is made up of proper lines.
proof fn lemma_all_lines_proper(sdp: Seq<char>)
    ensures
        proper_lines(all_lines(sdp)),
        all_lines(sdp).len() > 0,
        !fed(all_lines(sdp).last()),
{
    let nl = text::Separator::Is('\n');
    let pieces = text::split(sdp, nl);
    let ls = all_lines(sdp);
    text::lemma_split_nonempty(sdp, nl);
    text::lemma_pieces_unbroken(sdp, nl);
    assert forall|i: int| 0 <= i < ls.len() implies proper_line(#[trigger] ls[i]) && (i < ls.len()
        - 1 <==> fed(ls[i])) by {
        lemma_piece_and_line(pieces[i], i < pieces.len() - 1);
    }
    assert(!fed(ls[ls.len() - 1]));
}

/// The pieces of a written text.
proof fn lemma_split_written(ls: Seq<Line>)
    requires
        proper_lines(ls),
    ensures
        ({
            let pieces = Seq::new(ls.len(), |i: int| piece_of(ls[i]));
            text::split(written(ls), text::Separator::Is('\n')) == if ls.len() == 0 || fed(ls.last())
            {
                pieces.push(Seq::empty())
            } else {
                pieces
            }
        }),
        ls.len() > 0 && fed(ls.last()) ==> written(ls).len() > 0 && written(ls).last() == '\n',
    decreases ls.len(),
{
    let nl = text::Separator::Is('\n');
    let t = written(ls);
    let pieces = Seq::new(ls.len(), |i: int| piece_of(ls[i]));
    text::lemma_split_unbroken(Seq::empty(), nl);
    if ls.len() == 0 {
        assert(t =~= Seq::empty());
        assert(text::split(t, nl) =~= pieces.push(Seq::empty()));
    } else {
        let init = ls.drop_last();
        let last = ls.last();
        assert(ls[ls.len() - 1] == last);
        assert forall|i: int| 0 <= i < init.len() implies proper_line(#[trigger] init[i]) && (i
            < init.len() - 1 ==> fed(init[i])) by {
            assert(init[i] == ls[i]);
        }
        lemma_split_written(init);
        if init.len() > 0 {
            assert(fed(ls[init.len() - 1]));
            assert(init.last() == ls[init.len() - 1]);
        }
        let before = written(init);
        let l = piece_of(last);
        lemma_line_and_piece(last);
        text::lemma_split_unbroken(l, nl);
        let init_pieces = Seq::new(init.len(), |i: int| piece_of(init[i]));
        let u = before + l;
        assert(text::split(u, nl) =~= init_pieces.push(l)) by {
            if init.len() > 0 {
                let v = before.drop_last();
                assert(before =~= v.push('\n') + Seq::<char>::empty());
                text::lemma_split_concat(v, '\n', Seq::empty(), nl);
                assert(u =~= v.push('\n') + l);
                text::lemma_split_concat(v, '\n', l, nl);
                assert(text::split(v, nl) =~= text::split(before, nl).drop_last());
            } else {
                assert(before =~= Seq::empty());
                assert(u =~= l);
            }
        }
        assert(t =~= before + (last.content + last.ending));
        if fed(last) {
            assert(t =~= u.push('\n') + Seq::<char>::empty());
            text::lemma_split_concat(u, '\n', Seq::empty(), nl);
            assert(text::split(t, nl) =~= pieces.push(Seq::empty()));
            assert(t.last() == '\n');
        } else {
            assert(t =~= u);
            assert(text::split(t, nl) =~= pieces);
        }
    }
}

/// Lines with one more behind the last line feed, as [`all_lines`] has it.
pub open spec fn closed_off(ls: Seq<Line>) -> Seq<Line> {
    if ls.len() == 0 || fed(ls.last()) {
        ls.push(Line { content: Seq::empty(), ending: Seq::empty() })
    } else {
        ls
    }
}

/// Lines that are written are read back as they were.
pub proof fn written_lines_read_back(ls: Seq<Line>)
    requires
        proper_lines(ls),
    ensures
        all_lines(written(ls)) == closed_off(ls),
{
    lemma_split_written(ls);
    let got = all_lines(written(ls));
    let want = closed_off(ls);
    let pieces = text::split(written(ls), text::Separator::Is('\n'));
    assert(got.len() == want.len());
    assert forall|i: int| 0 <= i < want.len() implies got[i] == want[i] by {
        if i < ls.len() {
            lemma_line_and_piece(ls[i]);
            assert(pieces[i] == piece_of(ls[i]));
            assert(i < pieces.len() - 1 <==> fed(ls[i])) by {
                if i == ls.len() - 1 {
                    assert(ls.last() == ls[i]);
                }
            }
        } else {
            assert(got[i] =~= want[i]);
        }
    }
    assert(got =~= want);
}

proof fn lemma_written_push(ls: Seq<Line>, l: Line)
    ensures
        written(ls.push(l)) == written(ls) + (l.content + l.ending),
{
    assert(ls.push(l).drop_last() =~= ls);
    assert(written(ls.push(l)) =~= written(ls) + (l.content + l.ending));
}

/// What a line adds to the text, by its piece.
proof fn lemma_written_piece(ls: Seq<Line>, piece: Seq<char>, is_fed: bool)
    requires
        text::unbroken(piece, text::Separator::Is('\n')),
    ensures
        written(ls.push(line_of(piece, is_fed))) == written(ls) + piece + (if is_fed {
            seq!['\n']
        } else {
            Seq::empty()
        }),
{
    lemma_written_push(ls, line_of(piece, is_fed));
    lemma_piece_and_line(piece, is_fed);
    lemma_line_and_piece(line_of(piece, is_fed));
    assert(written(ls.push(line_of(piece, is_fed))) =~= written(ls) + piece + (if is_fed {
        seq!['\n']
    } else {
        Seq::empty()
    }));
}

/// The pieces of a text but the last, as lines.
spec fn closed_lines(pieces: Seq<Seq<char>>) -> Seq<Line> {
    Seq::new((pieces.len() - 1) as nat, |i: int| line_of(pieces[i], true))
}

proof fn lemma_all_lines_split(sdp: Seq<char>)
    ensures
        ({
            let pieces = text::split(sdp, text::Separator::Is('\n'));
            pieces.len() > 0 && all_lines(sdp) == closed_lines(pieces).push(
                line_of(pieces.last(), false),
            )
        }),
{
    let pieces = text::split(sdp, text::Separator::Is('\n'));
    text::lemma_split_nonempty(sdp, text::Separator::Is('\n'));
    assert(all_lines(sdp) =~= closed_lines(pieces).push(line_of(pieces.last(), false)));
}

/// Reading a text and writing its lines gives the text: nothing of it is lost.
pub proof fn lines_make_up_the_text(sdp: Seq<char>)
    ensures
        written(all_lines(sdp)) == sdp,
    decreases sdp.len(),
{
    let nl = text::Separator::Is('\n');
    let pieces = text::split(sdp, nl);
    lemma_all_lines_split(sdp);
    text::lemma_pieces_unbroken(sdp, nl);
    assert(text::unbroken(pieces[pieces.len() - 1], nl));
    lemma_written_piece(closed_lines(pieces), pieces.last(), false);
    if sdp.len() == 0 {
        assert(closed_lines(pieces) =~= Seq::empty());
        assert(written(all_lines(sdp)) =~= sdp);
    } else {
        let init = sdp.drop_last();
        let before = text::split(init, nl);
        lines_make_up_the_text(init);
        lemma_all_lines_split(init);
        text::lemma_pieces_unbroken(init, nl);
        assert(text::unbroken(before[before.len() - 1], nl));
        lemma_written_piece(closed_lines(before), before.last(), false);
        assert(init =~= written(closed_lines(before)) + before.last());
        if sdp.last() == '\n' {
            assert(closed_lines(pieces) =~= closed_lines(before).push(
                line_of(before.last(), true),
            ));
            lemma_written_piece(closed_lines(before), before.last(), true);
            assert(pieces.last() == Seq::<char>::empty());
            assert(written(closed_lines(pieces)) == init + seq!['\n']);
            assert(written(all_lines(sdp)) =~= sdp);
        } else {
            assert(closed_lines(pieces) =~= closed_lines(before));
            assert(pieces.last() == before.last().push(sdp.last()));
            assert(written(all_lines(sdp)) =~= init.push(sdp.last()));
            assert(sdp =~= init.push(sdp.last()));
        }
    }
}

proof fn lemma_unbroken_sum(a: Seq<char>, b: Seq<char>, at: text::Separator)
    requires
        text::unbroken(a, at),
        text::unbroken(b, at),
    ensures
        text::unbroken(a + b, at),
{
    assert forall|i: int| 0 <= i < (a + b).len() implies !at.separates(#[trigger] (a + b)[i]) by {
        if i < a.len() {
            assert(!at.separates(a[i]));
        } else {
            assert(!at.separates(b[i - a.len()]));
        }
    }
}

proof fn lemma_word_unbroken(w: Seq<char>)
    requires
        text::is_word(w),
    ensures
        text::unbroken(w, text::Separator::Is('\n')),
        w.last() != '\r',
{
    let space = text::Separator::AsciiSpace;
    assert forall|i: int| 0 <= i < w.len() implies !text::Separator::Is('\n').separates(
        #[trigger] w[i],
    ) by {
        assert(!space.separates(w[i]));
    }
    assert(!space.separates(w[w.len() - 1]));
}

/// A proper line stays one once it is rewritten.
proof fn lemma_rewritten_proper_line(l: Line, to: Public)
    requires
        addresses(to),
        proper_line(l),
    ensures
        proper_line(Line { content: rewritten(l.content, to), ..l }),
{
    let line = l.content;
    let nl = text::Separator::Is('\n');
    let out = rewritten(line, to);
    if host_address(line) is Some {
        lemma_candidate_words(line);
        let c = candidate(line)->0;
        let a = to.replacement(c.address);
        reveal_strlit("a=candidate:");
        reveal_strlit(" ");
        reveal_strlit(" typ ");
        lemma_word_unbroken(c.foundation);
        lemma_word_unbroken(c.component);
        lemma_word_unbroken(c.transport);
        lemma_word_unbroken(c.priority);
        lemma_word_unbroken(a);
        lemma_word_unbroken(c.port);
        lemma_word_unbroken(c.typ);
        let s1 = "a=candidate:"@ + c.foundation;
        let s2 = s1 + " "@;
        let s3 = s2 + c.component;
        let s4 = s3 + " "@;
        let s5 = s4 + c.transport;
        let s6 = s5 + " "@;
        let s7 = s6 + c.priority;
        let s8 = s7 + " "@;
        let s9 = s8 + a;
        let s10 = s9 + " "@;
        let s11 = s10 + c.port;
        let s12 = s11 + " typ "@;
        let head = s12 + c.typ;
        lemma_unbroken_sum("a=candidate:"@, c.foundation, nl);
        lemma_unbroken_sum(s1, " "@, nl);
        lemma_unbroken_sum(s2, c.component, nl);
        lemma_unbroken_sum(s3, " "@, nl);
        lemma_unbroken_sum(s4, c.transport, nl);
        lemma_unbroken_sum(s5, " "@, nl);
        lemma_unbroken_sum(s6, c.priority, nl);
        lemma_unbroken_sum(s7, " "@, nl);
        lemma_unbroken_sum(s8, a, nl);
        lemma_unbroken_sum(s9, " "@, nl);
        lemma_unbroken_sum(s10, c.port, nl);
        lemma_unbroken_sum(s11, " typ "@, nl);
        lemma_unbroken_sum(s12, c.typ, nl);
        if c.rest.len() > 0 {
            text::lemma_behind_suffix(line.skip("a=candidate:"@.len() as int), 8);
            let i = line.len() - c.rest.len();
            assert(c.rest =~= line.skip(i));
            assert forall|k: int| 0 <= k < c.rest.len() implies !nl.separates(
                #[trigger] c.rest[k],
            ) by {
                assert(!nl.separates(line[i + k]));
            }
            assert(c.rest.last() == line.last());
            lemma_unbroken_sum(head, " "@, nl);
            lemma_unbroken_sum(head + " "@, c.rest, nl);
            assert(out.last() == c.rest.last());
        } else {
            assert(out.last() == c.typ.last());
        }
    } else if out != line {
        reveal_strlit("c=IN IP4 ");
        reveal_strlit("c=IN IP6 ");
        if "c=IN IP4 "@.is_prefix_of(line) {
            lemma_word_unbroken(to.ipv4->0);
            lemma_unbroken_sum("c=IN IP4 "@, to.ipv4->0, nl);
            assert(out.last() == to.ipv4->0.last());
        } else {
            lemma_word_unbroken(to.ipv6->0);
            lemma_unbroken_sum("c=IN IP6 "@, to.ipv6->0, nl);
            assert(out.last() == to.ipv6->0.last());
        }
    }
}

/// The public addresses are of their families: an IPv6 address holds a colon, an IPv4 address
/// does not.
pub open spec fn of_their_families(to: Public) -> bool {
    &&& to.ipv4 matches Some(a) ==> !is_ipv6(a)
    &&& to.ipv6 matches Some(a) ==> is_ipv6(a)
}

/// Addresses as they are written are words of their families.
pub proof fn literals_are_of_their_families(to: Public)
    requires
        to.ipv4 matches Some(a) ==> crate::ip::ipv4(a) is Some,
        to.ipv6 matches Some(a) ==> crate::ip::ipv6(a) is Some,
    ensures
        addresses(to),
        of_their_families(to),
{
    if let Some(a) = to.ipv4 {
        crate::ip::families_are_disjoint(a);
        crate::ip::addresses_are_words(a);
    }
    if let Some(a) = to.ipv6 {
        crate::ip::families_are_disjoint(a);
        crate::ip::addresses_are_words(a);
    }
}

proof fn lemma_rewritten_twice(line: Seq<char>, to: Public)
    requires
        addresses(to),
        of_their_families(to),
    ensures
        rewritten(rewritten(line, to), to) == rewritten(line, to),
        key(rewritten(line, to), to) == key(rewritten(line, to), Public { ipv4: None, ipv6: None }),
{
    let out = rewritten(line, to);
    if host_address(line) is Some {
        host_candidate_changes_only_its_address(line, to);
        let a = host_address(line)->0;
        assert(to.replacement(to.replacement(a)) == to.replacement(a));
    } else if out != line {
        reveal_strlit("a=candidate:");
        reveal_strlit("c=IN IP4 ");
        reveal_strlit("c=IN IP6 ");
        assert(out[0] == 'c');
        assert(!candidate_line(out)) by {
            if candidate_line(out) {
                assert(out.subrange(0, 12)[0] == 'a');
            }
        }
        let (v4, v6) = ("c=IN IP4 "@, "c=IN IP6 "@);
        if v4.is_prefix_of(line) {
            assert(out.subrange(0, v4.len() as int) =~= v4);
        } else {
            assert(out.subrange(0, v6.len() as int) =~= v6);
            if v4.is_prefix_of(out) {
                assert(out.subrange(0, 9)[7] == '4');
                assert(out[7] == '6');
            }
        }
    } else {
        assert(candidate(line) matches Some(c) ==> c.typ != "host"@);
    }
}

proof fn lemma_all_rewritten_twice(ls: Seq<Line>, out: Seq<Line>, to: Public, n: int)
    requires
        addresses(to),
        of_their_families(to),
        out == rewritten_lines(ls, to),
        0 <= n <= out.len(),
    ensures
        rewritten_lines(out.take(n), to) == out.take(n),
    decreases n,
{
    let none = Public { ipv4: None, ipv6: None };
    let front = out.take(n);
    if n > 0 {
        lemma_all_rewritten_twice(ls, out, to, n - 1);
        assert(front.drop_last() =~= out.take(n - 1));
        let k = lemma_line_behind(ls, to, n - 1);
        lemma_rewritten_twice(ls[k].content, to);
        if repeated(front, n - 1, to) {
            let j = choose|j: int|
                0 <= j < n - 1 && key((#[trigger] front[j]).content, to) == key(
                    front[n - 1].content,
                    to,
                );
            let m = lemma_line_behind(ls, to, j);
            lemma_rewritten_twice(ls[m].content, to);
            assert(key(out[j].content, none) == key(out[n - 1].content, none));
            hosts_are_distinct(ls, to, j, n - 1);
        }
        assert(rewritten_lines(front, to) =~= front);
    }
}

proof fn lemma_rewritten_proper(ls: Seq<Line>, to: Public)
    requires
        addresses(to),
        proper_lines(ls),
    ensures
        proper_lines(rewritten_lines(ls, to)),
{
    let out = rewritten_lines(ls, to);
    assert forall|i: int| 0 <= i < out.len() implies proper_line(#[trigger] out[i]) && (i
        < out.len() - 1 ==> fed(out[i])) by {
        let k = lemma_line_behind(ls, to, i);
        assert(proper_line(ls[k]));
        lemma_rewritten_proper_line(ls[k], to);
    }
}

/// Reading the rewritten text gives the rewritten lines back. So what holds of those holds of
/// the text: its host candidates are distinct, and each stands at the replacement of an address
/// that a host candidate of the given text had.
pub proof fn rewritten_text_reads_back(sdp: Seq<char>, to: Public)
    requires
        addresses(to),
    ensures
        all_lines(rewritten_text(sdp, to)) == closed_off(rewritten_lines(all_lines(sdp), to)),
        hosts(all_lines(rewritten_text(sdp, to))) == without_repeats(
            moved(hosts(all_lines(sdp)), to),
        ),
{
    let ls = all_lines(sdp);
    let out = rewritten_lines(ls, to);
    lemma_all_lines_proper(sdp);
    lemma_rewritten_proper(ls, to);
    written_lines_read_back(out);
    hosts_after_the_rewrite(ls, to);
    lemma_blank_line(to);
    if closed_off(out) != out {
        assert(closed_off(out).drop_last() =~= out);
    }
}

/// The addresses of some candidates.
pub open spec fn addresses_of(cs: Seq<CandidateText>) -> Seq<Seq<char>> {
    cs.map_values(|c: CandidateText| c.address)
}

proof fn lemma_hosts_listed(ls: Seq<Line>)
    ensures
        host_addresses(
            ls.map_values(|l: Line| l.content).filter(text::non_empty()),
        ) == addresses_of(hosts(ls)),
    decreases ls.len(),
{
    reveal(Seq::filter);
    let contents = ls.map_values(|l: Line| l.content);
    if ls.len() == 0 {
        assert(addresses_of(hosts(ls)) =~= Seq::empty());
    } else {
        let init = ls.drop_last();
        let line = ls.last().content;
        lemma_hosts_listed(init);
        assert(contents.drop_last() =~= init.map_values(|l: Line| l.content));
        assert(contents.last() == line);
        let before = contents.drop_last().filter(text::non_empty());
        if line.len() > 0 {
            assert(contents.filter(text::non_empty()) == before.push(line));
            assert(before.push(line).drop_last() =~= before);
        } else {
            lemma_blank_line(Public { ipv4: None, ipv6: None });
            assert(line =~= Seq::empty());
        }
        match candidate(line) {
            Some(c) if c.typ == "host"@ => {
                assert(addresses_of(hosts(ls)) =~= addresses_of(hosts(init)).push(c.address));
            },
            _ => {},
        }
    }
}

/// What [`host_candidate_addresses`] lists are the addresses of the host candidates. So behind a
/// rewrite it lists the public addresses, once for each transport and port.
pub proof fn listed_addresses_are_those_of_the_hosts(sdp: Seq<char>, to: Public)
    requires
        addresses(to),
    ensures
        host_addresses(lines(sdp)) == addresses_of(hosts(all_lines(sdp))),
        host_addresses(lines(rewritten_text(sdp, to))) == addresses_of(
            without_repeats(moved(hosts(all_lines(sdp)), to)),
        ),
{
    let after = rewritten_text(sdp, to);
    rewritten_text_reads_back(sdp, to);
    lemma_hosts_listed(all_lines(sdp));
    lemma_hosts_listed(all_lines(after));
    lemma_contents(sdp);
    lemma_contents(after);
}

/// The lines that are looked at are the contents of all lines that hold anything.
proof fn lemma_contents(sdp: Seq<char>)
    ensures
        lines(sdp) == all_lines(sdp).map_values(|l: Line| l.content).filter(text::non_empty()),
{
    let pieces = text::split(sdp, text::Separator::Is('\n'));
    assert(pieces.map_values(|p: Seq<char>| unterminated(p)) =~= all_lines(sdp).map_values(
        |l: Line| l.content,
    ));
}

/// A blank line is no candidate, and stays as it is.
proof fn lemma_blank_line(to: Public)
    ensures
        candidate(Seq::empty()) is None,
        rewritten(Seq::empty(), to) == Seq::<char>::empty(),
{
    reveal_strlit("a=candidate:");
    reveal_strlit("c=IN IP4 ");
    reveal_strlit("c=IN IP6 ");
}

/// Rewriting twice is rewriting once.
pub proof fn rewriting_again_changes_nothing(sdp: Seq<char>, to: Public)
    requires
        addresses(to),
        of_their_families(to),
    ensures
        rewritten_text(rewritten_text(sdp, to), to) == rewritten_text(sdp, to),
{
    let ls = all_lines(sdp);
    let out = rewritten_lines(ls, to);
    rewritten_text_reads_back(sdp, to);
    lemma_all_rewritten_twice(ls, out, to, out.len() as int);
    assert(out.take(out.len() as int) =~= out);
    let again = closed_off(out);
    lemma_blank_line(to);
    if again != out {
        assert(again.drop_last() =~= out);
        assert(key(again.last().content, to) is None);
        assert(rewritten_lines(again, to) =~= again);
        assert(written(again) =~= written(out));
    }
}

/// An address that holds a colon is IPv6 and stands in brackets in front of its port.
pub proof fn endpoints_put_ipv6_in_brackets(address: Seq<char>, port: u16)
    ensures
        address.contains(':') ==> endpoint_text(address, port) == "["@ + address + "]:"@
            + text::decimal(port as nat),
        !address.contains(':') ==> endpoint_text(address, port) == address + ":"@ + text::decimal(
            port as nat,
        ),
{
}

/// The fields of a candidate stand in its line in the order foundation, component, transport,
/// priority, address, port and type, with the rest behind.
pub proof fn candidate_fields_are_read(c: CandidateText, line: Seq<char>)
    requires
        text::is_word(c.foundation) && text::is_word(c.component),
        text::is_word(c.transport) && text::is_word(c.priority),
        text::is_word(c.address) && text::is_word(c.port) && text::is_word(c.typ),
        c.rest.len() > 0 ==> !text::ascii_space(c.rest[0]),
        line == "a=candidate:"@ + c.foundation + " "@ + c.component + " "@ + c.transport + " "@
            + c.priority + " "@ + c.address + " "@ + c.port + " typ "@ + c.typ + if c.rest.len()
            > 0 {
            " "@ + c.rest
        } else {
            Seq::empty()
        },
    ensures
        candidate(line) == Some(c),
        c.typ == "host"@ ==> host_address(line) == Some(c.address),
        c.typ != "host"@ ==> host_address(line) is None,
{
    assert(line =~= c.at_address(c.address));
    lemma_at_address_words(c, c.address);
    reveal_with_fuel(text::behind, 1);
    assert(text::behind(c.rest, 0) =~= c.rest);
}

/// A connection line gets the public address of its own family, unless it names no address at all
/// or there is none.
pub proof fn connection_lines_get_the_public_address(
    a: Seq<char>,
    v4: Seq<char>,
    v6: Seq<char>,
    to: Public,
)
    requires
        to.ipv4 == Some(v4),
        to.ipv6 == Some(v6),
    ensures
        text::trim_end(a) != "0.0.0.0"@ ==> rewritten("c=IN IP4 "@ + a, to) == "c=IN IP4 "@ + v4,
        text::trim_end(a) == "0.0.0.0"@ ==> rewritten("c=IN IP4 "@ + a, to) == "c=IN IP4 "@ + a,
        text::trim_end(a) != "::"@ ==> rewritten("c=IN IP6 "@ + a, to) == "c=IN IP6 "@ + v6,
        text::trim_end(a) == "::"@ ==> rewritten("c=IN IP6 "@ + a, to) == "c=IN IP6 "@ + a,
        rewritten("c=IN IP4 "@ + a, Public { ipv4: None, ..to }) == "c=IN IP4 "@ + a,
        rewritten("c=IN IP6 "@ + a, Public { ipv6: None, ..to }) == "c=IN IP6 "@ + a,
{
    reveal_strlit("a=candidate:");
    reveal_strlit("c=IN IP4 ");
    reveal_strlit("c=IN IP6 ");
    let (x, y) = ("c=IN IP4 "@ + a, "c=IN IP6 "@ + a);
    assert(x[0] == 'c' && y[0] == 'c');
    assert("a=candidate:"@[0] == 'a');
    assert(!candidate_line(x) && !candidate_line(y));
    assert(x.skip(9) =~= a);
    assert(y.skip(9) =~= a);
    assert(x.subrange(0, 9) =~= "c=IN IP4 "@);
    assert(y.subrange(0, 9) =~= "c=IN IP6 "@);
    assert(y[7] == '6' && "c=IN IP4 "@[7] == '4');
    assert(!"c=IN IP4 "@.is_prefix_of(y));
}

/// A line ends at a line feed, with or without a carriage return in front, and blank lines do not
/// count.
pub proof fn lines_end_at_line_feeds(line: Seq<char>, rest: Seq<char>)
    requires
        !line.contains('\n'),
        line.len() > 0,
        line.last() != '\r',
    ensures
        lines(line.push('\n') + rest) == seq![line] + lines(rest),
        lines(line.push('\r').push('\n') + rest) == seq![line] + lines(rest),
        lines(seq!['\n'] + rest) == lines(rest),
{
    lemma_first_piece(line, rest);
    lemma_first_piece(line.push('\r'), rest);
    lemma_first_piece(Seq::empty(), rest);
    assert(line.push('\r').drop_last() =~= line);
    assert(!line.push('\r').contains('\n')) by {
        if line.push('\r').contains('\n') {
            let i = choose|i: int|
                0 <= i < line.push('\r').len() && line.push('\r')[i] == '\n';
            assert(line.contains(line[i]));
        }
    }
    assert(Seq::<char>::empty().push('\n') + rest =~= seq!['\n'] + rest);
    assert(Seq::<Seq<char>>::empty() + lines(rest) =~= lines(rest));
}

proof fn lemma_first_piece(piece: Seq<char>, rest: Seq<char>)
    ensures
        !piece.contains('\n') ==> lines(piece.push('\n') + rest) == (if unterminated(piece).len()
            > 0 {
            seq![unterminated(piece)]
        } else {
            Seq::empty()
        }) + lines(rest),
{
    if !piece.contains('\n') {
        let at = text::Separator::Is('\n');
        assert(text::unbroken(piece, at)) by {
            assert forall|i: int| 0 <= i < piece.len() implies !at.separates(
                #[trigger] piece[i],
            ) by {
                assert(piece.contains(piece[i]));
            }
        }
        text::lemma_split_unbroken(piece, at);
        text::lemma_split_concat(piece, '\n', rest, at);
        let f = |p: Seq<char>| unterminated(p);
        let (a, b) = (seq![piece], text::split(rest, at));
        assert((a + b).map_values(f) =~= a.map_values(f) + b.map_values(f));
        let (x, y) = (a.map_values(f), b.map_values(f));
        assert(x =~= seq![unterminated(piece)]);
        text::lemma_filter_concat(x, y, text::non_empty());
        reveal_with_fuel(Seq::filter, 2);
        assert(x.drop_last() =~= Seq::empty());
        assert(x.filter(text::non_empty()) =~= if unterminated(piece).len() > 0 {
            seq![unterminated(piece)]
        } else {
            Seq::empty()
        });
    }
}

/// A media section is found by the start of its line: `m=`, its kind and a space.
pub proof fn media_sections_are_found(sdp: &str, kind: &str, r: bool)
    requires
        call_ensures(has_media, (sdp, kind), r),
        r,
    ensures
        exists|i: int|
            0 <= i < lines(sdp@).len() && starts_section(#[trigger] lines(sdp@)[i], kind@),
{
    reveal_strlit("m=");
    reveal_strlit(" ");
    let p = media_prefix(kind@);
    let i = choose|i: int| 0 <= i < lines(sdp@).len() && p.is_prefix_of(#[trigger] lines(sdp@)[i]);
    let line = lines(sdp@)[i];
    assert(line.subrange(0, p.len() as int) == p);
    assert(line[0] == p[0] && line[1] == p[1]);
    assert(line[2 + kind@.len() as int] == p[2 + kind@.len() as int]);
    assert(line.subrange(2, 2 + kind@.len() as int) =~= kind@) by {
        assert forall|k: int| 0 <= k < kind@.len() implies line[2 + k] == #[trigger] kind@[k] by {
            assert(line[2 + k] == p[2 + k]);
        }
    }
    assert(starts_section(lines(sdp@)[i], kind@));
}

/// The line begins with the letter m, an equals sign, the kind and a space.
pub open spec fn starts_section(line: Seq<char>, kind: Seq<char>) -> bool {
    &&& line.len() >= kind.len() + 3
    &&& line[0] == 'm'
    &&& line[1] == '='
    &&& line.subrange(2, 2 + kind.len() as int) == kind
    &&& line[2 + kind.len() as int] == ' '
}

/// A line counts as a candidate if it starts as one.
pub proof fn candidates_are_counted(sdp: &str, r: usize, i: int)
    requires
        call_ensures(candidate_count, (sdp,), r),
        0 <= i < lines(sdp@).len(),
        "a=candidate:"@.is_prefix_of(lines(sdp@)[i]),
    ensures
        r > 0,
{
    let keep = |l: Seq<char>| candidate_line(l);
    lemma_filter_finds(lines(sdp@), keep, i);
}

proof fn lemma_filter_finds(ls: Seq<Seq<char>>, keep: spec_fn(Seq<char>) -> bool, i: int)
    requires
        0 <= i < ls.len(),
        keep(ls[i]),
    ensures
        ls.filter(keep).len() > 0,
    decreases ls.len(),
{
    reveal_with_fuel(Seq::filter, 1);
    if i < ls.len() - 1 {
        lemma_filter_finds(ls.drop_last(), keep, i);
    }
}

/// After a rewrite no two host candidates share address, port and transport, where capitals make
/// no difference to the transport.
pub proof fn no_two_hosts_are_alike(sdp: Seq<char>, to: Public, i: int, j: int)
    requires
        addresses(to),
        0 <= i < j < hosts(all_lines(rewritten_text(sdp, to))).len(),
    ensures
        ({
            let a = hosts(all_lines(rewritten_text(sdp, to)))[i];
            let b = hosts(all_lines(rewritten_text(sdp, to)))[j];
            !(a.address == b.address && a.port == b.port && text::lower(a.transport)
                == text::lower(b.transport))
        }),
{
    let moved = moved(hosts(all_lines(sdp)), to);
    rewritten_text_reads_back(sdp, to);
    repeats_are_left_out(moved);
    assert(!same_host(without_repeats(moved)[i], without_repeats(moved)[j]));
}

/// Candidates on different ports, at different addresses or on different transports are both
/// kept.
pub proof fn different_hosts_are_kept(a: CandidateText, b: CandidateText)
    ensures
        same_host(a, b) <==> a.address == b.address && a.port == b.port && text::lower(a.transport)
            == text::lower(b.transport),
        !same_host(a, b) ==> without_repeats(seq![a, b]) == seq![a, b],
        same_host(a, b) ==> without_repeats(seq![a, b]) == seq![a],
{
    reveal_with_fuel(without_repeats, 3);
    let cs = seq![a, b];
    assert(cs.drop_last() =~= seq![a]);
    assert(seq![a].drop_last() =~= Seq::<CandidateText>::empty());
    assert(without_repeats(seq![a]) =~= seq![a]);
    assert(cs[0] == a && cs.last() == b);
}

} // verus!
