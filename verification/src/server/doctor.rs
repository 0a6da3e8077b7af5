//! `server doctor`: what each check of the VM comes to, with the fix.
//!
//! The checks look at facts that were gathered before: what files hold, what commands printed,
//! how long things took.
use vstd::prelude::*;

use crate::ip;
use crate::proto::signalling::{HEALTH_BODY, HEALTH_PATH};
use crate::server::capture::push_list;
use crate::server::config::Config;
use crate::server::convert::kernel_name;
use crate::server::encoder::EncoderSettings;
use crate::server::pipeline::{push_tenths, raise, EncodeOutcome};
use crate::server::setup::{port_range_text, UDEV_RULE, XORG_CONF};
use crate::text;
use crate::Nanos;

verus! {

#[derive(Debug, Clone, Copy, PartialEq, Eq, Structural)]
pub enum Status {
    Pass,
    Warn,
    Fail,
}

/// What a check came to.
#[derive(Debug, PartialEq, Eq)]
pub struct Check {
    pub status: Status,
    pub name: &'static str,
    pub detail: String,
    pub fix: Option<String>,
}

impl Check {
    /// The check passed with this detail.
    pub open spec fn passed(self, name: Seq<char>, detail: Seq<char>) -> bool {
        self.status is Pass && self.name@ == name && self.detail@ == detail && self.fix is None
    }

    /// The check came to a warning or a failure with this detail and this fix.
    pub open spec fn says(
        self,
        status: Status,
        name: Seq<char>,
        detail: Seq<char>,
        fix: Seq<char>,
    ) -> bool {
        self.status == status && self.name@ == name && self.detail@ == detail && text::opt_text(
            self.fix,
        ) == Some(fix)
    }
}

fn pass(name: &'static str, detail: String) -> (r: Check)
    ensures
        r.passed(name@, detail@),
{
    Check { status: Status::Pass, name, detail, fix: None }
}

fn warn(name: &'static str, detail: String, fix: String) -> (r: Check)
    ensures
        r.says(Status::Warn, name@, detail@, fix@),
{
    Check { status: Status::Warn, name, detail, fix: Some(fix) }
}

fn fail(name: &'static str, detail: String, fix: String) -> (r: Check)
    ensures
        r.says(Status::Fail, name@, detail@, fix@),
{
    Check { status: Status::Fail, name, detail, fix: Some(fix) }
}

fn joined2(a: &str, b: &str) -> (r: String)
    ensures
        r@ == a@ + b@,
{
    let mut out = a.to_owned();
    out.append(b);
    out
}

fn joined3(a: &str, b: &str, c: &str) -> (r: String)
    ensures
        r@ == a@ + b@ + c@,
{
    let mut out = a.to_owned();
    out.append(b);
    out.append(c);
    out
}

// ------------------------------------------------------------------------------------------
// The report
// ------------------------------------------------------------------------------------------
/// `n` spaces.
pub open spec fn spaces(n: int) -> Seq<char> {
    Seq::new(
        if n > 0 {
            n as nat
        } else {
            0
        },
        |i: int| ' ',
    )
}

/// The word for a status.
pub open spec fn tag(s: Status) -> Seq<char> {
    match s {
        Status::Pass => "PASS"@,
        Status::Warn => "WARN"@,
        Status::Fail => "FAIL"@,
    }
}

/// The line for a check: its status, its name in a column of 22, its detail.
pub open spec fn check_line(c: Check) -> Seq<char> {
    tag(c.status) + "  "@ + c.name@ + spaces(22 - c.name@.len()) + " "@ + c.detail@
}

/// The lines for a fix.
pub open spec fn fix_lines(fix: Option<String>) -> Seq<Seq<char>> {
    match fix {
        Some(f) => text::lines(f@).map_values(|l: Seq<char>| "      fix: "@ + l),
        None => Seq::empty(),
    }
}

/// The lines for some checks.
pub open spec fn check_lines(cs: Seq<Check>) -> Seq<Seq<char>>
    decreases cs.len(),
{
    if cs.len() == 0 {
        Seq::empty()
    } else {
        check_lines(cs.drop_last()).push(check_line(cs.last())) + fix_lines(cs.last().fix)
    }
}

/// Number of checks that failed.
pub open spec fn failures(cs: Seq<Check>) -> nat
    decreases cs.len(),
{
    if cs.len() == 0 {
        0
    } else {
        failures(cs.drop_last()) + if cs.last().status is Fail {
            1nat
        } else {
            0nat
        }
    }
}

/// The line at the end.
pub open spec fn verdict_line(n: nat) -> Seq<char> {
    if n == 0 {
        "All checks passed."@
    } else {
        text::decimal(n) + " check(s) failed."@
    }
}

fn line_of(c: &Check) -> (r: String)
    ensures
        r@ == check_line(*c),
{
    let mut out = match c.status {
        Status::Pass => "PASS",
        Status::Warn => "WARN",
        Status::Fail => "FAIL",
    }.to_owned();
    out.append("  ");
    out.append(c.name);
    let name = text::chars_of(c.name);
    let ghost start = out@;
    let mut k = name.len();
    assert(start + spaces(name@.len() - name@.len()) =~= start);
    while k < 22
        invariant
            name@.len() <= k,
            k <= 22 || k == name@.len(),
            out@ == start + spaces(k - name@.len()),
        decreases 22 - k,
    {
        out.push(' ');
        assert(out@ =~= start + spaces(k + 1 - name@.len()));
        k = k + 1;
    }
    assert(spaces(k - name@.len()) =~= spaces(22 - name@.len()));
    out.append(" ");
    out.append(c.detail.as_str());
    assert(out@ =~= check_line(*c));
    out
}

/// The report: a line per check with the lines of its fix, an empty line and the verdict. With
/// it, whether nothing failed.
pub fn report(checks: &Vec<Check>) -> (r: (Vec<String>, bool))
    ensures
        text::strings(r.0@) == check_lines(checks@).push(Seq::empty()).push(
            verdict_line(failures(checks@)),
        ),
        r.1 == (failures(checks@) == 0),
{
    let mut out: Vec<String> = Vec::new();
    let mut failed: usize = 0;
    assert(checks@.take(0) =~= Seq::empty());
    assert(text::strings(out@) =~= check_lines(checks@.take(0)));
    for i in 0..checks.len()
        invariant
            text::strings(out@) == check_lines(checks@.take(i as int)),
            failed == failures(checks@.take(i as int)),
            failed <= i,
    {
        assert(checks@.take(i + 1).drop_last() =~= checks@.take(i as int));
        let ghost before = text::strings(out@);
        let line = line_of(&checks[i]);
        out.push(line);
        assert(text::strings(out@) =~= before.push(check_line(checks@[i as int])));
        if let Status::Fail = checks[i].status {
            failed = failed + 1;
        }
        let ghost head = text::strings(out@);
        match &checks[i].fix {
            Some(fix) => {
                let ls = text::lines_of(fix.as_str());
                let ghost all = text::lines(fix@);
                let ghost shown = all.map_values(|l: Seq<char>| "      fix: "@ + l);
                assert(text::strings(out@) =~= head + shown.take(0));
                for k in 0..ls.len()
                    invariant
                        text::texts(ls@) == all,
                        shown == all.map_values(|l: Seq<char>| "      fix: "@ + l),
                        text::strings(out@) == head + shown.take(k as int),
                {
                    let ghost so_far = text::strings(out@);
                    let mut line = text::chars_of("      fix: ");
                    text::push_all(&mut line, ls[k].as_slice());
                    let line = text::string_of(line.as_slice());
                    assert(all[k as int] == ls@[k as int]@);
                    assert(line@ == shown[k as int]);
                    out.push(line);
                    assert(text::strings(out@) =~= so_far.push(shown[k as int]));
                    assert(text::strings(out@) =~= head + shown.take(k + 1));
                }
                assert(shown.take(shown.len() as int) =~= shown);
            },
            None => {
                assert(head + Seq::<Seq<char>>::empty() =~= head);
            },
        }
    }
    assert(checks@.take(checks@.len() as int) =~= checks@);
    let ghost lines = text::strings(out@);
    out.push(String::new());
    let last = if failed == 0 {
        "All checks passed.".to_owned()
    } else {
        let mut s = text::decimal_string(failed as u64);
        s.append(" check(s) failed.");
        s
    };
    out.push(last);
    assert(text::strings(out@) =~= lines.push(Seq::empty()).push(
        verdict_line(failures(checks@)),
    ));
    (out, failed == 0)
}

// ------------------------------------------------------------------------------------------
// Display
// ------------------------------------------------------------------------------------------
pub fn check_vkms_module(loaded: bool) -> (r: Check)
    ensures
        loaded ==> r.passed("vkms module"@, "loaded"@),
        !loaded ==> r.says(
            Status::Fail,
            "vkms module"@,
            "not loaded"@,
            "sudo modprobe vkms   (persisted by `sudo ./server setup` via /etc/modules-load.d/vmdesk.conf)"@,
        ),
{
    if loaded {
        pass("vkms module", "loaded".to_owned())
    } else {
        fail(
            "vkms module",
            "not loaded".to_owned(),
            "sudo modprobe vkms   (persisted by `sudo ./server setup` via /etc/modules-load.d/vmdesk.conf)".to_owned(),
        )
    }
}

/// The vkms card was found.
pub fn vkms_card_found(path: &str, driver: &str, connectors: &Vec<String>) -> (r: Check)
    ensures
        r.passed(
            "vkms card"@,
            path@ + " (driver "@ + driver@ + ", connectors "@ + crate::server::capture::list_text(
                text::strings(connectors@),
            ) + ")"@,
        ),
{
    let mut d = path.to_owned();
    d.append(" (driver ");
    d.append(driver);
    d.append(", connectors ");
    push_list(&mut d, connectors);
    d.append(")");
    pass("vkms card", d)
}

/// The vkms card was not found.
pub fn vkms_card_missing(reason: String) -> (r: Check)
    ensures
        r.says(
            Status::Fail,
            "vkms card"@,
            reason@,
            "sudo modprobe vkms; if another DRM device is present set capture.card in the config"@,
        ),
{
    fail(
        "vkms card",
        reason,
        "sudo modprobe vkms; if another DRM device is present set capture.card in the config".to_owned(),
    )
}

/// The display is active.
pub fn display_active(name: &str, width: u32, height: u32, refresh: u32, connector: &str) -> (r:
    Check)
    ensures
        r.passed(
            "Xorg on vkms"@,
            name@ + " active, "@ + text::decimal(width as nat) + "x"@ + text::decimal(
                height as nat,
            ) + "@"@ + text::decimal(refresh as nat) + "Hz"@ + if connector@.len() == 0 {
                " (connector selected by type)"@
            } else {
                Seq::empty()
            },
        ),
{
    let mut d = name.to_owned();
    d.append(" active, ");
    text::push_decimal(&mut d, width as u64);
    d.append("x");
    text::push_decimal(&mut d, height as u64);
    d.append("@");
    text::push_decimal(&mut d, refresh as u64);
    d.append("Hz");
    let ghost start = d@;
    if text::is_empty(connector) {
        d.append(" (connector selected by type)");
    }
    assert(start + Seq::<char>::empty() =~= start);
    pass("Xorg on vkms", d)
}

/// The fix for a display that is not active.
pub open spec fn display_fix(connector: Seq<char>) -> Seq<char> {
    if connector.len() == 0 {
        "Is the desktop up? systemctl status lightdm; journalctl -u lightdm -b; grep -E '\\(EE\\)|vkms' /var/log/Xorg.0.log\nAfter `sudo ./server setup` a reboot is needed once."@
    } else {
        "capture.connector = \""@ + connector
            + "\" is set in the config; use \"\" to pick the vkms Virtual-* connector automatically.\nAlso: systemctl status lightdm; journalctl -u lightdm -b; grep -E '\\(EE\\)|vkms' /var/log/Xorg.0.log"@
    }
}

/// The display is not active.
pub fn display_missing(reason: String, connector: &str) -> (r: Check)
    ensures
        r.says(Status::Fail, "Xorg on vkms"@, reason@, display_fix(connector@)),
{
    let fix = if text::is_empty(connector) {
        "Is the desktop up? systemctl status lightdm; journalctl -u lightdm -b; grep -E '\\(EE\\)|vkms' /var/log/Xorg.0.log\nAfter `sudo ./server setup` a reboot is needed once.".to_owned()
    } else {
        joined3(
            "capture.connector = \"",
            connector,
            "\" is set in the config; use \"\" to pick the vkms Virtual-* connector automatically.\nAlso: systemctl status lightdm; journalctl -u lightdm -b; grep -E '\\(EE\\)|vkms' /var/log/Xorg.0.log",
        )
    };
    fail("Xorg on vkms", reason, fix)
}

/// A frame was captured in that time.
pub fn capture_works(width: usize, height: usize, format: &str, pitch: usize, took: Nanos) -> (r:
    Check)
    ensures
        r.passed(
            "framebuffer capture"@,
            text::decimal(width as nat) + "x"@ + text::decimal(height as nat) + " "@ + format@
                + " pitch "@ + text::decimal(pitch as nat) + " in "@
                + crate::server::pipeline::tenths_text(
                text::rounded(took as int, 100_000),
            ) + " ms"@,
        ),
{
    let mut d = text::decimal_string(width as u64);
    d.append("x");
    text::push_decimal(&mut d, height as u64);
    d.append(" ");
    d.append(format);
    d.append(" pitch ");
    text::push_decimal(&mut d, pitch as u64);
    d.append(" in ");
    push_tenths(&mut d, text::rounded_quotient(took as u128, 100_000) as u64);
    d.append(" ms");
    pass("framebuffer capture", d)
}

/// No frame could be captured.
pub fn capture_fails(reason: String) -> (r: Check)
    ensures
        r.says(
            Status::Fail,
            "framebuffer capture"@,
            reason@,
            "GETFB2 needs CAP_SYS_ADMIN: sudo setcap cap_sys_admin+ep <this binary>, or run `sudo ./server setup`"@,
        ),
{
    fail(
        "framebuffer capture",
        reason,
        "GETFB2 needs CAP_SYS_ADMIN: sudo setcap cap_sys_admin+ep <this binary>, or run `sudo ./server setup`".to_owned(),
    )
}

// ------------------------------------------------------------------------------------------
// Permissions
// ------------------------------------------------------------------------------------------
/// The bit of `CAP_SYS_ADMIN`, number 21 of the capability set.
pub const CAP_SYS_ADMIN: u64 = 0x20_0000;

/// The 64-bit number that hexadecimal digits stand for, with or without a plus sign.
pub open spec fn hex64(s: Seq<char>) -> Option<int> {
    let d = if s.len() > 0 && s[0] == '+' {
        s.skip(1)
    } else {
        s
    };
    match ip::number(d, 16) {
        Some(n) if d.len() > 0 && n <= u64::MAX => Some(n),
        _ => None,
    }
}

proof fn lemma_number_grows(s: Seq<char>, i: int)
    requires
        0 <= i <= s.len(),
        ip::number(s, 16) is Some,
    ensures
        ip::number(s.take(i), 16) is Some,
        0 <= ip::number(s.take(i), 16)->0 <= ip::number(s, 16)->0,
    decreases s.len() - i,
{
    if i < s.len() {
        lemma_number_grows(s, i + 1);
        assert(s.take(i + 1).drop_last() =~= s.take(i));
        lemma_number_nonneg(s.take(i));
    } else {
        assert(s.take(i) =~= s);
        lemma_number_nonneg(s);
    }
}

proof fn lemma_number_nonneg(s: Seq<char>)
    ensures
        ip::number(s, 16) matches Some(n) ==> n >= 0,
    decreases s.len(),
{
    if s.len() > 0 {
        lemma_number_nonneg(s.drop_last());
    }
}

fn read_hex64(s: &[char]) -> (r: Option<u64>)
    ensures
        match r {
            Some(n) => hex64(s@) == Some(n as int),
            None => hex64(s@) is None,
        },
{
    let start: usize = if s.len() > 0 && s[0] == '+' {
        1
    } else {
        0
    };
    let ghost d = s@.skip(start as int);
    assert(start == 0 ==> d =~= s@);
    if start == s.len() {
        return None;
    }
    let mut n: u64 = 0;
    assert(d.take(0) =~= Seq::empty());
    for i in start..s.len()
        invariant
            start <= s.len(),
            d == s@.skip(start as int),
            hex64(s@) == (match ip::number(d, 16) {
                Some(v) if d.len() > 0 && v <= u64::MAX => Some(v),
                _ => None,
            }),
            ip::number(d.take(i - start), 16) == Some(n as int),
    {
        let ghost k = i - start;
        assert(d.take(k + 1).drop_last() =~= d.take(k));
        assert(d.take(k + 1).last() == s@[i as int]);
        proof {
            if ip::number(d, 16) is Some {
                lemma_number_grows(d, k + 1);
            }
        }
        match ip::digit_of(s[i], 16) {
            Some(v) => {
                if n > (u64::MAX - v as u64) / 16 {
                    return None;
                }
                n = n * 16 + v as u64;
            },
            None => {
                return None;
            },
        }
    }
    assert(d.take(d.len() as int) =~= d);
    Some(n)
}

/// A line with the effective capabilities.
pub open spec fn cap_line(l: Seq<char>) -> bool {
    "CapEff:"@.is_prefix_of(l)
}

/// The effective capabilities of a process: those in the first `CapEff:` line of its status,
/// none if there is no such line or it cannot be read.
pub open spec fn cap_eff(ls: Seq<Seq<char>>) -> int
    decreases ls.len(),
{
    if ls.len() == 0 {
        0
    } else if cap_line(ls[0]) {
        match hex64(text::trim(ls[0].skip("CapEff:"@.len() as int))) {
            Some(n) => n,
            None => 0,
        }
    } else {
        cap_eff(ls.drop_first())
    }
}

/// The effective capabilities of a process, from its status.
pub fn effective_capabilities(status: &str) -> (r: u64)
    ensures
        r == cap_eff(text::lines(status@)),
{
    let ls = text::lines_of(status);
    let prefix = text::chars_of("CapEff:");
    let ghost all = text::lines(status@);
    assert(all.skip(0) =~= all);
    let mut i: usize = 0;
    while i < ls.len()
        invariant
            text::texts(ls@) == all,
            prefix@ == "CapEff:"@,
            i <= ls@.len(),
            cap_eff(text::lines(status@)) == cap_eff(all.skip(i as int)),
        decreases ls@.len() - i,
    {
        let ghost rest = all.skip(i as int);
        assert(rest[0] == ls@[i as int]@);
        assert(rest.drop_first() =~= all.skip(i + 1));
        if text::is_at(ls[i].as_slice(), prefix.as_slice(), 0) {
            let v = text::part(ls[i].as_slice(), prefix.len(), ls[i].len());
            assert(v@ =~= rest[0].skip("CapEff:"@.len() as int));
            let v = text::trimmed(v.as_slice());
            return match read_hex64(v.as_slice()) {
                Some(n) => n,
                None => 0,
            };
        }
        i = i + 1;
    }
    0
}

/// The capability is among these.
pub open spec fn has_sys_admin(caps: int) -> bool {
    caps / CAP_SYS_ADMIN as int % 2 == 1
}

pub fn check_capability(root: bool, status: &str, exe: &str) -> (r: Check)
    ensures
        root ==> r.passed("CAP_SYS_ADMIN"@, "running as root"@),
        !root && has_sys_admin(cap_eff(text::lines(status@))) ==> r.passed(
            "CAP_SYS_ADMIN"@,
            "effective (file capability)"@,
        ),
        !root && !has_sys_admin(cap_eff(text::lines(status@))) ==> r.says(
            Status::Fail,
            "CAP_SYS_ADMIN"@,
            "not in the effective capability set"@,
            "sudo setcap cap_sys_admin+ep "@ + exe@
                + "   (the systemd service gets it via AmbientCapabilities)"@,
        ),
{
    if root {
        return pass("CAP_SYS_ADMIN", "running as root".to_owned());
    }
    if effective_capabilities(status) / CAP_SYS_ADMIN % 2 == 1 {
        pass("CAP_SYS_ADMIN", "effective (file capability)".to_owned())
    } else {
        fail(
            "CAP_SYS_ADMIN",
            "not in the effective capability set".to_owned(),
            joined3(
                "sudo setcap cap_sys_admin+ep ",
                exe,
                "   (the systemd service gets it via AmbientCapabilities)",
            ),
        )
    }
}

/// What came of looking at `/dev/uinput`.
pub enum Uinput {
    Missing,
    Writable,
    /// It cannot be opened, for this reason.
    Refused(String),
}

pub fn check_uinput(uinput: Uinput) -> (r: Check)
    ensures
        match uinput {
            Uinput::Missing => r.says(
                Status::Fail,
                "/dev/uinput"@,
                "missing"@,
                "sudo modprobe uinput   (persisted by setup via /etc/modules-load.d/vmdesk.conf)"@,
            ),
            Uinput::Writable => r.passed("/dev/uinput"@, "writable"@),
            Uinput::Refused(e) => r.says(
                Status::Fail,
                "/dev/uinput"@,
                "not writable: "@ + e@,
                "sudo ./server setup installs "@ + UDEV_RULE@
                    + " and adds you to group input; re-login afterwards.\nQuick fix: sudo chgrp input /dev/uinput && sudo chmod 660 /dev/uinput"@,
            ),
        },
{
    match uinput {
        Uinput::Missing => fail(
            "/dev/uinput",
            "missing".to_owned(),
            "sudo modprobe uinput   (persisted by setup via /etc/modules-load.d/vmdesk.conf)".to_owned(),
        ),
        Uinput::Writable => pass("/dev/uinput", "writable".to_owned()),
        Uinput::Refused(e) => fail(
            "/dev/uinput",
            joined2("not writable: ", e.as_str()),
            joined3(
                "sudo ./server setup installs ",
                UDEV_RULE,
                " and adds you to group input; re-login afterwards.\nQuick fix: sudo chgrp input /dev/uinput && sudo chmod 660 /dev/uinput",
            ),
        ),
    }
}

/// A line of `/etc/group` lists the user as a member of a group.
pub open spec fn lists_member(line: Seq<char>, group: Seq<char>, user: Seq<char>) -> bool {
    let f = crate::server::setup::fields(line);
    f[0] == group && f.len() > 3 && text::split(f[3], text::Separator::Is(',')).contains(user)
}

/// The user is a member of a group.
pub open spec fn is_member(groups: Seq<char>, group: Seq<char>, user: Seq<char>) -> bool {
    exists|i: int|
        0 <= i < text::lines(groups).len() && lists_member(
            #[trigger] text::lines(groups)[i],
            group,
            user,
        )
}

fn has_text(v: &Vec<Vec<char>>, s: &[char]) -> (r: bool)
    ensures
        r == text::texts(v@).contains(s@),
{
    for i in 0..v.len()
        invariant
            forall|j: int| 0 <= j < i ==> text::texts(v@)[j] != s@,
    {
        assert(text::texts(v@)[i as int] == v@[i as int]@);
        if text::same(v[i].as_slice(), s) {
            return true;
        }
    }
    false
}

/// Whether the user is a member of a group.
pub fn member(groups: &str, group: &str, user: &str) -> (r: bool)
    ensures
        r == is_member(groups@, group@, user@),
{
    let ls = text::lines_of(groups);
    let g = text::chars_of(group);
    let u = text::chars_of(user);
    let ghost all = text::lines(groups@);
    for i in 0..ls.len()
        invariant
            text::texts(ls@) == all,
            all == text::lines(groups@),
            g@ == group@,
            u@ == user@,
            forall|j: int| 0 <= j < i ==> !lists_member(#[trigger] all[j], group@, user@),
    {
        assert(all[i as int] == ls@[i as int]@);
        let f = text::split_at(ls[i].as_slice(), text::Separator::Is(':'));
        let ghost fs = text::texts(f@);
        proof {
            text::lemma_split_nonempty(all[i as int], text::Separator::Is(':'));
            assert(fs[0] == f@[0]@);
        }
        if text::same(f[0].as_slice(), g.as_slice()) && f.len() > 3 {
            assert(fs[3] == f@[3]@);
            let members = text::split_at(f[3].as_slice(), text::Separator::Is(','));
            if has_text(&members, u.as_slice()) {
                assert(lists_member(text::lines(groups@)[i as int], group@, user@));
                return true;
            }
        }
    }
    false
}

/// The groups that the user is missing from, as they are listed.
pub open spec fn missing_groups(groups: Seq<char>, user: Seq<char>) -> Seq<char> {
    let input = is_member(groups, "input"@, user);
    let video = is_member(groups, "video"@, user);
    if !input && !video {
        "input, video"@
    } else if !input {
        "input"@
    } else if !video {
        "video"@
    } else {
        Seq::empty()
    }
}

pub fn check_groups(root: bool, groups: &str, user: &str) -> (r: Check)
    ensures
        root ==> r.passed("groups"@, "root (group membership not needed)"@),
        !root && is_member(groups@, "input"@, user@) && is_member(groups@, "video"@, user@)
            ==> r.passed("groups"@, user@ + " is in input and video"@),
        !root && !(is_member(groups@, "input"@, user@) && is_member(groups@, "video"@, user@))
            ==> r.says(
            Status::Warn,
            "groups"@,
            user@ + " is not in "@ + missing_groups(groups@, user@),
            "sudo usermod -aG input,video "@ + user@ + "; then log out and in again"@,
        ),
{
    if root {
        return pass("groups", "root (group membership not needed)".to_owned());
    }
    let input = member(groups, "input", user);
    let video = member(groups, "video", user);
    if input && video {
        return pass("groups", joined2(user, " is in input and video"));
    }
    let missing = if !input && !video {
        "input, video"
    } else if !input {
        "input"
    } else {
        "video"
    };
    warn(
        "groups",
        joined3(user, " is not in ", missing),
        joined3("sudo usermod -aG input,video ", user, "; then log out and in again"),
    )
}

pub fn check_xorg_conf(present: bool) -> (r: Check)
    ensures
        present ==> r.passed("xorg.conf.d"@, XORG_CONF@ + " present"@),
        !present ==> r.says(
            Status::Warn,
            "xorg.conf.d"@,
            XORG_CONF@ + " missing"@,
            "sudo ./server setup"@,
        ),
{
    if present {
        pass("xorg.conf.d", joined2(XORG_CONF, " present"))
    } else {
        warn("xorg.conf.d", joined2(XORG_CONF, " missing"), "sudo ./server setup".to_owned())
    }
}

// ------------------------------------------------------------------------------------------
// Network
// ------------------------------------------------------------------------------------------
/// The public IPv4 from the configuration; else it has to be found out.
pub fn configured_ipv4(config: &Config) -> (r: Option<Check>)
    ensures
        r is Some <==> config.network.public_ip@.len() > 0,
        r matches Some(c) ==> c.passed("public IPv4"@, config.network.public_ip@ + " (config)"@),
{
    if text::is_empty(config.network.public_ip.as_str()) {
        return None;
    }
    Some(pass("public IPv4", joined2(config.network.public_ip.as_str(), " (config)")))
}

/// The metadata service could not even be asked.
pub fn runtime_failed(reason: &str) -> (r: Check)
    ensures
        r.says(Status::Fail, "public IPv4"@, "runtime error: "@ + reason@, "retry"@),
{
    fail("public IPv4", joined2("runtime error: ", reason), "retry".to_owned())
}

/// What the metadata service said about the public IPv4.
pub fn detected_ipv4(result: Result<String, String>) -> (r: Check)
    ensures
        match result {
            Ok(ip) => r.passed("public IPv4"@, ip@ + " (OCI metadata)"@),
            Err(e) => r.says(
                Status::Fail,
                "public IPv4"@,
                e@,
                "sudo ./server setup --skip-apt --public-ip <VM public IPv4>   (writes network.public_ip and restarts the service)"@,
            ),
        },
{
    match result {
        Ok(ip) => pass("public IPv4", joined2(ip.as_str(), " (OCI metadata)")),
        Err(e) => fail(
            "public IPv4",
            e,
            "sudo ./server setup --skip-apt --public-ip <VM public IPv4>   (writes network.public_ip and restarts the service)".to_owned(),
        ),
    }
}

/// `local` is the global IPv6 address found on an interface.
pub fn check_ipv6(config: &Config, local: Option<&str>) -> (r: Check)
    ensures
        !config.network.ipv6 ==> r.passed("IPv6"@, "disabled in config (IPv4 only)"@),
        config.network.ipv6 && config.network.public_ipv6@.len() > 0 ==> r.passed(
            "IPv6"@,
            config.network.public_ipv6@ + " (config override)"@,
        ),
        config.network.ipv6 && config.network.public_ipv6@.len() == 0 ==> match local {
            Some(ip) => r.passed(
                "IPv6"@,
                ip@ + " (interface, advertised as a host candidate)"@,
            ),
            None => r.says(
                Status::Warn,
                "IPv6"@,
                "no global IPv6 address on any interface; IPv4 only"@,
                "fine if the VM has no IPv6; otherwise check the VNIC's IPv6 assignment, or set network.ipv6 = false"@,
            ),
        },
{
    if !config.network.ipv6 {
        return pass("IPv6", "disabled in config (IPv4 only)".to_owned());
    }
    if !text::is_empty(config.network.public_ipv6.as_str()) {
        return pass("IPv6", joined2(config.network.public_ipv6.as_str(), " (config override)"));
    }
    match local {
        Some(ip) => pass("IPv6", joined2(ip, " (interface, advertised as a host candidate)")),
        None => warn(
            "IPv6",
            "no global IPv6 address on any interface; IPv4 only".to_owned(),
            "fine if the VM has no IPv6; otherwise check the VNIC's IPv6 assignment, or set network.ipv6 = false".to_owned(),
        ),
    }
}

/// A rule accepts UDP on the ports.
pub open spec fn accepts(line: Seq<char>, ports: Seq<char>) -> bool {
    text::contains(line, "-p udp"@) && text::contains(line, "--dport "@ + ports) && text::contains(
        line,
        "-j ACCEPT"@,
    )
}

/// A rule refuses what no rule before it has taken.
pub open spec fn refuses(line: Seq<char>) -> bool {
    (text::contains(line, "-j REJECT"@) || text::contains(line, "-j DROP"@)) && !text::contains(
        line,
        "--dport"@,
    )
}

/// Line `i` is the first that accepts.
pub open spec fn first_accept(ls: Seq<Seq<char>>, ports: Seq<char>, i: int) -> bool {
    &&& 0 <= i < ls.len()
    &&& accepts(ls[i], ports)
    &&& forall|j: int| 0 <= j < i ==> !accepts(#[trigger] ls[j], ports)
}

/// What the rules do with UDP on the ports.
#[derive(Debug, Clone, Copy, PartialEq, Eq, Structural)]
pub enum Rules {
    /// They accept it.
    Accept,
    /// They accept it, but refuse before.
    TooLate,
    /// No rule accepts it.
    Missing,
}

/// Looks through the rules of a chain.
pub fn read_rules(listing: &str, ports: &str) -> (r: Rules)
    ensures
        ({
            let ls = text::lines(listing@);
            match r {
                Rules::Missing => forall|i: int|
                    0 <= i < ls.len() ==> !accepts(#[trigger] ls[i], ports@),
                Rules::TooLate => exists|i: int, k: int|
                    first_accept(ls, ports@, i) && 0 <= k < i && #[trigger] refuses(ls[k])
                        && #[trigger] accepts(ls[i], ports@),
                Rules::Accept => exists|i: int| #[trigger]
                    first_accept(ls, ports@, i) && forall|k: int|
                        0 <= k < i ==> !refuses(#[trigger] ls[k]),
            }
        }),
{
    let ls = text::lines_of(listing);
    let ghost all = text::lines(listing@);
    let udp = text::chars_of("-p udp");
    let mut dport = text::chars_of("--dport ");
    text::push_str(&mut dport, ports);
    let accept = text::chars_of("-j ACCEPT");
    let reject = text::chars_of("-j REJECT");
    let drop = text::chars_of("-j DROP");
    let any_port = text::chars_of("--dport");
    let mut refused = false;
    let ghost mut refused_at: int = 0;
    for i in 0..ls.len()
        invariant
            text::texts(ls@) == all,
            all == text::lines(listing@),
            udp@ == "-p udp"@,
            dport@ == "--dport "@ + ports@,
            accept@ == "-j ACCEPT"@,
            reject@ == "-j REJECT"@,
            drop@ == "-j DROP"@,
            any_port@ == "--dport"@,
            forall|j: int| 0 <= j < i ==> !accepts(#[trigger] all[j], ports@),
            refused ==> 0 <= refused_at < i && refuses(all[refused_at]),
            !refused ==> forall|j: int| 0 <= j < i ==> !refuses(#[trigger] all[j]),
    {
        let line = &ls[i];
        assert(all[i as int] == line@);
        if text::has(line.as_slice(), udp.as_slice()) && text::has(
            line.as_slice(),
            dport.as_slice(),
        ) && text::has(line.as_slice(), accept.as_slice()) {
            assert(first_accept(all, ports@, i as int));
            if refused {
                assert(refuses(all[refused_at]) && accepts(all[i as int], ports@));
                return Rules::TooLate;
            }
            return Rules::Accept;
        }
        if !refused && (text::has(line.as_slice(), reject.as_slice()) || text::has(
            line.as_slice(),
            drop.as_slice(),
        )) && !text::has(line.as_slice(), any_port.as_slice()) {
            refused = true;
            proof {
                refused_at = i as int;
            }
        }
    }
    Rules::Missing
}

/// What came of listing the rules.
pub enum RuleListing {
    /// The rules of the INPUT chain.
    Rules(String),
    /// The tool refused, for this reason.
    Refused(String),
    /// The tool could not be run, for this reason.
    NotRunnable(String),
}

/// The fix for a firewall without the rule.
pub open spec fn firewall_fix(tool: Seq<char>, ports: Seq<char>) -> Seq<char> {
    "sudo "@ + tool + " -I INPUT 1 -p udp -m udp --dport "@ + ports
        + " -j ACCEPT && sudo netfilter-persistent save"@
}

/// Checks the INPUT chain of `tool` (`iptables` or `ip6tables`) for the UDP ACCEPT rule.
pub fn check_firewall(tool: &'static str, min: u16, max: u16, listing: RuleListing) -> (r: Check)
    ensures
        ({
            let ports = crate::server::setup::port_range(min, max);
            match listing {
                RuleListing::Refused(e) => r.says(
                    Status::Warn,
                    tool@,
                    "cannot list rules ("@ + text::trim(e@) + ")"@,
                    "run `sudo ./server doctor` to check the firewall"@,
                ),
                RuleListing::NotRunnable(e) => r.says(
                    Status::Warn,
                    tool@,
                    tool@ + " not runnable: "@ + e@,
                    firewall_fix(tool@, ports),
                ),
                RuleListing::Rules(text) => {
                    let ls = text::lines(text@);
                    if forall|i: int| 0 <= i < ls.len() ==> !accepts(#[trigger] ls[i], ports) {
                        r.says(
                            Status::Fail,
                            tool@,
                            "no ACCEPT rule for UDP "@ + ports,
                            firewall_fix(tool@, ports),
                        )
                    } else if exists|i: int, k: int|
                        first_accept(ls, ports, i) && 0 <= k < i && #[trigger] refuses(ls[k])
                            && #[trigger] accepts(ls[i], ports) {
                        r.says(
                            Status::Fail,
                            tool@,
                            "UDP "@ + ports + " ACCEPT rule comes after a REJECT/DROP rule"@,
                            firewall_fix(tool@, ports),
                        )
                    } else {
                        r.passed(tool@, "UDP "@ + ports + " accepted"@)
                    }
                },
            }
        }),
{
    let ports = port_range_text(min, max);
    let mut fix = joined3("sudo ", tool, " -I INPUT 1 -p udp -m udp --dport ");
    fix.append(ports.as_str());
    fix.append(" -j ACCEPT && sudo netfilter-persistent save");
    assert(fix@ =~= firewall_fix(tool@, ports@));
    match listing {
        RuleListing::Refused(e) => {
            let chars = text::chars_of(e.as_str());
            let shown = text::trimmed(chars.as_slice());
            let shown = text::string_of(shown.as_slice());
            warn(
                tool,
                joined3("cannot list rules (", shown.as_str(), ")"),
                "run `sudo ./server doctor` to check the firewall".to_owned(),
            )
        },
        RuleListing::NotRunnable(e) => warn(
            tool,
            joined3(tool, " not runnable: ", e.as_str()),
            fix,
        ),
        RuleListing::Rules(text) => {
            let ghost ls = text::lines(text@);
            let rules = read_rules(text.as_str(), ports.as_str());
            match rules {
                Rules::Missing => fail(
                    tool,
                    joined2("no ACCEPT rule for UDP ", ports.as_str()),
                    fix,
                ),
                Rules::TooLate => fail(
                    tool,
                    joined3(
                        "UDP ",
                        ports.as_str(),
                        " ACCEPT rule comes after a REJECT/DROP rule",
                    ),
                    fix,
                ),
                Rules::Accept => {
                    proof {
                        let i = choose|i: int| #[trigger]
                            first_accept(ls, ports@, i) && forall|k: int|
                                0 <= k < i ==> !refuses(#[trigger] ls[k]);
                        assert(accepts(ls[i], ports@));
                        if exists|j: int, k: int|
                            first_accept(ls, ports@, j) && 0 <= k < j && #[trigger] refuses(ls[k])
                                && #[trigger] accepts(ls[j], ports@) {
                            let (j, k) = choose|j: int, k: int|
                                first_accept(ls, ports@, j) && 0 <= k < j && #[trigger] refuses(
                                    ls[k],
                                ) && #[trigger] accepts(ls[j], ports@);
                            if j < i {
                                assert(!accepts(ls[j], ports@));
                            } else if i < j {
                                assert(!accepts(ls[i], ports@));
                            }
                            assert(!refuses(ls[k]));
                        }
                    }
                    pass(tool, joined3("UDP ", ports.as_str(), " accepted"))
                },
            }
        },
    }
}

/// The request that asks whether a server is there.
pub fn health_request(addr: &str) -> (r: String)
    ensures
        r@ == "GET "@ + HEALTH_PATH@ + " HTTP/1.1\r\nHost: "@ + addr@
            + "\r\nConnection: close\r\n\r\n"@,
{
    let mut out = joined3("GET ", HEALTH_PATH, " HTTP/1.1\r\nHost: ");
    out.append(addr);
    out.append("\r\nConnection: close\r\n\r\n");
    out
}

/// A reply is that of a server of ours.
pub open spec fn is_ours(reply: Seq<char>) -> bool {
    text::contains(reply, HEALTH_BODY@) && "HTTP/1.1 200"@.is_prefix_of(reply)
}

/// `reply` is what answered on the port, `None` if nothing listens there.
pub fn check_signalling_port(addr: &str, reply: Option<&str>) -> (r: Check)
    ensures
        match reply {
            None => r.passed("signalling port"@, addr@ + " free (server not running)"@),
            Some(text) => if is_ours(text@) {
                r.passed("signalling port"@, addr@ + ": vmdesk server is running"@)
            } else {
                r.says(
                    Status::Fail,
                    "signalling port"@,
                    addr@ + " is used by another program"@,
                    "stop that program or change network.signalling_addr (and the ssh -L port)"@,
                )
            },
        },
{
    match reply {
        None => pass("signalling port", joined2(addr, " free (server not running)")),
        Some(text) => {
            let chars = text::chars_of(text);
            if text::has_str(text, HEALTH_BODY) && text::starts_with(
                chars.as_slice(),
                "HTTP/1.1 200",
            ) {
                pass("signalling port", joined2(addr, ": vmdesk server is running"))
            } else {
                fail(
                    "signalling port",
                    joined2(addr, " is used by another program"),
                    "stop that program or change network.signalling_addr (and the ssh -L port)".to_owned(),
                )
            }
        },
    }
}

pub fn check_service(active: &str, enabled: &str) -> (r: Check)
    ensures
        ({
            let detail = "active: "@ + active@ + ", enabled: "@ + enabled@;
            if active@ == "active"@ && enabled@ == "enabled"@ {
                r.passed("systemd service"@, detail)
            } else {
                r.says(
                    Status::Warn,
                    "systemd service"@,
                    detail,
                    "sudo ./server setup   or   sudo systemctl enable --now vmdesk; journalctl -u vmdesk -b"@,
                )
            }
        }),
{
    let mut detail = joined3("active: ", active, ", enabled: ");
    detail.append(enabled);
    if text::same_str(active, "active") && text::same_str(enabled, "enabled") {
        pass("systemd service", detail)
    } else {
        warn(
            "systemd service",
            detail,
            "sudo ./server setup   or   sudo systemctl enable --now vmdesk; journalctl -u vmdesk -b".to_owned(),
        )
    }
}

// ------------------------------------------------------------------------------------------
// Speed
// ------------------------------------------------------------------------------------------
/// How often the conversion is timed.
pub const CONVERT_ITERATIONS: u64 = 10;

/// Frames pushed through the encoder by the self-test (about a second of video).
pub const ENCODER_TEST_FRAMES: usize = 30;

/// Copying and converting takes less than 12 ms per frame.
pub open spec fn converts_fast(copy_total: Nanos, convert_total: Nanos) -> bool {
    copy_total + convert_total < 12_000_000 * CONVERT_ITERATIONS
}

/// What is shown of the conversion: tenths of a millisecond per frame.
pub open spec fn convert_detail(copy_total: Nanos, convert_total: Nanos, threads: usize) -> Seq<
    char,
> {
    "1080p copy "@ + crate::server::pipeline::tenths_text(
        text::rounded(copy_total as int, 1_000_000),
    ) + " ms + XRGB->I420 "@ + crate::server::pipeline::tenths_text(
        text::rounded(convert_total as int, 1_000_000),
    ) + " ms ("@ + "scalar"@ + " kernel, "@ + text::decimal(threads as nat) + " threads)"@
}

/// Copy + convert speed for a 1080p frame, timed [`CONVERT_ITERATIONS`] times: must stay far
/// below the frame time.
pub fn check_convert(copy_total: Nanos, convert_total: Nanos, threads: usize) -> (r: Check)
    ensures
        converts_fast(copy_total, convert_total) ==> r.passed(
            "frame conversion"@,
            convert_detail(copy_total, convert_total, threads),
        ),
        !converts_fast(copy_total, convert_total) ==> r.says(
            Status::Warn,
            "frame conversion"@,
            convert_detail(copy_total, convert_total, threads),
            "conversion is slow; check that the VM is not CPU starved (top) and report the numbers"@,
        ),
{
    let mut d = "1080p copy ".to_owned();
    push_tenths(&mut d, text::rounded_quotient(copy_total as u128, 1_000_000) as u64);
    d.append(" ms + XRGB->I420 ");
    push_tenths(&mut d, text::rounded_quotient(convert_total as u128, 1_000_000) as u64);
    d.append(" ms (");
    d.append(kernel_name());
    d.append(" kernel, ");
    text::push_decimal(&mut d, threads as u64);
    d.append(" threads)");
    assert(d@ =~= convert_detail(copy_total, convert_total, threads));
    if (copy_total as u128) + (convert_total as u128) < 12_000_000 * CONVERT_ITERATIONS as u128 {
        pass("frame conversion", d)
    } else {
        warn(
            "frame conversion",
            d,
            "conversion is slow; check that the VM is not CPU starved (top) and report the numbers".to_owned(),
        )
    }
}

/// The settings that the encoder is tested with.
pub fn encoder_test_settings(config: &Config) -> (r: EncoderSettings)
    ensures
        r == (EncoderSettings {
            width: 1920,
            height: 1080,
            fps: if config.video.fps == 0 {
                1
            } else {
                config.video.fps
            },
            bitrate_kbps: config.video.bitrate_kbps,
            keyframe_interval: config.video.keyframe_interval,
            threads: config.video.encoder_threads,
        }),
{
    EncoderSettings {
        width: 1920,
        height: 1080,
        fps: if config.video.fps == 0 {
            1
        } else {
            config.video.fps
        },
        bitrate_kbps: config.video.bitrate_kbps,
        keyframe_interval: config.video.keyframe_interval,
        threads: config.video.encoder_threads,
    }
}

/// The encoder could not be made.
pub fn encoder_missing(reason: String) -> (r: Check)
    ensures
        r.says(
            Status::Fail,
            "encoder"@,
            reason@,
            "report this: OpenH264 failed to initialise"@,
        ),
{
    fail("encoder", reason, "report this: OpenH264 failed to initialise".to_owned())
}

/// Looks at what came of test frame `i`: the test goes on (`None`), or ends with a failure. The
/// first frame has to be a keyframe, and none may be skipped. `reason` is why encoding failed.
pub fn judge_test_frame(i: usize, outcome: EncodeOutcome, reason: String) -> (r: Option<Check>)
    ensures
        match outcome {
            EncodeOutcome::Unit { keyframe, .. } => {
                &&& r is None <==> i > 0 || keyframe
                &&& r matches Some(c) ==> c.says(
                    Status::Fail,
                    "encoder"@,
                    "first frame is not an IDR"@,
                    "report this"@,
                )
            },
            EncodeOutcome::Skipped => r matches Some(c) && c.says(
                Status::Fail,
                "encoder"@,
                "frame "@ + text::decimal(i as nat) + " skipped"@,
                "report this"@,
            ),
            EncodeOutcome::Failed => r matches Some(c) && c.says(
                Status::Fail,
                "encoder"@,
                reason@,
                "report this"@,
            ),
        },
{
    match outcome {
        EncodeOutcome::Unit { bytes: _, keyframe } => {
            if i > 0 || keyframe {
                None
            } else {
                Some(
                    fail(
                        "encoder",
                        "first frame is not an IDR".to_owned(),
                        "report this".to_owned(),
                    ),
                )
            }
        },
        EncodeOutcome::Skipped => {
            let mut d = "frame ".to_owned();
            text::push_decimal(&mut d, i as u64);
            d.append(" skipped");
            Some(fail("encoder", d, "report this".to_owned()))
        },
        EncodeOutcome::Failed => Some(fail("encoder", reason, "report this".to_owned())),
    }
}

/// What the encoder test measured.
#[derive(Debug, Clone, Copy, PartialEq, Eq, Structural)]
pub struct EncoderTest {
    /// Time for all frames.
    pub total: Nanos,
    /// Longest time for one frame.
    pub max: Nanos,
    /// Size of the first frame.
    pub idr_bytes: u32,
    /// Size of all frames.
    pub total_bytes: u32,
    /// The frame rate that is wanted.
    pub fps: u32,
}

impl EncoderTest {
    /// A test at some frame rate, before the first frame.
    pub fn new(fps: u32) -> (r: Self)
        ensures
            r == (EncoderTest { total: 0, max: 0, idr_bytes: 0, total_bytes: 0, fps }),
    {
        EncoderTest { total: 0, max: 0, idr_bytes: 0, total_bytes: 0, fps }
    }

    /// The timestamp of frame `i` in milliseconds.
    pub fn pts_ms(&self, i: usize) -> (r: u64)
        requires
            self.fps > 0,
            i < ENCODER_TEST_FRAMES,
        ensures
            r == i * 1000 / self.fps as int,
    {
        (i as u64) * 1000 / (self.fps as u64)
    }

    /// Takes in frame `i`: its size and how long it took. Sizes stop at their largest value.
    pub fn record(&mut self, i: usize, bytes: usize, time: Nanos)
        ensures
            *final(self) == (EncoderTest {
                max: if time > old(self).max {
                    time
                } else {
                    old(self).max
                },
                idr_bytes: if i == 0 {
                    crate::server::pipeline::raised(0, bytes as nat)
                } else {
                    old(self).idr_bytes
                },
                total_bytes: crate::server::pipeline::raised(old(self).total_bytes, bytes as nat),
                ..*old(self)
            }),
    {
        if i == 0 {
            let mut size: u32 = 0;
            raise(&mut size, bytes);
            self.idr_bytes = size;
        }
        raise(&mut self.total_bytes, bytes);
        if time > self.max {
            self.max = time;
        }
    }

    /// All frames are done, and took that long together.
    pub fn finish(self, total: Nanos) -> (r: Self)
        ensures
            r == (EncoderTest { total, ..self }),
    {
        EncoderTest { total, ..self }
    }

    /// The time, but at least a microsecond.
    pub open spec fn time(self) -> int {
        if self.total < 1000 {
            1000
        } else {
            self.total as int
        }
    }

    /// The encoder does at least this many hundredths of the wanted frame rate.
    pub open spec fn reaches(self, hundredths: int) -> bool {
        ENCODER_TEST_FRAMES * 1_000_000_000 * 100 >= hundredths * self.fps * self.time()
    }

    /// What is shown of the test.
    pub open spec fn detail(self) -> Seq<char> {
        "OpenH264 1080p: "@ + text::decimal(
            text::rounded(30_000_000_000, self.time()) as nat,
        ) + " fps sustained ("@ + crate::server::pipeline::tenths_text(
            text::rounded(self.time(), 3_000_000),
        ) + " ms/frame avg, "@ + text::decimal(
            text::rounded(self.max as int, 1_000_000) as nat,
        ) + " ms max), IDR "@ + text::decimal(self.idr_bytes as nat) + " bytes, "@ + text::decimal(
            text::rounded(self.total_bytes * 8 * self.fps, 30_000) as nat,
        ) + " kbit/s at "@ + text::decimal(self.fps as nat) + " fps target"@
    }
}

/// What a second of moving 1080p video comes to: the sustained frame rate against the wanted
/// one.
pub fn judge_encoder(t: EncoderTest) -> (r: Check)
    ensures
        t.reaches(100) ==> r.passed("encoder"@, t.detail()),
        !t.reaches(100) && t.reaches(66) ==> r.says(
            Status::Warn,
            "encoder"@,
            t.detail(),
            "the encoder cannot keep up with video.fps; lower video.fps or set video.encoder_threads = 4"@,
        ),
        !t.reaches(66) ==> r.says(
            Status::Fail,
            "encoder"@,
            t.detail(),
            "far below the configured video.fps: check CPU load (top), lower video.fps or the resolution"@,
        ),
{
    let time: u64 = if t.total < 1000 {
        1000
    } else {
        t.total
    };
    assert(0 <= t.total_bytes * 8 * t.fps <= 0xffff_ffff * 8 * 0xffff_ffff) by (nonlinear_arith)
        requires
            0 <= t.total_bytes <= 0xffff_ffff,
            0 <= t.fps <= 0xffff_ffff,
    ;
    assert(0 <= t.fps * time <= 0xffff_ffff * 0xffff_ffff_ffff_ffff) by (nonlinear_arith)
        requires
            0 <= t.fps <= 0xffff_ffff,
            0 <= time <= 0xffff_ffff_ffff_ffff,
    ;
    let mut d = "OpenH264 1080p: ".to_owned();
    text::push_decimal(&mut d, text::rounded_quotient(30_000_000_000, time as u128) as u64);
    d.append(" fps sustained (");
    push_tenths(&mut d, text::rounded_quotient(time as u128, 3_000_000) as u64);
    d.append(" ms/frame avg, ");
    text::push_decimal(&mut d, text::rounded_quotient(t.max as u128, 1_000_000) as u64);
    d.append(" ms max), IDR ");
    text::push_decimal(&mut d, t.idr_bytes as u64);
    d.append(" bytes, ");
    let bits: u128 = t.total_bytes as u128 * 8 * t.fps as u128;
    let rate: u128 = text::rounded_quotient(bits, 30_000);
    text::push_decimal(&mut d, rate as u64);
    d.append(" kbit/s at ");
    text::push_decimal(&mut d, t.fps as u64);
    d.append(" fps target");
    assert(d@ =~= t.detail());
    let wanted: u128 = t.fps as u128 * time as u128;
    let done: u128 = 3_000_000_000_000;
    assert(100 * t.fps * t.time() == 100 * wanted) by (nonlinear_arith)
        requires
            wanted == t.fps * time,
            t.time() == time,
    ;
    assert(66 * t.fps * t.time() == 66 * wanted) by (nonlinear_arith)
        requires
            wanted == t.fps * time,
            t.time() == time,
    ;
    if done >= 100 * wanted {
        pass("encoder", d)
    } else if done >= 66 * wanted {
        warn(
            "encoder",
            d,
            "the encoder cannot keep up with video.fps; lower video.fps or set video.encoder_threads = 4".to_owned(),
        )
    } else {
        fail(
            "encoder",
            d,
            "far below the configured video.fps: check CPU load (top), lower video.fps or the resolution".to_owned(),
        )
    }
}

/// The verdict at the end of the report counts every failed check, and warnings never fail it.
pub proof fn warnings_never_fail(cs: Seq<Check>)
    ensures
        failures(cs) == 0 <==> forall|i: int| 0 <= i < cs.len() ==> (#[trigger] cs[i]).status !is Fail,
    decreases cs.len(),
{
    if cs.len() > 0 {
        let init = cs.drop_last();
        warnings_never_fail(init);
        if forall|i: int| 0 <= i < cs.len() ==> (#[trigger] cs[i]).status !is Fail {
            assert forall|i: int| 0 <= i < init.len() implies (#[trigger] init[i]).status !is Fail by {
                assert(cs[i].status !is Fail);
            }
            assert(cs[cs.len() - 1].status !is Fail);
        }
        if failures(cs) == 0 {
            assert forall|i: int| 0 <= i < cs.len() implies (#[trigger] cs[i]).status !is Fail by {
                if i < init.len() {
                    assert(init[i].status !is Fail);
                }
            }
        }
    }
}

// ------------------------------------------------------------------------------------------
// Laws
// ------------------------------------------------------------------------------------------
/// A check that passed says so and has no fix; any other has one.
pub proof fn only_passed_checks_have_no_fix(
    c: Check,
    status: Status,
    name: Seq<char>,
    detail: Seq<char>,
    fix: Seq<char>,
)
    ensures
        c.passed(name, detail) <==> c.status is Pass && c.name@ == name && c.detail@ == detail
            && c.fix is None,
        c.says(status, name, detail, fix) <==> c.status == status && c.name@ == name && c.detail@
            == detail && c.fix is Some && c.fix->0@ == fix,
{
}

/// Statuses are spelled out, and each failed check counts once.
pub proof fn failed_checks_are_counted(cs: Seq<Check>, c: Check)
    ensures
        tag(Status::Pass) == "PASS"@,
        tag(Status::Warn) == "WARN"@,
        tag(Status::Fail) == "FAIL"@,
        failures(Seq::empty()) == 0,
        failures(cs.push(c)) == failures(cs) + if c.status is Fail {
            1int
        } else {
            0
        },
        verdict_line(0) == "All checks passed."@,
        failures(cs) > 0 ==> verdict_line(failures(cs)) == text::decimal(failures(cs))
            + " check(s) failed."@,
{
    assert(cs.push(c).drop_last() =~= cs);
}

/// In the report a check takes a line, with its detail in the same column wherever the name is
/// short enough, and each line of its fix one more.
pub proof fn checks_take_a_line_each(cs: Seq<Check>, c: Check)
    ensures
        c.fix is None ==> check_lines(cs.push(c)) == check_lines(cs).push(check_line(c)),
        c.fix is Some ==> check_lines(cs.push(c)).len() == check_lines(cs).len() + 1 + text::lines(
            c.fix->0@,
        ).len(),
        tag(c.status).is_prefix_of(check_line(c)),
        c.name@.len() <= 22 ==> check_line(c).skip(29) == c.detail@,
{
    assert(cs.push(c).drop_last() =~= cs);
    if c.fix is None {
        assert(check_lines(cs.push(c)) =~= check_lines(cs).push(check_line(c)));
    }
    reveal_strlit("PASS");
    reveal_strlit("WARN");
    reveal_strlit("FAIL");
    reveal_strlit("  ");
    reveal_strlit(" ");
    assert(tag(c.status).len() == 4);
    assert(check_line(c).subrange(0, 4) =~= tag(c.status));
    if c.name@.len() <= 22 {
        assert(spaces(22 - c.name@.len()).len() == 22 - c.name@.len());
        assert(check_line(c).skip(29) =~= c.detail@);
    }
}

/// The capability is bit 21 of the set.
pub proof fn capability_is_bit_21(caps: u64)
    ensures
        has_sys_admin(caps as int) <==> (caps >> 21u64) & 1 == 1,
{
    assert((caps / 0x20_0000) % 2 == 1 <==> (caps >> 21u64) & 1 == 1) by (bit_vector);
}

/// The capabilities are those of the first `CapEff:` line; without one there are none.
pub proof fn first_capability_line_counts(ls: Seq<Seq<char>>, i: int)
    requires
        0 <= i < ls.len(),
        forall|j: int| 0 <= j < i ==> !"CapEff:"@.is_prefix_of(#[trigger] ls[j]),
    ensures
        "CapEff:"@.is_prefix_of(ls[i]) ==> cap_eff(ls) == match hex64(text::trim(ls[i].skip(7))) {
            Some(n) => n,
            None => 0int,
        },
        i == ls.len() - 1 && !"CapEff:"@.is_prefix_of(ls[i]) ==> cap_eff(ls) == 0,
    decreases ls.len(),
{
    reveal_strlit("CapEff:");
    reveal_with_fuel(cap_eff, 2);
    if i > 0 {
        let rest = ls.drop_first();
        assert(!"CapEff:"@.is_prefix_of(ls[0]));
        assert forall|j: int| 0 <= j < i - 1 implies !"CapEff:"@.is_prefix_of(
            #[trigger] rest[j],
        ) by {
            assert(rest[j] == ls[j + 1]);
        }
        first_capability_line_counts(rest, i - 1);
        assert(rest[i - 1] == ls[i]);
    } else if ls.len() == 1 {
        assert(ls.drop_first() =~= Seq::empty());
    }
}

/// A hexadecimal number has at least one digit and fits 64 bits; a plus sign in front does not
/// count.
pub proof fn hexadecimal_numbers_are_read(s: Seq<char>)
    ensures
        s.len() == 0 ==> hex64(s) is None,
        s.len() > 0 && s[0] != '+' ==> (hex64(s) is Some <==> ip::number(s, 16) is Some
            && ip::number(s, 16)->0 <= 0xFFFF_FFFF_FFFF_FFFF),
        s.len() > 0 && s[0] != '+' && hex64(s) is Some ==> hex64(s) == ip::number(s, 16),
        s.len() > 0 && s[0] != '+' ==> hex64(seq!['+'] + s) == hex64(s),
{
    assert((seq!['+'] + s).skip(1) =~= s);
}

/// A line of `/etc/group` lists the members of the group that stands first, with commas between,
/// in its fourth field.
pub proof fn fourth_field_lists_the_members(
    name: Seq<char>,
    password: Seq<char>,
    gid: Seq<char>,
    before: Seq<char>,
    member: Seq<char>,
    group: Seq<char>,
)
    requires
        !name.contains(':') && !password.contains(':') && !gid.contains(':'),
        !before.contains(':') && !member.contains(':') && !member.contains(','),
    ensures
        ({
            let line = name.push(':') + (password.push(':') + (gid.push(':') + (before.push(',')
                + member)));
            &&& name == group ==> lists_member(line, group, member)
            &&& name != group ==> !lists_member(line, group, member)
            &&& !lists_member(name.push(':') + (password.push(':') + gid), group, member)
        }),
{
    let members = before.push(',') + member;
    assert(!members.contains(':')) by {
        if members.contains(':') {
            let i = choose|i: int| 0 <= i < members.len() && members[i] == ':';
            if i < before.len() {
                assert(before.contains(before[i]));
            } else if i > before.len() {
                assert(member.contains(member[i - before.len() - 1]));
            }
        }
    }
    let l3 = gid.push(':') + members;
    crate::server::setup::fields_stand_between_colons(members, members);
    crate::server::setup::fields_stand_between_colons(gid, members);
    crate::server::setup::fields_stand_between_colons(password, l3);
    crate::server::setup::fields_stand_between_colons(name, password.push(':') + l3);
    crate::server::setup::fields_stand_between_colons(gid, gid);
    crate::server::setup::fields_stand_between_colons(password, gid);
    crate::server::setup::fields_stand_between_colons(name, password.push(':') + gid);
    let at = text::Separator::Is(',');
    assert(text::unbroken(member, at)) by {
        assert forall|i: int| 0 <= i < member.len() implies !at.separates(#[trigger] member[i]) by {
            assert(member.contains(member[i]));
        }
    }
    text::lemma_split_unbroken(member, at);
    text::lemma_split_concat(before, ',', member, at);
    let all = text::split(members, at);
    assert(all[all.len() - 1] == member);
}

/// The groups that are missing are named, `input` before `video`.
pub proof fn missing_groups_are_named(groups: Seq<char>, user: Seq<char>)
    ensures
        ({
            let input = is_member(groups, "input"@, user);
            let video = is_member(groups, "video"@, user);
            &&& !input && !video ==> missing_groups(groups, user) == "input, video"@
            &&& !input && video ==> missing_groups(groups, user) == "input"@
            &&& input && !video ==> missing_groups(groups, user) == "video"@
        }),
{
}

/// A rule accepts the ports if it is for UDP, names exactly their range and jumps to ACCEPT; all
/// three are needed. A rule that rejects or drops refuses, unless it is for some port alone.
pub proof fn rules_accept_or_refuse(line: Seq<char>, ports: Seq<char>)
    ensures
        accepts(line, ports) <==> !(!text::contains(line, "-p udp"@) || !text::contains(
            line,
            "--dport "@ + ports,
        ) || !text::contains(line, "-j ACCEPT"@)),
        text::contains(line, "--dport"@) ==> !refuses(line),
        !text::contains(line, "--dport"@) ==> (refuses(line) <==> text::contains(line, "-j REJECT"@)
            || text::contains(line, "-j DROP"@)),
{
}

/// The fix that is shown puts in the very rule that `setup` puts in.
pub proof fn fix_is_the_rule_of_setup(tool: Seq<char>, min: u16, max: u16, insert: Vec<String>)
    requires
        call_ensures(crate::server::setup::firewall_insert, (min, max), insert),
    ensures
        firewall_fix(tool, insert@[8]@) == "sudo "@ + tool + " "@ + text::joined(
            text::strings(insert@),
            ' ',
        ) + " && sudo netfilter-persistent save"@,
{
    let ports = crate::server::setup::port_range(min, max);
    let a = text::strings(insert@);
    assert(a =~= seq![
        "-I"@,
        "INPUT"@,
        "1"@,
        "-p"@,
        "udp"@,
        "-m"@,
        "udp"@,
        "--dport"@,
        ports,
        "-j"@,
        "ACCEPT"@,
    ]);
    assert(a[8] == insert@[8]@);
    reveal_strlit("-I");
    reveal_strlit("INPUT");
    reveal_strlit("1");
    reveal_strlit("-p");
    reveal_strlit("udp");
    reveal_strlit("-m");
    reveal_strlit("--dport");
    reveal_strlit("-j");
    reveal_strlit("ACCEPT");
    reveal_strlit(" ");
    reveal_strlit(" -I INPUT 1 -p udp -m udp --dport ");
    reveal_strlit(" -j ACCEPT && sudo netfilter-persistent save");
    reveal_strlit(" && sudo netfilter-persistent save");
    let b = a.drop_last();
    let c = b.drop_last();
    assert(c =~= seq!["-I"@, "INPUT"@, "1"@, "-p"@, "udp"@, "-m"@, "udp"@, "--dport"@, ports]);
    lemma_front_of_the_rule(c, ports);
    let front = text::joined(c, ' ');
    assert(text::joined(b, ' ') =~= front.push(' ') + "-j"@);
    assert(text::joined(a, ' ') =~= text::joined(b, ' ').push(' ') + "ACCEPT"@);
    let head = "sudo "@ + tool;
    let save = " && sudo netfilter-persistent save"@;
    assert(" -j ACCEPT && sudo netfilter-persistent save"@ =~= (seq![' '] + "-j"@).push(' ')
        + "ACCEPT"@ + save);
    assert(head + " -I INPUT 1 -p udp -m udp --dport "@ + ports =~= head + (" "@ + front));
    assert(head + (" "@ + front) + ((seq![' '] + "-j"@).push(' ') + "ACCEPT"@ + save) =~= head + " "@
        + text::joined(a, ' ') + save);
}

proof fn lemma_front_of_the_rule(c: Seq<Seq<char>>, ports: Seq<char>)
    requires
        c == seq!["-I"@, "INPUT"@, "1"@, "-p"@, "udp"@, "-m"@, "udp"@, "--dport"@, ports],
    ensures
        " "@ + text::joined(c, ' ') == " -I INPUT 1 -p udp -m udp --dport "@ + ports,
{
    reveal_strlit("-I");
    reveal_strlit("INPUT");
    reveal_strlit("1");
    reveal_strlit("-p");
    reveal_strlit("udp");
    reveal_strlit("-m");
    reveal_strlit("--dport");
    reveal_strlit(" ");
    reveal_strlit(" -I INPUT 1 -p udp -m udp --dport ");
    let c8 = c.drop_last();
    let c7 = c8.drop_last();
    let c6 = c7.drop_last();
    let c5 = c6.drop_last();
    let c4 = c5.drop_last();
    let c3 = c4.drop_last();
    let c2 = c3.drop_last();
    let c1 = c2.drop_last();
    assert(text::joined(c1, ' ') == "-I"@);
    assert(text::joined(c2, ' ') == "-I"@.push(' ') + "INPUT"@);
    assert(text::joined(c3, ' ') == text::joined(c2, ' ').push(' ') + "1"@);
    assert(text::joined(c4, ' ') == text::joined(c3, ' ').push(' ') + "-p"@);
    assert(text::joined(c5, ' ') == text::joined(c4, ' ').push(' ') + "udp"@);
    assert(text::joined(c6, ' ') == text::joined(c5, ' ').push(' ') + "-m"@);
    assert(text::joined(c7, ' ') == text::joined(c6, ' ').push(' ') + "udp"@);
    assert(text::joined(c8, ' ') == text::joined(c7, ' ').push(' ') + "--dport"@);
    assert(text::joined(c, ' ') == text::joined(c8, ' ').push(' ') + ports);
    assert(" "@ + text::joined(c, ' ') =~= " -I INPUT 1 -p udp -m udp --dport "@ + ports);
}

/// A reply is ours if it is a success and says so.
pub proof fn our_replies_are_successes(reply: Seq<char>)
    ensures
        is_ours(reply) ==> "HTTP/1.1 200"@.is_prefix_of(reply),
        is_ours(reply) ==> text::contains(reply, "vmdesk"@),
        "HTTP/1.1 200"@.is_prefix_of(reply) && text::contains(reply, "vmdesk"@) ==> is_ours(reply),
{
}

/// A conversion is fast enough if ten frames take less than 120 ms, copying and converting
/// together.
pub proof fn conversion_has_twelve_milliseconds(copy_total: Nanos, convert_total: Nanos)
    ensures
        converts_fast(copy_total, convert_total) <==> copy_total + convert_total < 120_000_000,
{
}

/// The encoder reaches the wanted rate if thirty frames take no longer than they last, and two
/// thirds of it if they take no longer than one and a half times that.
pub proof fn encoder_keeps_up_in_real_time(t: EncoderTest)
    requires
        t.total >= 1000,
    ensures
        t.reaches(100) <==> t.fps * t.total <= 30_000_000_000,
        t.reaches(66) <==> 66 * (t.fps * t.total) <= 3_000_000_000_000,
{
    let p = t.fps * t.total;
    assert(100 * t.fps * t.total == 100 * p) by (nonlinear_arith)
        requires
            p == t.fps * t.total,
    ;
    assert(66 * t.fps * t.total == 66 * p) by (nonlinear_arith)
        requires
            p == t.fps * t.total,
    ;
}

/// The first rule that accepts decides, together with the rules in front of it: one of those that
/// refuses makes it come too late.
pub proof fn first_accepting_rule_decides(listing: &str, ports: &str, r: Rules, i: int)
    requires
        call_ensures(read_rules, (listing, ports), r),
        0 <= i < text::lines(listing@).len(),
        accepts(text::lines(listing@)[i], ports@),
        forall|j: int| 0 <= j < i ==> !accepts(#[trigger] text::lines(listing@)[j], ports@),
    ensures
        r is TooLate ==> exists|k: int| 0 <= k < i && refuses(#[trigger] text::lines(listing@)[k]),
        r is Accept ==> forall|k: int|
            0 <= k < i ==> !refuses(#[trigger] text::lines(listing@)[k]),
{
    let ls = text::lines(listing@);
    match r {
        Rules::Missing => {},
        Rules::TooLate => {
            let (n, k) = choose|n: int, k: int|
                first_accept(ls, ports@, n) && 0 <= k < n && #[trigger] refuses(ls[k])
                    && #[trigger] accepts(ls[n], ports@);
            assert(n == i);
            assert(refuses(ls[k]));
        },
        Rules::Accept => {
            let n = choose|n: int| #[trigger]
                first_accept(ls, ports@, n) && forall|k: int|
                    0 <= k < n ==> !refuses(#[trigger] ls[k]);
            assert(n == i);
        },
    }
}

/// Where no rule accepts, the rule is missing.
pub proof fn missing_rule_is_noticed(listing: &str, ports: &str, r: Rules)
    requires
        call_ensures(read_rules, (listing, ports), r),
        forall|j: int|
            0 <= j < text::lines(listing@).len() ==> !accepts(
                #[trigger] text::lines(listing@)[j],
                ports@,
            ),
    ensures
        r is Missing,
{
}

/// Each line of a fix is marked as one.
pub proof fn fixes_are_marked(fix: String, i: int)
    requires
        0 <= i < text::lines(fix@).len(),
    ensures
        fix_lines(Some(fix)).len() == text::lines(fix@).len(),
        fix_lines(Some(fix))[i] == "      fix: "@ + text::lines(fix@)[i],
        fix_lines(None).len() == 0,
{
}

/// A connector that is configured is named in the fix for a missing display.
pub proof fn configured_connector_is_named(reason: String, connector: &str, r: Check)
    requires
        call_ensures(display_missing, (reason, connector), r),
    ensures
        r.status is Fail,
        r.detail@ == reason@,
        r.fix is Some,
        connector@.len() > 0 ==> ("capture.connector = \""@ + connector@).is_prefix_of(
            r.fix->0@,
        ),
{
    let a = "capture.connector = \""@ + connector@;
    let f = r.fix->0@;
    if connector@.len() > 0 {
        assert(f.subrange(0, a.len() as int) =~= a);
    }
}

/// The conversion check shows the time per frame for copying and converting: a tenth of the
/// total of the ten frames, to the nearest tenth of a millisecond.
pub proof fn conversion_times_are_per_frame(
    copy_total: Nanos,
    convert_total: Nanos,
    threads: usize,
    copy: int,
    convert: int,
)
    requires
        -1_000_000 < 2 * (copy * 1_000_000 - copy_total) < 1_000_000,
        -1_000_000 < 2 * (convert * 1_000_000 - convert_total) < 1_000_000,
    ensures
        convert_detail(copy_total, convert_total, threads) == "1080p copy "@
            + crate::server::pipeline::tenths_text(copy) + " ms + XRGB->I420 "@
            + crate::server::pipeline::tenths_text(convert) + " ms ("@ + "scalar"@ + " kernel, "@
            + text::decimal(threads as nat) + " threads)"@,
{
    text::rounding_is_to_the_nearest(copy_total as int, 1_000_000, copy);
    text::rounding_is_to_the_nearest(convert_total as int, 1_000_000, convert);
}

} // verus!
