//! `server setup`: one-shot provisioning of the VM (run as root).
//!
//! Idempotent: every step checks or overwrites its own file, so it can be re-run after
//! changing the binary or the configuration. This module holds what is written and which
//! commands are run.
use vstd::prelude::*;

use crate::server::capture::choose_connector;
use crate::server::config::Config;
use crate::text;

verus! {

pub const INSTALL_PATH: &'static str = "/usr/local/bin/vmdesk-server";

pub const XORG_CONF: &'static str = "/etc/X11/xorg.conf.d/10-vkms.conf";

pub const LIGHTDM_CONF: &'static str = "/etc/lightdm/lightdm.conf.d/50-vmdesk.conf";

pub const MODULES_CONF: &'static str = "/etc/modules-load.d/vmdesk.conf";

pub const UDEV_RULE: &'static str = "/etc/udev/rules.d/70-vmdesk-uinput.rules";

pub const SERVICE_FILE: &'static str = "/etc/systemd/system/vmdesk.service";

pub const VKMS_BY_PATH: &'static str = "/dev/dri/by-path/platform-vkms-card";

/// What [`MODULES_CONF`] holds.
pub const MODULES_TEXT: &'static str = "vkms\nuinput\n";

/// Answers that keep iptables-persistent from asking (it saves the current rules).
pub const DEBCONF_SELECTIONS: &'static str =
    "iptables-persistent iptables-persistent/autosave_v4 boolean true\n\
iptables-persistent iptables-persistent/autosave_v6 boolean true\n";

#[derive(Debug, PartialEq, Eq)]
pub struct SetupOptions {
    /// Desktop user (autologin + service account).
    pub user: String,
    pub config_path: String,
    pub skip_apt: bool,
    pub install_path: String,
    /// Public IPv4 of the VM, written to `network.public_ip`.
    pub public_ip: Option<String>,
    /// IPv6 address to advertise, written to `network.public_ipv6`.
    pub public_ipv6: Option<String>,
}

// ------------------------------------------------------------------------------------------
// Files
// ------------------------------------------------------------------------------------------
/// Xorg configuration for the display `connector` of the card `kmsdev`.
pub open spec fn xorg_conf_text(kmsdev: Seq<char>, connector: Seq<char>) -> Seq<char> {
    "# Generated by `server setup` (vmdesk). Xorg on the vkms virtual display.\n\
Section \"Device\"\n\
\x20   Identifier \"vkms\"\n\
\x20   Driver     \"modesetting\"\n\
\x20   Option     \"kmsdev\"      \""@
        + kmsdev
        + "\"\n\
\x20   Option     \"AccelMethod\" \"none\"\n\
EndSection\n\
\n\
Section \"Monitor\"\n\
\x20   Identifier \""@
        + connector
        + "\"\n\
\x20   Option     \"PreferredMode\" \"1920x1080\"\n\
\x20   Option     \"DPMS\" \"false\"\n\
EndSection\n\
\n\
Section \"Screen\"\n\
\x20   Identifier   \"Screen0\"\n\
\x20   Device       \"vkms\"\n\
\x20   Monitor      \""@
        + connector
        + "\"\n\
\x20   DefaultDepth 24\n\
\x20   SubSection \"Display\"\n\
\x20       Depth 24\n\
\x20       Modes \"1920x1080\"\n\
\x20   EndSubSection\n\
EndSection\n\
\n\
Section \"ServerLayout\"\n\
\x20   Identifier \"Layout0\"\n\
\x20   Screen     \"Screen0\"\n\
\x20   Option     \"BlankTime\"   \"0\"\n\
\x20   Option     \"StandbyTime\" \"0\"\n\
\x20   Option     \"SuspendTime\" \"0\"\n\
\x20   Option     \"OffTime\"     \"0\"\n\
EndSection\n\
\n\
Section \"ServerFlags\"\n\
\x20   Option \"AutoAddGPU\" \"false\"\n\
EndSection\n"@
}

/// Xorg configuration for the display `connector` of the card `kmsdev`.
pub fn xorg_conf(kmsdev: &str, connector: &str) -> (r: String)
    ensures
        r@ == xorg_conf_text(kmsdev@, connector@),
{
    let mut out = String::new();
    out.append("# Generated by `server setup` (vmdesk). Xorg on the vkms virtual display.\n\
Section \"Device\"\n\
\x20   Identifier \"vkms\"\n\
\x20   Driver     \"modesetting\"\n\
\x20   Option     \"kmsdev\"      \"");
    out.append(kmsdev);
    out.append("\"\n\
\x20   Option     \"AccelMethod\" \"none\"\n\
EndSection\n\
\n\
Section \"Monitor\"\n\
\x20   Identifier \"");
    out.append(connector);
    out.append("\"\n\
\x20   Option     \"PreferredMode\" \"1920x1080\"\n\
\x20   Option     \"DPMS\" \"false\"\n\
EndSection\n\
\n\
Section \"Screen\"\n\
\x20   Identifier   \"Screen0\"\n\
\x20   Device       \"vkms\"\n\
\x20   Monitor      \"");
    out.append(connector);
    out.append("\"\n\
\x20   DefaultDepth 24\n\
\x20   SubSection \"Display\"\n\
\x20       Depth 24\n\
\x20       Modes \"1920x1080\"\n\
\x20   EndSubSection\n\
EndSection\n\
\n\
Section \"ServerLayout\"\n\
\x20   Identifier \"Layout0\"\n\
\x20   Screen     \"Screen0\"\n\
\x20   Option     \"BlankTime\"   \"0\"\n\
\x20   Option     \"StandbyTime\" \"0\"\n\
\x20   Option     \"SuspendTime\" \"0\"\n\
\x20   Option     \"OffTime\"     \"0\"\n\
EndSection\n\
\n\
Section \"ServerFlags\"\n\
\x20   Option \"AutoAddGPU\" \"false\"\n\
EndSection\n");
    assert(out@ =~= xorg_conf_text(kmsdev@, connector@));
    out
}

/// lightdm configuration: logs `user` in at boot.
pub open spec fn lightdm_conf_text(user: Seq<char>) -> Seq<char> {
    "# Generated by `server setup` (vmdesk).\n\
[Seat:*]\n\
autologin-user="@
        + user
        + "\n\
autologin-user-timeout=0\n\
autologin-session=xfce\n\
user-session=xfce\n"@
}

/// lightdm configuration: logs `user` in at boot.
pub fn lightdm_conf(user: &str) -> (r: String)
    ensures
        r@ == lightdm_conf_text(user@),
{
    let mut out = String::new();
    out.append("# Generated by `server setup` (vmdesk).\n\
[Seat:*]\n\
autologin-user=");
    out.append(user);
    out.append("\n\
autologin-user-timeout=0\n\
autologin-session=xfce\n\
user-session=xfce\n");
    assert(out@ =~= lightdm_conf_text(user@));
    out
}

/// systemd unit of the server.
pub open spec fn service_unit_text(user: Seq<char>, binary: Seq<char>, config: Seq<char>) -> Seq<char> {
    "# Generated by `server setup` (vmdesk).\n\
[Unit]\n\
Description=vmdesk remote desktop server\n\
After=network-online.target lightdm.service\n\
Wants=network-online.target\n\
\n\
[Service]\n\
User="@
        + user
        + "\n\
SupplementaryGroups=input video\n\
AmbientCapabilities=CAP_SYS_ADMIN\n\
ExecStart="@
        + binary
        + " run --config "@
        + config
        + "\n\
Restart=always\n\
RestartSec=2\n\
Environment=RUST_LOG=info,webrtc=warn,rtc=warn\n\
\n\
[Install]\n\
WantedBy=multi-user.target\n"@
}

/// systemd unit of the server.
pub fn service_unit(user: &str, binary: &str, config: &str) -> (r: String)
    ensures
        r@ == service_unit_text(user@, binary@, config@),
{
    let mut out = String::new();
    out.append("# Generated by `server setup` (vmdesk).\n\
[Unit]\n\
Description=vmdesk remote desktop server\n\
After=network-online.target lightdm.service\n\
Wants=network-online.target\n\
\n\
[Service]\n\
User=");
    out.append(user);
    out.append("\n\
SupplementaryGroups=input video\n\
AmbientCapabilities=CAP_SYS_ADMIN\n\
ExecStart=");
    out.append(binary);
    out.append(" run --config ");
    out.append(config);
    out.append("\n\
Restart=always\n\
RestartSec=2\n\
Environment=RUST_LOG=info,webrtc=warn,rtc=warn\n\
\n\
[Install]\n\
WantedBy=multi-user.target\n");
    assert(out@ =~= service_unit_text(user@, binary@, config@));
    out
}

/// Lets group input create uinput devices.
pub const UDEV_RULE_TEXT: &'static str = "# Generated by `server setup` (vmdesk): let group input create uinput devices.\n\
KERNEL==\"uinput\", SUBSYSTEM==\"misc\", MODE=\"0660\", GROUP=\"input\", OPTIONS+=\"static_node=uinput\"\n";

/// Switches screen blanking off at login.
pub const AUTOSTART_NOBLANK: &'static str = "[Desktop Entry]\n\
Type=Application\n\
Name=vmdesk: disable screen blanking\n\
Exec=sh -c 'xset s off; xset s noblank; xset -dpms'\n\
OnlyShowIn=XFCE;\n\
X-GNOME-Autostart-enabled=true\n";

/// XFCE power settings: never blank.
pub const XFCE_POWER_MANAGER_XML: &'static str = "<?xml version=\"1.0\" encoding=\"UTF-8\"?>\n\
<channel name=\"xfce4-power-manager\" version=\"1.0\">\n\
\x20 <property name=\"xfce4-power-manager\" type=\"empty\">\n\
\x20   <property name=\"dpms-enabled\" type=\"bool\" value=\"false\"/>\n\
\x20   <property name=\"blank-on-ac\" type=\"int\" value=\"0\"/>\n\
\x20   <property name=\"blank-on-battery\" type=\"int\" value=\"0\"/>\n\
\x20   <property name=\"dpms-on-ac-sleep\" type=\"uint\" value=\"0\"/>\n\
\x20   <property name=\"dpms-on-ac-off\" type=\"uint\" value=\"0\"/>\n\
\x20   <property name=\"lock-screen-suspend-hibernate\" type=\"bool\" value=\"false\"/>\n\
\x20   <property name=\"logind-handle-lid-switch\" type=\"bool\" value=\"false\"/>\n\
\x20 </property>\n\
</channel>\n";

/// XFCE screensaver settings: off.
pub const XFCE_SCREENSAVER_XML: &'static str = "<?xml version=\"1.0\" encoding=\"UTF-8\"?>\n\
<channel name=\"xfce4-screensaver\" version=\"1.0\">\n\
\x20 <property name=\"saver\" type=\"empty\">\n\
\x20   <property name=\"enabled\" type=\"bool\" value=\"false\"/>\n\
\x20   <property name=\"idle-activation\" type=\"empty\">\n\
\x20     <property name=\"enabled\" type=\"bool\" value=\"false\"/>\n\
\x20   </property>\n\
\x20 </property>\n\
\x20 <property name=\"lock\" type=\"empty\">\n\
\x20   <property name=\"enabled\" type=\"bool\" value=\"false\"/>\n\
\x20 </property>\n\
</channel>\n";

/// The packages that are installed.
pub fn apt_packages() -> (r: Vec<&'static str>)
    ensures
        r@ == seq![
            "xorg",
            "xserver-xorg-input-libinput",
            "xfce4",
            "xfce4-terminal",
            "lightdm",
            "dbus-x11",
            "x11-xserver-utils",
            "iptables",
            "iptables-persistent",
            "libcap2-bin",
        ],
{
    vec![
        "xorg",
        "xserver-xorg-input-libinput",
        "xfce4",
        "xfce4-terminal",
        "lightdm",
        "dbus-x11",
        "x11-xserver-utils",
        "iptables",
        "iptables-persistent",
        "libcap2-bin",
    ]
}

/// A file in the user's home directory.
pub struct HomeFile {
    /// Path below the home directory.
    pub path: &'static str,
    pub content: &'static str,
    /// One that is there already is left alone.
    pub keep_existing: bool,
}

/// The files that keep the user's XFCE session from blanking the screen. The autostart entry is
/// ours and is always written; settings of the user's are left alone.
pub fn no_blank_files() -> (r: Vec<HomeFile>)
    ensures
        r@ == seq![
            HomeFile {
                path: ".config/autostart/vmdesk-noblank.desktop",
                content: AUTOSTART_NOBLANK,
                keep_existing: false,
            },
            HomeFile {
                path: ".config/xfce4/xfconf/xfce-perchannel-xml/xfce4-power-manager.xml",
                content: XFCE_POWER_MANAGER_XML,
                keep_existing: true,
            },
            HomeFile {
                path: ".config/xfce4/xfconf/xfce-perchannel-xml/xfce4-screensaver.xml",
                content: XFCE_SCREENSAVER_XML,
                keep_existing: true,
            },
        ],
{
    vec![
        HomeFile {
            path: ".config/autostart/vmdesk-noblank.desktop",
            content: AUTOSTART_NOBLANK,
            keep_existing: false,
        },
        HomeFile {
            path: ".config/xfce4/xfconf/xfce-perchannel-xml/xfce4-power-manager.xml",
            content: XFCE_POWER_MANAGER_XML,
            keep_existing: true,
        },
        HomeFile {
            path: ".config/xfce4/xfconf/xfce-perchannel-xml/xfce4-screensaver.xml",
            content: XFCE_SCREENSAVER_XML,
            keep_existing: true,
        },
    ]
}

/// Connector `i` is the one that capture takes when none is named: the first that matches.
pub open spec fn is_first_match(connectors: Seq<Seq<char>>, wanted: Seq<char>, i: int) -> bool {
    &&& 0 <= i < connectors.len()
    &&& crate::server::capture::connector_matches(wanted, connectors[i])
    &&& forall|j: int|
        0 <= j < i ==> !crate::server::capture::connector_matches(wanted, #[trigger] connectors[j])
}

/// The monitor that Xorg is configured for: the connector that is named, else the one that will
/// be captured, else the one that vkms names on a VM without another display.
pub open spec fn is_monitor(connectors: Seq<Seq<char>>, wanted: Seq<char>, name: Seq<char>) -> bool {
    if wanted.len() > 0 {
        name == wanted
    } else if crate::server::capture::has_connector(connectors, wanted) {
        exists|i: int| #[trigger] is_first_match(connectors, wanted, i) && connectors[i] == name
    } else {
        name == "Virtual-1"@
    }
}

/// The monitor that Xorg is configured for.
pub fn monitor_name(connectors: &Vec<String>, wanted: &str) -> (r: String)
    ensures
        is_monitor(text::strings(connectors@), wanted@, r@),
{
    if !text::is_empty(wanted) {
        return wanted.to_owned();
    }
    match choose_connector(connectors, wanted) {
        Some(i) => {
            let ghost all = text::strings(connectors@);
            assert forall|j: int|
                0 <= j < i implies !crate::server::capture::connector_matches(
                wanted@,
                #[trigger] all[j],
            ) by {
                assert(all[j] == connectors@[j]@);
            }
            assert(is_first_match(all, wanted@, i as int));
            connectors[i].clone()
        },
        None => "Virtual-1".to_owned(),
    }
}

// ------------------------------------------------------------------------------------------
// Configuration
// ------------------------------------------------------------------------------------------
/// An optional value, or else another one.
pub open spec fn or_else(new: Option<String>, kept: String) -> Seq<char> {
    match new {
        Some(s) => s@,
        None => kept@,
    }
}

fn value_or(new: Option<String>, kept: String) -> (r: String)
    ensures
        r@ == or_else(new, kept),
{
    match new {
        Some(s) => s,
        None => kept,
    }
}

/// The configuration that `setup` writes: the values already there are kept; the addresses given
/// on the command line replace theirs. A file that is written for the first time names the vkms
/// card by its path, where there is one. So running `setup` again without addresses writes the
/// same file again.
pub fn new_config(
    config: Config,
    first_time: bool,
    by_path: bool,
    public_ip: Option<String>,
    public_ipv6: Option<String>,
) -> (r: Config)
    ensures
        r.video == config.video,
        r.network.public_ip@ == or_else(public_ip, config.network.public_ip),
        r.network.metadata_url == config.network.metadata_url,
        r.network.ipv6 == config.network.ipv6,
        r.network.public_ipv6@ == or_else(public_ipv6, config.network.public_ipv6),
        r.network.udp_port_min == config.network.udp_port_min,
        r.network.udp_port_max == config.network.udp_port_max,
        r.network.signalling_addr == config.network.signalling_addr,
        r.capture.card@ == if first_time && by_path {
            VKMS_BY_PATH@
        } else {
            config.capture.card@
        },
        r.capture.connector == config.capture.connector,
        !first_time && public_ip is None && public_ipv6 is None ==> r.commented()
            == config.commented(),
{
    let mut config = config;
    config.network.public_ip = value_or(public_ip, config.network.public_ip);
    config.network.public_ipv6 = value_or(public_ipv6, config.network.public_ipv6);
    if first_time && by_path {
        config.capture.card = VKMS_BY_PATH.to_owned();
    }
    config
}

/// The warning that `setup` prints where no public IPv4 is configured and the metadata service
/// does not report one. `detected` is what it said.
pub fn public_ip_warning(configured: &str, detected: Result<String, String>) -> (r: Option<String>)
    ensures
        r is Some <==> configured@.len() == 0 && detected is Err,
        r matches Some(m) ==> m@ == "warning: no public IPv4 ("@ + detected->Err_0@
            + "); run: sudo ./server setup --skip-apt --public-ip <VM public IPv4>"@,
{
    match detected {
        Err(reason) if configured.unicode_len() == 0 => {
            let mut m = "warning: no public IPv4 (".to_owned();
            m.append(reason.as_str());
            m.append("); run: sudo ./server setup --skip-apt --public-ip <VM public IPv4>");
            Some(m)
        },
        _ => None,
    }
}

// ------------------------------------------------------------------------------------------
// Users
// ------------------------------------------------------------------------------------------
/// The fields of a line of `/etc/passwd` or `/etc/group`.
pub open spec fn fields(line: Seq<char>) -> Seq<Seq<char>> {
    text::split(line, text::Separator::Is(':'))
}

/// One of the lines is the user's.
pub open spec fn has_user(passwd: Seq<char>, user: Seq<char>) -> bool {
    exists|i: int|
        0 <= i < text::lines(passwd).len() && fields(#[trigger] text::lines(passwd)[i])[0] == user
}

/// Whether `/etc/passwd` lists a user.
pub fn user_exists(passwd: &str, user: &str) -> (r: bool)
    ensures
        r == has_user(passwd@, user@),
{
    let ls = text::lines_of(passwd);
    let name = text::chars_of(user);
    let ghost all = text::lines(passwd@);
    for i in 0..ls.len()
        invariant
            text::texts(ls@) == all,
            all == text::lines(passwd@),
            name@ == user@,
            forall|j: int| 0 <= j < i ==> fields(#[trigger] all[j])[0] != user@,
    {
        assert(all[i as int] == ls@[i as int]@);
        let f = text::split_at(ls[i].as_slice(), text::Separator::Is(':'));
        proof {
            text::lemma_split_nonempty(all[i as int], text::Separator::Is(':'));
            assert(text::texts(f@)[0] == f@[0]@);
        }
        if text::same(f[0].as_slice(), name.as_slice()) {
            return true;
        }
    }
    false
}

/// A line that gives the user's home directory.
pub open spec fn gives_home(line: Seq<char>, user: Seq<char>) -> bool {
    fields(line)[0] == user && fields(line).len() >= 6
}

/// The user's home directory from `/etc/passwd`: the sixth field of the first line that is the
/// user's and has one.
pub fn home_dir(passwd: &str, user: &str) -> (r: Option<String>)
    ensures
        match r {
            Some(home) => exists|i: int| {
                &&& 0 <= i < text::lines(passwd@).len()
                &&& gives_home(#[trigger] text::lines(passwd@)[i], user@)
                &&& home@ == fields(text::lines(passwd@)[i])[5]
                &&& forall|j: int| 0 <= j < i ==> !gives_home(text::lines(passwd@)[j], user@)
            },
            None => forall|i: int|
                0 <= i < text::lines(passwd@).len() ==> !gives_home(
                    #[trigger] text::lines(passwd@)[i],
                    user@,
                ),
        },
{
    let ls = text::lines_of(passwd);
    let name = text::chars_of(user);
    let ghost all = text::lines(passwd@);
    for i in 0..ls.len()
        invariant
            text::texts(ls@) == all,
            all == text::lines(passwd@),
            name@ == user@,
            forall|j: int| 0 <= j < i ==> !gives_home(#[trigger] all[j], user@),
    {
        assert(all[i as int] == ls@[i as int]@);
        let f = text::split_at(ls[i].as_slice(), text::Separator::Is(':'));
        proof {
            text::lemma_split_nonempty(all[i as int], text::Separator::Is(':'));
            assert(text::texts(f@)[0] == f@[0]@);
        }
        if text::same(f[0].as_slice(), name.as_slice()) && f.len() >= 6 {
            let home = text::string_of(f[5].as_slice());
            assert(text::texts(f@)[5] == f@[5]@);
            assert(gives_home(text::lines(passwd@)[i as int], user@));
            return Some(home);
        }
    }
    None
}

// ------------------------------------------------------------------------------------------
// Firewall
// ------------------------------------------------------------------------------------------
/// `min:max`.
pub open spec fn port_range(min: u16, max: u16) -> Seq<char> {
    text::decimal(min as nat) + ":"@ + text::decimal(max as nat)
}

/// `min:max`.
pub fn port_range_text(min: u16, max: u16) -> (r: String)
    ensures
        r@ == port_range(min, max),
{
    let mut out = text::decimal_string(min as u64);
    out.append(":");
    text::push_decimal(&mut out, max as u64);
    out
}

/// The rule that accepts UDP on a range of ports.
pub open spec fn accept_rule(min: u16, max: u16) -> Seq<Seq<char>> {
    seq!["-p"@, "udp"@, "-m"@, "udp"@, "--dport"@, port_range(min, max), "-j"@, "ACCEPT"@]
}

fn rule_after(head: Vec<String>, min: u16, max: u16) -> (r: Vec<String>)
    ensures
        text::strings(r@) == text::strings(head@) + accept_rule(min, max),
{
    let mut out = head;
    let ghost start = text::strings(out@);
    out.push("-p".to_owned());
    out.push("udp".to_owned());
    out.push("-m".to_owned());
    out.push("udp".to_owned());
    out.push("--dport".to_owned());
    out.push(port_range_text(min, max));
    out.push("-j".to_owned());
    out.push("ACCEPT".to_owned());
    assert(text::strings(out@) =~= start + accept_rule(min, max));
    out
}

/// Arguments of `iptables` and `ip6tables` that ask whether the rule is there.
pub fn firewall_check(min: u16, max: u16) -> (r: Vec<String>)
    ensures
        text::strings(r@) == seq!["-C"@, "INPUT"@] + accept_rule(min, max),
{
    let head = vec!["-C".to_owned(), "INPUT".to_owned()];
    assert(text::strings(head@) =~= seq!["-C"@, "INPUT"@]);
    rule_after(head, min, max)
}

/// Arguments of `iptables` and `ip6tables` that put the rule in front of all others.
pub fn firewall_insert(min: u16, max: u16) -> (r: Vec<String>)
    ensures
        text::strings(r@) == seq!["-I"@, "INPUT"@, "1"@] + accept_rule(min, max),
{
    let head = vec!["-I".to_owned(), "INPUT".to_owned(), "1".to_owned()];
    assert(text::strings(head@) =~= seq!["-I"@, "INPUT"@, "1"@]);
    rule_after(head, min, max)
}

// ------------------------------------------------------------------------------------------
// Laws
// ------------------------------------------------------------------------------------------
/// The fields of a line are what stands between its colons, in order.
pub proof fn fields_stand_between_colons(field: Seq<char>, rest: Seq<char>)
    requires
        !field.contains(':'),
    ensures
        fields(field.push(':') + rest) == seq![field] + fields(rest),
        fields(field) == seq![field],
{
    let at = text::Separator::Is(':');
    assert(text::unbroken(field, at)) by {
        assert forall|i: int| 0 <= i < field.len() implies !at.separates(#[trigger] field[i]) by {
            assert(field.contains(field[i]));
        }
    }
    text::lemma_split_unbroken(field, at);
    text::lemma_split_concat(field, ':', rest, at);
}

/// A line of `/etc/passwd` is the user's whose name stands first, and gives the home directory in
/// its sixth field.
pub proof fn sixth_field_is_the_home(
    name: Seq<char>,
    password: Seq<char>,
    uid: Seq<char>,
    gid: Seq<char>,
    comment: Seq<char>,
    home: Seq<char>,
    user: Seq<char>,
)
    requires
        !name.contains(':') && !password.contains(':') && !uid.contains(':'),
        !gid.contains(':') && !comment.contains(':') && !home.contains(':'),
    ensures
        ({
            let line = name.push(':') + (password.push(':') + (uid.push(':') + (gid.push(':') + (
            comment.push(':') + home))));
            &&& gives_home(line, user) <==> name == user
            &&& fields(line)[5] == home
            &&& !gives_home(name.push(':') + (password.push(':') + uid), user)
        }),
{
    let l5 = comment.push(':') + home;
    let l4 = gid.push(':') + l5;
    let l3 = uid.push(':') + l4;
    let l2 = password.push(':') + l3;
    fields_stand_between_colons(home, home);
    fields_stand_between_colons(comment, home);
    fields_stand_between_colons(gid, l5);
    fields_stand_between_colons(uid, l4);
    fields_stand_between_colons(password, l3);
    fields_stand_between_colons(name, l2);
    fields_stand_between_colons(password, uid);
    fields_stand_between_colons(name, password.push(':') + uid);
    fields_stand_between_colons(uid, uid);
}

/// The monitor is the connector that is named; without a name the first that begins with
/// `Virtual-`; and `Virtual-1` where there is none.
pub proof fn monitor_is_the_captured_connector(
    connectors: &Vec<String>,
    wanted: &str,
    r: String,
    i: int,
)
    requires
        call_ensures(monitor_name, (connectors, wanted), r),
        0 <= i < connectors@.len(),
        forall|j: int|
            0 <= j < i ==> !"Virtual-"@.is_prefix_of((#[trigger] connectors@[j])@),
    ensures
        wanted@.len() > 0 ==> r@ == wanted@,
        wanted@.len() == 0 && "Virtual-"@.is_prefix_of(connectors@[i]@) ==> r@ == connectors@[i]@,
        wanted@.len() == 0 && i == connectors@.len() - 1 && !"Virtual-"@.is_prefix_of(
            connectors@[i]@,
        ) ==> r@ == "Virtual-1"@,
{
    let all = text::strings(connectors@);
    assert forall|j: int| 0 <= j < all.len() implies #[trigger] all[j] == connectors@[j]@ by {}
    if wanted@.len() == 0 {
        if "Virtual-"@.is_prefix_of(connectors@[i]@) {
            assert(crate::server::capture::connector_matches(wanted@, all[i]));
            let k = choose|k: int| #[trigger] is_first_match(all, wanted@, k) && all[k] == r@;
            if k < i {
                assert(!"Virtual-"@.is_prefix_of(connectors@[k]@));
            } else if k > i {
                assert(!crate::server::capture::connector_matches(wanted@, all[i]));
            }
        } else if i == connectors@.len() - 1 {
            assert forall|j: int| 0 <= j < all.len() implies !crate::server::capture::connector_matches(
                wanted@,
                #[trigger] all[j],
            ) by {
                if j < i {
                    assert(!"Virtual-"@.is_prefix_of(connectors@[j]@));
                }
            }
        }
    }
}

/// An address given on the command line replaces the one that is configured; none keeps it.
pub proof fn given_addresses_replace_theirs(
    config: Config,
    first_time: bool,
    by_path: bool,
    public_ip: Option<String>,
    public_ipv6: Option<String>,
    r: Config,
)
    requires
        call_ensures(new_config, (config, first_time, by_path, public_ip, public_ipv6), r),
    ensures
        public_ip matches Some(a) ==> r.network.public_ip@ == a@,
        public_ip is None ==> r.network.public_ip@ == config.network.public_ip@,
        public_ipv6 matches Some(a) ==> r.network.public_ipv6@ == a@,
        public_ipv6 is None ==> r.network.public_ipv6@ == config.network.public_ipv6@,
{
}

/// Both firewall commands speak of the same rule, for the ports from the first to the last.
pub proof fn inserted_rule_is_the_one_that_is_checked(
    min: u16,
    max: u16,
    check: Vec<String>,
    insert: Vec<String>,
)
    requires
        call_ensures(firewall_check, (min, max), check),
        call_ensures(firewall_insert, (min, max), insert),
    ensures
        check@.len() == 10,
        insert@.len() == 11,
        check@[0]@ == "-C"@ && insert@[0]@ == "-I"@,
        check@[1]@ == "INPUT"@ && insert@[1]@ == "INPUT"@ && insert@[2]@ == "1"@,
        forall|i: int| 2 <= i < 10 ==> (#[trigger] check@[i])@ == insert@[i + 1]@,
        check@[3]@ == "udp"@ && check@[6]@ == "--dport"@ && check@[9]@ == "ACCEPT"@,
        check@[7]@ == text::decimal(min as nat) + ":"@ + text::decimal(max as nat),
{
    let (a, b) = (text::strings(check@), text::strings(insert@));
    assert(accept_rule(min, max).len() == 8);
    assert(b == seq!["-I"@, "INPUT"@, "1"@] + accept_rule(min, max));
    assert(b.len() == 11);
    assert(a == seq!["-C"@, "INPUT"@] + accept_rule(min, max));
    assert(a.len() == 10);
    assert forall|i: int| 0 <= i < a.len() implies #[trigger] check@[i]@ == a[i] by {}
    assert forall|i: int| 0 <= i < b.len() implies #[trigger] insert@[i]@ == b[i] by {}
    assert forall|i: int| 2 <= i < 10 implies (#[trigger] check@[i])@ == insert@[i + 1]@ by {
        assert(check@[i]@ == a[i]);
        assert(insert@[i + 1]@ == b[i + 1]);
        assert(a[i] == accept_rule(min, max)[i - 2]);
        assert(b[i + 1] == accept_rule(min, max)[i - 2]);
    }
}

/// A user whose name stands first in a line is listed, and one that stands in none is not.
pub proof fn listed_users_exist(passwd: &str, user: &str, r: bool, i: int)
    requires
        call_ensures(user_exists, (passwd, user), r),
    ensures
        0 <= i < text::lines(passwd@).len() && fields(text::lines(passwd@)[i])[0] == user@ ==> r,
        r ==> exists|k: int|
            0 <= k < text::lines(passwd@).len() && fields(
                #[trigger] text::lines(passwd@)[k],
            )[0] == user@,
{
}

} // verus!
