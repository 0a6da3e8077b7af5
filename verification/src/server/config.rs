//! Server configuration (`/etc/vmdesk/config.toml`).
//!
//! Every field has a default, so a missing file or a partial file works. `setup` writes a
//! fully commented file, preserving values that are already there.
use vstd::prelude::*;

use crate::ip;
use crate::text;

verus! {

pub const DEFAULT_CONFIG_PATH: &'static str = "/etc/vmdesk/config.toml";

#[derive(Debug, Clone, PartialEq, Eq)]
pub struct Config {
    pub video: Video,
    pub network: Network,
    pub capture: Capture,
}

#[derive(Debug, Clone, Copy, PartialEq, Eq, Structural)]
pub struct Video {
    /// Capture/encode rate in frames per second.
    pub fps: u32,
    /// Initial target bitrate in kbit/s (the client can change it at runtime).
    pub bitrate_kbps: u32,
    /// Additional keyframe (IDR) interval in frames inside the encoder. `0` = none (the
    /// time-based interval below and client requests decide).
    pub keyframe_interval: u32,
    /// Send an IDR (with SPS/PPS) at least every this many seconds. `0` = only on request.
    pub keyframe_interval_secs: u32,
    /// Encoder threads (`0` = auto: min(4, cores)).
    pub encoder_threads: u16,
}

#[derive(Debug, Clone, PartialEq, Eq)]
pub struct Network {
    /// Public IPv4 advertised in ICE candidates. Empty = autodetect from the OCI metadata service.
    pub public_ip: String,
    /// OCI instance metadata endpoint listing the VNICs (contains `publicIp`).
    pub metadata_url: String,
    /// Also bind IPv6 and advertise the interface's global IPv6 address as a host candidate.
    pub ipv6: bool,
    /// IPv6 address to advertise instead of the interface's own global address. Empty = auto.
    pub public_ipv6: String,
    /// First UDP port used for WebRTC media/data (one port per connection, round-robin).
    pub udp_port_min: u16,
    /// Last UDP port (inclusive).
    pub udp_port_max: u16,
    /// HTTP signalling listener. Keep it on loopback and reach it through an SSH tunnel.
    pub signalling_addr: String,
}

#[derive(Debug, Clone, PartialEq, Eq)]
pub struct Capture {
    /// DRM card node, e.g. `/dev/dri/card0`. Empty = autodetect (driver `vkms`, else by connector).
    pub card: String,
    /// Connector to capture, e.g. `Virtual-2`. Empty = the card's `Virtual-*` connector
    /// (whichever index the kernel assigned).
    pub connector: String,
}

impl Default for Video {
    fn default() -> (r: Self)
        ensures
            r == (Video {
                fps: 30,
                bitrate_kbps: 12_000,
                keyframe_interval: 0,
                keyframe_interval_secs: 10,
                encoder_threads: 0,
            }),
    {
        Video {
            fps: 30,
            bitrate_kbps: 12_000,
            keyframe_interval: 0,
            keyframe_interval_secs: 10,
            encoder_threads: 0,
        }
    }
}

impl Default for Network {
    fn default() -> (r: Self)
        ensures
            r.public_ip@ == Seq::<char>::empty(),
            r.metadata_url@ == "http://169.254.169.254/opc/v2/vnics/"@,
            r.ipv6,
            r.public_ipv6@ == Seq::<char>::empty(),
            r.udp_port_min == 50_000,
            r.udp_port_max == 50_100,
            r.signalling_addr@ == "127.0.0.1:8080"@,
    {
        Network {
            public_ip: String::new(),
            metadata_url: "http://169.254.169.254/opc/v2/vnics/".to_owned(),
            ipv6: true,
            public_ipv6: String::new(),
            udp_port_min: 50_000,
            udp_port_max: 50_100,
            signalling_addr: "127.0.0.1:8080".to_owned(),
        }
    }
}

impl Default for Capture {
    fn default() -> (r: Self)
        ensures
            r.card@ == Seq::<char>::empty(),
            r.connector@ == Seq::<char>::empty(),
    {
        Capture { card: String::new(), connector: String::new() }
    }
}

impl Default for Config {
    fn default() -> (r: Self)
        ensures
            r.video == (Video {
                fps: 30,
                bitrate_kbps: 12_000,
                keyframe_interval: 0,
                keyframe_interval_secs: 10,
                encoder_threads: 0,
            }),
            r.network.public_ip@ == Seq::<char>::empty(),
            r.network.metadata_url@ == "http://169.254.169.254/opc/v2/vnics/"@,
            r.network.ipv6,
            r.network.public_ipv6@ == Seq::<char>::empty(),
            r.network.udp_port_min == 50_000,
            r.network.udp_port_max == 50_100,
            r.network.signalling_addr@ == "127.0.0.1:8080"@,
            r.capture.card@ == Seq::<char>::empty(),
            r.capture.connector@ == Seq::<char>::empty(),
            r.error() is None,
    {
        Config {
            video: Video::default(),
            network: Network::default(),
            capture: Capture::default(),
        }
    }
}

impl Config {
    /// The first thing that is wrong with a configuration.
    pub open spec fn error(self) -> Option<Seq<char>> {
        if !(1 <= self.video.fps <= 120) {
            Some("video.fps must be within 1..=120"@)
        } else if self.video.bitrate_kbps < 100 {
            Some("video.bitrate_kbps must be at least 100"@)
        } else if self.network.udp_port_min > self.network.udp_port_max {
            Some("network.udp_port_min must be <= udp_port_max"@)
        } else if self.network.public_ip@.len() > 0 && ip::ipv4(self.network.public_ip@) is None {
            Some(
                "network.public_ip must be an IPv4 address (got "@ + text::debug_of(
                    self.network.public_ip@,
                ) + ")"@,
            )
        } else if self.network.public_ipv6@.len() > 0 && ip::ipv6(
            self.network.public_ipv6@,
        ) is None {
            Some(
                "network.public_ipv6 must be an IPv6 address (got "@ + text::debug_of(
                    self.network.public_ipv6@,
                ) + ")"@,
            )
        } else {
            None
        }
    }

    pub fn validate(&self) -> (r: Result<(), String>)
        ensures
            match r {
                Ok(_) => self.error() is None,
                Err(e) => self.error() == Some(e@),
            },
    {
        if !(1 <= self.video.fps && self.video.fps <= 120) {
            return Err("video.fps must be within 1..=120".to_owned());
        }
        if self.video.bitrate_kbps < 100 {
            return Err("video.bitrate_kbps must be at least 100".to_owned());
        }
        if self.network.udp_port_min > self.network.udp_port_max {
            return Err("network.udp_port_min must be <= udp_port_max".to_owned());
        }
        if !text::is_empty(self.network.public_ip.as_str()) && !ip::is_ipv4(
            self.network.public_ip.as_str(),
        ) {
            let mut e = "network.public_ip must be an IPv4 address (got ".to_owned();
            let shown = text::debug_text(self.network.public_ip.as_str());
            e.append(shown.as_str());
            e.append(")");
            return Err(e);
        }
        if !text::is_empty(self.network.public_ipv6.as_str()) && !ip::is_ipv6(
            self.network.public_ipv6.as_str(),
        ) {
            let mut e = "network.public_ipv6 must be an IPv6 address (got ".to_owned();
            let shown = text::debug_text(self.network.public_ipv6.as_str());
            e.append(shown.as_str());
            e.append(")");
            return Err(e);
        }
        Ok(())
    }

    /// TOML text with comments.
    pub open spec fn commented(self) -> Seq<char> {
        "# vmdesk server configuration. Restart the service after editing:\n\
#   sudo systemctl restart vmdesk\n\
\n\
[video]\n\
# Capture/encode rate (frames per second).\n\
fps = "@
            + text::decimal(self.video.fps as nat)
            + "\n\
# Initial H.264 target bitrate in kbit/s (the client --bitrate flag overrides it per session).\n\
bitrate_kbps = "@
            + text::decimal(self.video.bitrate_kbps as nat)
            + "\n\
# Time-based keyframe (IDR + SPS/PPS) interval in seconds; 0 = only on connect / PLI.\n\
keyframe_interval_secs = "@
            + text::decimal(self.video.keyframe_interval_secs as nat)
            + "\n\
# Additional encoder-internal keyframe interval in frames; 0 = none.\n\
keyframe_interval = "@
            + text::decimal(self.video.keyframe_interval as nat)
            + "\n\
# OpenH264 threads; 0 = automatic.\n\
encoder_threads = "@
            + text::decimal(self.video.encoder_threads as nat)
            + "\n\
\n\
[network]\n\
# Public IPv4 advertised to the client. Empty = read it from the OCI metadata service\n\
# (`sudo ./server setup --public-ip <ip>` writes it here when the metadata has none).\n\
public_ip = \""@
            + self.network.public_ip@
            + "\"\n\
metadata_url = \""@
            + self.network.metadata_url@
            + "\"\n\
# Also offer the VM's global IPv6 address as a media path (needs an IPv6 security list rule).\n\
ipv6 = "@
            + text::bool_text(self.network.ipv6)
            + "\n\
# IPv6 address to advertise instead of the interface's own global address; empty = automatic.\n\
public_ipv6 = \""@
            + self.network.public_ipv6@
            + "\"\n\
# UDP ports for WebRTC. Must be allowed in the OCI security list and in iptables/ip6tables.\n\
udp_port_min = "@
            + text::decimal(self.network.udp_port_min as nat)
            + "\n\
udp_port_max = "@
            + text::decimal(self.network.udp_port_max as nat)
            + "\n\
# HTTP signalling listener (loopback only; use `ssh -L 8080:127.0.0.1:8080`).\n\
signalling_addr = \""@
            + self.network.signalling_addr@
            + "\"\n\
\n\
[capture]\n\
# DRM card of the vkms device; empty = autodetect by driver name.\n\
card = \""@
            + self.capture.card@
            + "\"\n\
# Connector to capture; empty = the card's Virtual-* connector whatever its index.\n\
connector = \""@
            + self.capture.connector@
            + "\"\n"@
    }

    /// TOML text with comments, written by `setup`.
    pub fn to_commented_toml(&self) -> (r: String)
        ensures
            r@ == self.commented(),
    {
        let mut out = String::new();
        out.append("# vmdesk server configuration. Restart the service after editing:\n\
#   sudo systemctl restart vmdesk\n\
\n\
[video]\n\
# Capture/encode rate (frames per second).\n\
fps = ");
        text::push_decimal(&mut out, self.video.fps as u64);
        out.append("\n\
# Initial H.264 target bitrate in kbit/s (the client --bitrate flag overrides it per session).\n\
bitrate_kbps = ");
        text::push_decimal(&mut out, self.video.bitrate_kbps as u64);
        out.append("\n\
# Time-based keyframe (IDR + SPS/PPS) interval in seconds; 0 = only on connect / PLI.\n\
keyframe_interval_secs = ");
        text::push_decimal(&mut out, self.video.keyframe_interval_secs as u64);
        out.append("\n\
# Additional encoder-internal keyframe interval in frames; 0 = none.\n\
keyframe_interval = ");
        text::push_decimal(&mut out, self.video.keyframe_interval as u64);
        out.append("\n\
# OpenH264 threads; 0 = automatic.\n\
encoder_threads = ");
        text::push_decimal(&mut out, self.video.encoder_threads as u64);
        out.append("\n\
\n\
[network]\n\
# Public IPv4 advertised to the client. Empty = read it from the OCI metadata service\n\
# (`sudo ./server setup --public-ip <ip>` writes it here when the metadata has none).\n\
public_ip = \"");
        out.append(self.network.public_ip.as_str());
        out.append("\"\n\
metadata_url = \"");
        out.append(self.network.metadata_url.as_str());
        out.append("\"\n\
# Also offer the VM's global IPv6 address as a media path (needs an IPv6 security list rule).\n\
ipv6 = ");
        out.append(text::bool_str(self.network.ipv6));
        out.append("\n\
# IPv6 address to advertise instead of the interface's own global address; empty = automatic.\n\
public_ipv6 = \"");
        out.append(self.network.public_ipv6.as_str());
        out.append("\"\n\
# UDP ports for WebRTC. Must be allowed in the OCI security list and in iptables/ip6tables.\n\
udp_port_min = ");
        text::push_decimal(&mut out, self.network.udp_port_min as u64);
        out.append("\n\
udp_port_max = ");
        text::push_decimal(&mut out, self.network.udp_port_max as u64);
        out.append("\n\
# HTTP signalling listener (loopback only; use `ssh -L 8080:127.0.0.1:8080`).\n\
signalling_addr = \"");
        out.append(self.network.signalling_addr.as_str());
        out.append("\"\n\
\n\
[capture]\n\
# DRM card of the vkms device; empty = autodetect by driver name.\n\
card = \"");
        out.append(self.capture.card.as_str());
        out.append("\"\n\
# Connector to capture; empty = the card's Virtual-* connector whatever its index.\n\
connector = \"");
        out.append(self.capture.connector.as_str());
        out.append("\"\n");
        assert(out@ =~= self.commented());
        out
    }
}

/// A configuration is valid exactly if the frame rate lies within 1 to 120, the bitrate is at
/// least 100 kbit/s, the ports are in order, and each public address is empty or an address of
/// its family.
pub proof fn valid_configurations(c: Config, r: Result<(), String>)
    requires
        call_ensures(Config::validate, (&c,), r),
    ensures
        r is Ok <==> {
            &&& 1 <= c.video.fps <= 120
            &&& c.video.bitrate_kbps >= 100
            &&& c.network.udp_port_min <= c.network.udp_port_max
            &&& c.network.public_ip@.len() == 0 || ip::ipv4(c.network.public_ip@) is Some
            &&& c.network.public_ipv6@.len() == 0 || ip::ipv6(c.network.public_ipv6@) is Some
        },
{
}

/// An error names the first setting that is wrong.
pub proof fn first_wrong_setting_is_named(c: Config, r: Result<(), String>)
    requires
        call_ensures(Config::validate, (&c,), r),
        r is Err,
    ensures
        ({
            let e = r->Err_0@;
            let fps_ok = 1 <= c.video.fps <= 120;
            let rate_ok = c.video.bitrate_kbps >= 100;
            let ports_ok = c.network.udp_port_min <= c.network.udp_port_max;
            let ipv4_ok = c.network.public_ip@.len() == 0 || ip::ipv4(
                c.network.public_ip@,
            ) is Some;
            &&& !fps_ok ==> e == "video.fps must be within 1..=120"@
            &&& fps_ok && !rate_ok ==> e == "video.bitrate_kbps must be at least 100"@
            &&& fps_ok && rate_ok && !ports_ok ==> e
                == "network.udp_port_min must be <= udp_port_max"@
            &&& fps_ok && rate_ok && ports_ok && !ipv4_ok ==> e
                == "network.public_ip must be an IPv4 address (got "@ + text::debug_of(
                c.network.public_ip@,
            ) + ")"@
            &&& fps_ok && rate_ok && ports_ok && ipv4_ok ==> e
                == "network.public_ipv6 must be an IPv6 address (got "@ + text::debug_of(
                c.network.public_ipv6@,
            ) + ")"@
        }),
{
}

proof fn lemma_front(a: Seq<char>, b: Seq<char>, whole: Seq<char>)
    requires
        (a + b).is_prefix_of(whole),
    ensures
        a.is_prefix_of(whole),
{
    assert(whole.subrange(0, a.len() as int) =~= a);
}

/// Where `lit` ends in `key` and what follows begins with `end`, a value between the two stands
/// behind the key.
proof fn lemma_stands(
    front: Seq<char>,
    lit: Seq<char>,
    key: Seq<char>,
    value: Seq<char>,
    next: Seq<char>,
    end: Seq<char>,
    whole: Seq<char>,
)
    requires
        (front + lit + value + next).is_prefix_of(whole),
        key.len() <= lit.len(),
        lit.skip(lit.len() - key.len()) == key,
        end.len() <= next.len(),
        next.take(end.len() as int) == end,
    ensures
        text::contains(whole, key + value + end),
{
    let all = front + lit + value + next;
    let i = front.len() + lit.len() - key.len();
    let n = key.len() + value.len() + end.len();
    assert(whole.subrange(0, all.len() as int) == all);
    assert(all.subrange(i, i + n) =~= key + value + end) by {
        assert forall|k: int| 0 <= k < key.len() implies all[i + k] == #[trigger] key[k] by {
            assert(lit.skip(lit.len() - key.len())[k] == key[k]);
        }
        assert forall|k: int| 0 <= k < end.len() implies all[i + key.len() + value.len() + k]
            == #[trigger] end[k] by {
            assert(next.take(end.len() as int)[k] == end[k]);
        }
    }
    assert(whole.subrange(i, i + n) =~= all.subrange(i, i + n));
    assert(text::occurs_at(whole, key + value + end, i));
}

/// The text sets every value behind its own key, each on a line of its own.
#[verifier::spinoff_prover]
pub proof fn every_value_stands_behind_its_key(c: Config, r: String)
    requires
        call_ensures(Config::to_commented_toml, (&c,), r),
    ensures
        text::contains(r@, "\nfps = "@ + text::decimal(c.video.fps as nat) + "\n"@),
        text::contains(
            r@,
            "\nbitrate_kbps = "@ + text::decimal(c.video.bitrate_kbps as nat) + "\n"@,
        ),
        text::contains(
            r@,
            "\nkeyframe_interval_secs = "@ + text::decimal(c.video.keyframe_interval_secs as nat) + "\n"@,
        ),
        text::contains(
            r@,
            "\nkeyframe_interval = "@ + text::decimal(c.video.keyframe_interval as nat) + "\n"@,
        ),
        text::contains(
            r@,
            "\nencoder_threads = "@ + text::decimal(c.video.encoder_threads as nat) + "\n"@,
        ),
        text::contains(r@, "\npublic_ip = \""@ + c.network.public_ip@ + "\""@),
        text::contains(r@, "\nmetadata_url = \""@ + c.network.metadata_url@ + "\""@),
        text::contains(r@, "\nipv6 = "@ + text::bool_text(c.network.ipv6) + "\n"@),
        text::contains(r@, "\npublic_ipv6 = \""@ + c.network.public_ipv6@ + "\""@),
        text::contains(
            r@,
            "\nudp_port_min = "@ + text::decimal(c.network.udp_port_min as nat) + "\n"@,
        ),
        text::contains(
            r@,
            "\nudp_port_max = "@ + text::decimal(c.network.udp_port_max as nat) + "\n"@,
        ),
        text::contains(r@, "\nsignalling_addr = \""@ + c.network.signalling_addr@ + "\""@),
        text::contains(r@, "\ncard = \""@ + c.capture.card@ + "\""@),
        text::contains(r@, "\nconnector = \""@ + c.capture.connector@ + "\""@),
{
    let whole = c.commented();
    let v0 = text::decimal(c.video.fps as nat);
    let v1 = text::decimal(c.video.bitrate_kbps as nat);
    let v2 = text::decimal(c.video.keyframe_interval_secs as nat);
    let v3 = text::decimal(c.video.keyframe_interval as nat);
    let v4 = text::decimal(c.video.encoder_threads as nat);
    let v5 = c.network.public_ip@;
    let v6 = c.network.metadata_url@;
    let v7 = text::bool_text(c.network.ipv6);
    let v8 = c.network.public_ipv6@;
    let v9 = text::decimal(c.network.udp_port_min as nat);
    let v10 = text::decimal(c.network.udp_port_max as nat);
    let v11 = c.network.signalling_addr@;
    let v12 = c.capture.card@;
    let v13 = c.capture.connector@;
    let l0 = "# vmdesk server configuration. Restart the service after editing:\n\
#   sudo systemctl restart vmdesk\n\
\n\
[video]\n\
# Capture/encode rate (frames per second).\n\
fps = "@;
    let l1 = "\n\
# Initial H.264 target bitrate in kbit/s (the client --bitrate flag overrides it per session).\n\
bitrate_kbps = "@;
    let l2 = "\n\
# Time-based keyframe (IDR + SPS/PPS) interval in seconds; 0 = only on connect / PLI.\n\
keyframe_interval_secs = "@;
    let l3 = "\n\
# Additional encoder-internal keyframe interval in frames; 0 = none.\n\
keyframe_interval = "@;
    let l4 = "\n\
# OpenH264 threads; 0 = automatic.\n\
encoder_threads = "@;
    let l5 = "\n\
\n\
[network]\n\
# Public IPv4 advertised to the client. Empty = read it from the OCI metadata service\n\
# (`sudo ./server setup --public-ip <ip>` writes it here when the metadata has none).\n\
public_ip = \""@;
    let l6 = "\"\n\
metadata_url = \""@;
    let l7 = "\"\n\
# Also offer the VM's global IPv6 address as a media path (needs an IPv6 security list rule).\n\
ipv6 = "@;
    let l8 = "\n\
# IPv6 address to advertise instead of the interface's own global address; empty = automatic.\n\
public_ipv6 = \""@;
    let l9 = "\"\n\
# UDP ports for WebRTC. Must be allowed in the OCI security list and in iptables/ip6tables.\n\
udp_port_min = "@;
    let l10 = "\n\
udp_port_max = "@;
    let l11 = "\n\
# HTTP signalling listener (loopback only; use `ssh -L 8080:127.0.0.1:8080`).\n\
signalling_addr = \""@;
    let l12 = "\"\n\
\n\
[capture]\n\
# DRM card of the vkms device; empty = autodetect by driver name.\n\
card = \""@;
    let l13 = "\"\n\
# Connector to capture; empty = the card's Virtual-* connector whatever its index.\n\
connector = \""@;
    let l14 = "\"\n"@;
    let p0 = Seq::<char>::empty();
    let p1 = l0 + v0;
    let p2 = p1 + l1 + v1;
    let p3 = p2 + l2 + v2;
    let p4 = p3 + l3 + v3;
    let p5 = p4 + l4 + v4;
    let p6 = p5 + l5 + v5;
    let p7 = p6 + l6 + v6;
    let p8 = p7 + l7 + v7;
    let p9 = p8 + l8 + v8;
    let p10 = p9 + l9 + v9;
    let p11 = p10 + l10 + v10;
    let p12 = p11 + l11 + v11;
    let p13 = p12 + l12 + v12;
    let p14 = p13 + l13 + v13;
    assert(whole == p14 + l14);
    assert(whole.subrange(0, whole.len() as int) =~= whole);
    lemma_front(p14, l14, whole);
    lemma_front(p13 + l13, v13, whole);
    lemma_front(p13, l13, whole);
    lemma_front(p12 + l12, v12, whole);
    lemma_front(p12, l12, whole);
    lemma_front(p11 + l11, v11, whole);
    lemma_front(p11, l11, whole);
    lemma_front(p10 + l10, v10, whole);
    lemma_front(p10, l10, whole);
    lemma_front(p9 + l9, v9, whole);
    lemma_front(p9, l9, whole);
    lemma_front(p8 + l8, v8, whole);
    lemma_front(p8, l8, whole);
    lemma_front(p7 + l7, v7, whole);
    lemma_front(p7, l7, whole);
    lemma_front(p6 + l6, v6, whole);
    lemma_front(p6, l6, whole);
    lemma_front(p5 + l5, v5, whole);
    lemma_front(p5, l5, whole);
    lemma_front(p4 + l4, v4, whole);
    lemma_front(p4, l4, whole);
    lemma_front(p3 + l3, v3, whole);
    lemma_front(p3, l3, whole);
    lemma_front(p2 + l2, v2, whole);
    lemma_front(p2, l2, whole);
    lemma_front(p1 + l1, v1, whole);
    lemma_front(p1, l1, whole);
    assert(p0 + l0 =~= l0);
    reveal_strlit("# vmdesk server configuration. Restart the service after editing:\n\
#   sudo systemctl restart vmdesk\n\
\n\
[video]\n\
# Capture/encode rate (frames per second).\n\
fps = ");
    reveal_strlit("\n\
# Initial H.264 target bitrate in kbit/s (the client --bitrate flag overrides it per session).\n\
bitrate_kbps = ");
    reveal_strlit("\n\
# Time-based keyframe (IDR + SPS/PPS) interval in seconds; 0 = only on connect / PLI.\n\
keyframe_interval_secs = ");
    reveal_strlit("\n\
# Additional encoder-internal keyframe interval in frames; 0 = none.\n\
keyframe_interval = ");
    reveal_strlit("\n\
# OpenH264 threads; 0 = automatic.\n\
encoder_threads = ");
    reveal_strlit("\n\
\n\
[network]\n\
# Public IPv4 advertised to the client. Empty = read it from the OCI metadata service\n\
# (`sudo ./server setup --public-ip <ip>` writes it here when the metadata has none).\n\
public_ip = \"");
    reveal_strlit("\"\n\
metadata_url = \"");
    reveal_strlit("\"\n\
# Also offer the VM's global IPv6 address as a media path (needs an IPv6 security list rule).\n\
ipv6 = ");
    reveal_strlit("\n\
# IPv6 address to advertise instead of the interface's own global address; empty = automatic.\n\
public_ipv6 = \"");
    reveal_strlit("\"\n\
# UDP ports for WebRTC. Must be allowed in the OCI security list and in iptables/ip6tables.\n\
udp_port_min = ");
    reveal_strlit("\n\
udp_port_max = ");
    reveal_strlit("\n\
# HTTP signalling listener (loopback only; use `ssh -L 8080:127.0.0.1:8080`).\n\
signalling_addr = \"");
    reveal_strlit("\"\n\
\n\
[capture]\n\
# DRM card of the vkms device; empty = autodetect by driver name.\n\
card = \"");
    reveal_strlit("\"\n\
# Connector to capture; empty = the card's Virtual-* connector whatever its index.\n\
connector = \"");
    reveal_strlit("\"\n");
    reveal_strlit("\n");
    reveal_strlit("\"");
    reveal_strlit("\nfps = ");
    assert(l0.skip(l0.len() - "\nfps = "@.len()) =~= "\nfps = "@);
    assert(l1.take(1) =~= "\n"@);
    lemma_stands(p0, l0, "\nfps = "@, v0, l1, "\n"@, whole);
    reveal_strlit("\nbitrate_kbps = ");
    assert(l1.skip(l1.len() - "\nbitrate_kbps = "@.len()) =~= "\nbitrate_kbps = "@);
    assert(l2.take(1) =~= "\n"@);
    lemma_stands(p1, l1, "\nbitrate_kbps = "@, v1, l2, "\n"@, whole);
    reveal_strlit("\nkeyframe_interval_secs = ");
    assert(l2.skip(l2.len() - "\nkeyframe_interval_secs = "@.len()) =~= "\nkeyframe_interval_secs = "@);
    assert(l3.take(1) =~= "\n"@);
    lemma_stands(p2, l2, "\nkeyframe_interval_secs = "@, v2, l3, "\n"@, whole);
    reveal_strlit("\nkeyframe_interval = ");
    assert(l3.skip(l3.len() - "\nkeyframe_interval = "@.len()) =~= "\nkeyframe_interval = "@);
    assert(l4.take(1) =~= "\n"@);
    lemma_stands(p3, l3, "\nkeyframe_interval = "@, v3, l4, "\n"@, whole);
    reveal_strlit("\nencoder_threads = ");
    assert(l4.skip(l4.len() - "\nencoder_threads = "@.len()) =~= "\nencoder_threads = "@);
    assert(l5.take(1) =~= "\n"@);
    lemma_stands(p4, l4, "\nencoder_threads = "@, v4, l5, "\n"@, whole);
    reveal_strlit("\npublic_ip = \"");
    assert(l5.skip(l5.len() - "\npublic_ip = \""@.len()) =~= "\npublic_ip = \""@);
    assert(l6.take(1) =~= "\""@);
    lemma_stands(p5, l5, "\npublic_ip = \""@, v5, l6, "\""@, whole);
    reveal_strlit("\nmetadata_url = \"");
    assert(l6.skip(l6.len() - "\nmetadata_url = \""@.len()) =~= "\nmetadata_url = \""@);
    assert(l7.take(1) =~= "\""@);
    lemma_stands(p6, l6, "\nmetadata_url = \""@, v6, l7, "\""@, whole);
    reveal_strlit("\nipv6 = ");
    assert(l7.skip(l7.len() - "\nipv6 = "@.len()) =~= "\nipv6 = "@);
    assert(l8.take(1) =~= "\n"@);
    lemma_stands(p7, l7, "\nipv6 = "@, v7, l8, "\n"@, whole);
    reveal_strlit("\npublic_ipv6 = \"");
    assert(l8.skip(l8.len() - "\npublic_ipv6 = \""@.len()) =~= "\npublic_ipv6 = \""@);
    assert(l9.take(1) =~= "\""@);
    lemma_stands(p8, l8, "\npublic_ipv6 = \""@, v8, l9, "\""@, whole);
    reveal_strlit("\nudp_port_min = ");
    assert(l9.skip(l9.len() - "\nudp_port_min = "@.len()) =~= "\nudp_port_min = "@);
    assert(l10.take(1) =~= "\n"@);
    lemma_stands(p9, l9, "\nudp_port_min = "@, v9, l10, "\n"@, whole);
    reveal_strlit("\nudp_port_max = ");
    assert(l10.skip(l10.len() - "\nudp_port_max = "@.len()) =~= "\nudp_port_max = "@);
    assert(l11.take(1) =~= "\n"@);
    lemma_stands(p10, l10, "\nudp_port_max = "@, v10, l11, "\n"@, whole);
    reveal_strlit("\nsignalling_addr = \"");
    assert(l11.skip(l11.len() - "\nsignalling_addr = \""@.len()) =~= "\nsignalling_addr = \""@);
    assert(l12.take(1) =~= "\""@);
    lemma_stands(p11, l11, "\nsignalling_addr = \""@, v11, l12, "\""@, whole);
    reveal_strlit("\ncard = \"");
    assert(l12.skip(l12.len() - "\ncard = \""@.len()) =~= "\ncard = \""@);
    assert(l13.take(1) =~= "\""@);
    lemma_stands(p12, l12, "\ncard = \""@, v12, l13, "\""@, whole);
    reveal_strlit("\nconnector = \"");
    assert(l13.skip(l13.len() - "\nconnector = \""@.len()) =~= "\nconnector = \""@);
    assert(l14.take(1) =~= "\""@);
    lemma_stands(p13, l13, "\nconnector = \""@, v13, l14, "\""@, whole);
}

} // verus!
