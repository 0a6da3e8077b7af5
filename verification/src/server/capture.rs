//! Kernel-level framebuffer capture from the vkms DRM device: what is captured.
//!
//! Flow per frame:
//! 1. Read the primary plane of the CRTC driving the display's connector to get the current
//!    framebuffer id (`DRM_IOCTL_MODE_GETPLANE`).
//! 2. If the framebuffer changed since the last frame, `GETFB2` it to obtain the GEM handle,
//!    pitch and pixel format, export the handle as a PRIME dma-buf fd and `mmap` it. Xorg with
//!    `AccelMethod none` renders into one long-lived dumb buffer, so this happens once.
//! 3. Return a view onto the mapping; the caller converts it (see [`crate::server::convert`]).
//!
//! This module chooses the card, the connector, the plane and the format from what the kernel
//! reports.
use vstd::prelude::*;

use crate::text;
use crate::{elapsed_since, Nanos};

verus! {

/// The kernel driver whose card is captured.
pub const VKMS_DRIVER: &'static str = "vkms";

/// Where the card nodes stand.
pub const DRI_DIR: &'static str = "/dev/dri/";

/// Time between two attempts to find the display.
pub const RETRY_INTERVAL: Nanos = 1_000_000_000;

/// Time that has to pass before a failed attempt is logged again.
pub const LOG_INTERVAL: Nanos = 10_000_000_000;

// ------------------------------------------------------------------------------------------
// Cards
// ------------------------------------------------------------------------------------------
/// `a` comes before `b` in the order of texts, or is the same.
pub open spec fn before(a: Seq<char>, b: Seq<char>) -> bool
    decreases a.len(),
{
    if a.len() == 0 {
        true
    } else if b.len() == 0 {
        false
    } else if a[0] != b[0] {
        a[0] < b[0]
    } else {
        before(a.drop_first(), b.drop_first())
    }
}

/// Texts in order.
pub open spec fn sorted(v: Seq<Seq<char>>) -> bool {
    forall|i: int, j: int| 0 <= i < j < v.len() ==> before(#[trigger] v[i], #[trigger] v[j])
}

proof fn lemma_before_total(a: Seq<char>, b: Seq<char>)
    ensures
        before(a, b) || before(b, a),
    decreases a.len(),
{
    if a.len() > 0 && b.len() > 0 && a[0] == b[0] {
        lemma_before_total(a.drop_first(), b.drop_first());
    }
}

proof fn lemma_before_transitive(a: Seq<char>, b: Seq<char>, c: Seq<char>)
    requires
        before(a, b),
        before(b, c),
    ensures
        before(a, c),
    decreases a.len(),
{
    if a.len() > 0 && b.len() > 0 && c.len() > 0 && a[0] == b[0] && b[0] == c[0] {
        lemma_before_transitive(a.drop_first(), b.drop_first(), c.drop_first());
    }
}

/// Texts that come before each other are the same: the order decides where each one goes.
pub proof fn order_is_antisymmetric(a: Seq<char>, b: Seq<char>)
    requires
        before(a, b),
        before(b, a),
    ensures
        a == b,
    decreases a.len(),
{
    if a.len() > 0 && b.len() > 0 {
        order_is_antisymmetric(a.drop_first(), b.drop_first());
        assert(a =~= seq![a[0]] + a.drop_first());
        assert(b =~= seq![b[0]] + b.drop_first());
    } else {
        assert(a =~= b);
    }
}

fn is_before(a: &str, b: &str) -> (r: bool)
    ensures
        r == before(a@, b@),
{
    let x = text::chars_of(a);
    let y = text::chars_of(b);
    let mut i: usize = 0;
    assert(x@.skip(0) =~= x@);
    assert(y@.skip(0) =~= y@);
    while i < x.len() && i < y.len()
        invariant
            x@ == a@,
            y@ == b@,
            i <= x.len(),
            i <= y.len(),
            before(a@, b@) == before(x@.skip(i as int), y@.skip(i as int)),
        decreases x.len() - i,
    {
        assert(x@.skip(i as int).drop_first() =~= x@.skip(i + 1));
        assert(y@.skip(i as int).drop_first() =~= y@.skip(i + 1));
        if x[i] != y[i] {
            return x[i] < y[i];
        }
        i = i + 1;
    }
    i == x.len()
}

/// The names among some file names that are card nodes.
pub open spec fn card_names(names: Seq<Seq<char>>) -> Seq<Seq<char>>
    decreases names.len(),
{
    if names.len() == 0 {
        Seq::empty()
    } else if "card"@.is_prefix_of(names.last()) {
        card_names(names.drop_last()).push(DRI_DIR@ + names.last())
    } else {
        card_names(names.drop_last())
    }
}

fn insert_sorted(v: &mut Vec<String>, s: String)
    requires
        sorted(text::strings(old(v)@)),
    ensures
        sorted(text::strings(final(v)@)),
        text::strings(final(v)@).to_multiset() == text::strings(old(v)@).to_multiset().insert(s@),
{
    let ghost all = text::strings(v@);
    let mut k: usize = v.len();
    while k > 0 && !is_before(v[k - 1].as_str(), s.as_str())
        invariant
            all == text::strings(v@),
            k <= v.len(),
            sorted(all),
            forall|j: int| k <= j < all.len() ==> before(s@, #[trigger] all[j]),
        decreases k,
    {
        proof {
            lemma_before_total(all[k - 1], s@);
            assert(all[k - 1] == v@[k - 1]@);
        }
        k = k - 1;
    }
    let ghost text = s@;
    v.insert(k, s);
    let ghost after = text::strings(v@);
    assert(after =~= all.insert(k as int, text));
    proof {
        vstd::seq_lib::to_multiset_insert(all, k as int, text);
        assert forall|i: int, j: int| 0 <= i < j < after.len() implies before(
            #[trigger] after[i],
            #[trigger] after[j],
        ) by {
            if i < k {
                if k > 0 {
                    assert(all[k - 1] == v@[k - 1]@);
                }
                if j == k {
                    if i < k - 1 {
                        lemma_before_transitive(all[i], all[k - 1], text);
                    }
                }
            }
        }
    }
}

/// All `/dev/dri/card*` nodes among the entries of that directory, sorted.
pub fn card_paths(names: &Vec<String>) -> (r: Vec<String>)
    ensures
        sorted(text::strings(r@)),
        text::strings(r@).to_multiset() == card_names(text::strings(names@)).to_multiset(),
{
    let ghost all = text::strings(names@);
    let mut out: Vec<String> = Vec::new();
    assert(all.take(0) =~= Seq::empty());
    assert(text::strings(out@) =~= card_names(all.take(0)));
    for i in 0..names.len()
        invariant
            all == text::strings(names@),
            sorted(text::strings(out@)),
            text::strings(out@).to_multiset() == card_names(all.take(i as int)).to_multiset(),
    {
        assert(all.take(i + 1).drop_last() =~= all.take(i as int));
        assert(all.take(i + 1).last() == names@[i as int]@);
        let name = text::chars_of(names[i].as_str());
        if text::starts_with(name.as_slice(), "card") {
            let mut path = DRI_DIR.to_owned();
            path.append(names[i].as_str());
            let ghost p = path@;
            insert_sorted(&mut out, path);
            proof {
                vstd::seq_lib::to_multiset_build(card_names(all.take(i as int)), p);
            }
        }
    }
    assert(all.take(all.len() as int) =~= all);
    out
}

/// The connector `name` is the one that is wanted: any `Virtual-*` if none is named.
pub open spec fn connector_matches(wanted: Seq<char>, name: Seq<char>) -> bool {
    if wanted.len() == 0 {
        "Virtual-"@.is_prefix_of(name)
    } else {
        name == wanted
    }
}

fn matches_connector(wanted: &str, name: &str) -> (r: bool)
    ensures
        r == connector_matches(wanted@, name@),
{
    if text::is_empty(wanted) {
        let n = text::chars_of(name);
        text::starts_with(n.as_slice(), "Virtual-")
    } else {
        text::same_str(name, wanted)
    }
}

/// One of the connectors is the one that is wanted.
pub open spec fn has_connector(connectors: Seq<Seq<char>>, wanted: Seq<char>) -> bool {
    exists|i: int| 0 <= i < connectors.len() && connector_matches(wanted, #[trigger] connectors[i])
}

/// `"<interface>-<index>"`, matching the kernel/Xorg naming.
pub fn connector_name(interface: &str, index: u32) -> (r: String)
    ensures
        r@ == interface@ + "-"@ + text::decimal(index as nat),
{
    let mut out = interface.to_owned();
    out.append("-");
    text::push_decimal(&mut out, index as u64);
    out
}

/// What is known of a card node.
#[derive(Debug, PartialEq, Eq)]
pub enum CardFacts {
    /// It cannot be opened, for this reason.
    Closed { path: String, reason: String },
    /// Its driver (`?` if unknown) and its connectors.
    Open { path: String, driver: String, connectors: Vec<String> },
}

impl CardFacts {
    /// The card is driven by vkms.
    pub open spec fn is_vkms(self) -> bool {
        self matches CardFacts::Open { driver, .. } && driver@ == VKMS_DRIVER@
    }

    /// The card has a connector of exactly the name that is wanted. Without a name it has none.
    pub open spec fn offers(self, wanted: Seq<char>) -> bool {
        wanted.len() > 0 && (self matches CardFacts::Open { connectors, .. } && text::strings(
            connectors@,
        ).contains(wanted))
    }

    /// How the card is listed.
    pub open spec fn shown(self) -> Seq<char> {
        match self {
            CardFacts::Closed { path, reason } => path@ + ": "@ + reason@,
            CardFacts::Open { path, driver, connectors } => path@ + ": driver "@ + driver@
                + ", connectors "@ + list_text(text::strings(connectors@)),
        }
    }

    fn vkms(&self) -> (r: bool)
        ensures
            r == self.is_vkms(),
    {
        match self {
            CardFacts::Open { driver, .. } => text::same_str(driver.as_str(), VKMS_DRIVER),
            CardFacts::Closed { .. } => false,
        }
    }

    fn has(&self, wanted: &str) -> (r: bool)
        ensures
            r == self.offers(wanted@),
    {
        if text::is_empty(wanted) {
            return false;
        }
        match self {
            CardFacts::Open { connectors, .. } => {
                let ghost all = text::strings(connectors@);
                assert(has_connector(all, wanted@) <==> all.contains(wanted@)) by {
                    if all.contains(wanted@) {
                        let i = choose|i: int| 0 <= i < all.len() && all[i] == wanted@;
                        assert(connector_matches(wanted@, all[i]));
                    }
                }
                choose_connector(connectors, wanted).is_some()
            },
            CardFacts::Closed { .. } => false,
        }
    }

    fn push_to(&self, out: &mut String)
        ensures
            final(out)@ == old(out)@ + self.shown(),
    {
        let ghost start = out@;
        match self {
            CardFacts::Closed { path, reason } => {
                out.append(path.as_str());
                out.append(": ");
                out.append(reason.as_str());
            },
            CardFacts::Open { path, driver, connectors } => {
                out.append(path.as_str());
                out.append(": driver ");
                out.append(driver.as_str());
                out.append(", connectors ");
                push_list(out, connectors);
            },
        }
        assert(out@ =~= start + self.shown());
    }
}

/// Quoted texts with commas between.
pub open spec fn quoted(v: Seq<Seq<char>>) -> Seq<char>
    decreases v.len(),
{
    if v.len() == 0 {
        Seq::empty()
    } else if v.len() == 1 {
        text::debug_of(v[0])
    } else {
        quoted(v.drop_last()) + ", "@ + text::debug_of(v.last())
    }
}

/// Texts as a list: quoted, with commas between, in brackets.
pub open spec fn list_text(v: Seq<Seq<char>>) -> Seq<char> {
    "["@ + quoted(v) + "]"@
}

/// Appends texts as a list.
pub fn push_list(out: &mut String, v: &Vec<String>)
    ensures
        final(out)@ == old(out)@ + list_text(text::strings(v@)),
{
    let ghost start = out@;
    let ghost all = text::strings(v@);
    out.append("[");
    assert(all.take(0) =~= Seq::empty());
    assert(out@ =~= start + "["@ + quoted(all.take(0)));
    for i in 0..v.len()
        invariant
            all == text::strings(v@),
            out@ == start + "["@ + quoted(all.take(i as int)),
    {
        assert(all.take(i + 1).drop_last() =~= all.take(i as int));
        assert(all.take(i + 1).last() == v@[i as int]@);
        if i > 0 {
            out.append(", ");
        }
        let shown = text::debug_text(v[i].as_str());
        out.append(shown.as_str());
        assert(out@ =~= start + "["@ + quoted(all.take(i + 1)));
    }
    assert(all.take(all.len() as int) =~= all);
    out.append("]");
    assert(out@ =~= start + list_text(all));
}

/// The cards as they are listed, each on a line of its own.
pub open spec fn cards_shown(cards: Seq<CardFacts>) -> Seq<char>
    decreases cards.len(),
{
    if cards.len() == 0 {
        Seq::empty()
    } else if cards.len() == 1 {
        cards[0].shown()
    } else {
        cards_shown(cards.drop_last()) + "\n  "@ + cards.last().shown()
    }
}

/// Which card is captured.
#[derive(Debug, PartialEq, Eq)]
pub enum CardChoice {
    /// This one: its driver is vkms.
    Vkms(usize),
    /// This one: no card has the driver, but it has the connector.
    ByConnector(usize),
    /// None, for this reason.
    Nothing(String),
}

/// The reason why no card is captured.
pub open spec fn no_card_text(cards: Seq<CardFacts>, connector: Seq<char>) -> Seq<char> {
    if cards.len() == 0 {
        "no /dev/dri/card* nodes found: is the vkms module loaded? (sudo modprobe vkms)"@
    } else {
        "no DRM card with driver vkms or connector "@ + connector + " found. Cards seen:\n  "@
            + cards_shown(cards)
    }
}

/// `i` is the first of some cards that `wanted` holds of.
pub open spec fn is_first_card(
    cards: Seq<CardFacts>,
    i: int,
    wanted: spec_fn(CardFacts) -> bool,
) -> bool {
    &&& 0 <= i < cards.len()
    &&& wanted(cards[i])
    &&& forall|j: int| 0 <= j < i ==> !wanted(#[trigger] cards[j])
}

/// Finds the vkms card: the first card whose driver is `vkms`, else the first that has a connector
/// of the wanted name. Without a name nothing but the driver counts.
pub fn choose_card(cards: &Vec<CardFacts>, connector: &str) -> (r: CardChoice)
    ensures
        match r {
            CardChoice::Vkms(i) => is_first_card(cards@, i as int, |c: CardFacts| c.is_vkms()),
            CardChoice::ByConnector(i) => (forall|j: int|
                0 <= j < cards@.len() ==> !(#[trigger] cards@[j]).is_vkms()) && is_first_card(
                cards@,
                i as int,
                |c: CardFacts| c.offers(connector@),
            ),
            CardChoice::Nothing(m) => (forall|j: int|
                0 <= j < cards@.len() ==> !(#[trigger] cards@[j]).is_vkms()
                    && !cards@[j].offers(connector@)) && m@ == no_card_text(
                cards@,
                connector@,
            ),
        },
{
    let mut by_connector: Option<usize> = None;
    for i in 0..cards.len()
        invariant
            forall|j: int| 0 <= j < i ==> !(#[trigger] cards@[j]).is_vkms(),
            match by_connector {
                Some(k) => k < i && is_first_card(
                    cards@,
                    k as int,
                    |c: CardFacts| c.offers(connector@),
                ),
                None => forall|j: int|
                    0 <= j < i ==> !(#[trigger] cards@[j]).offers(connector@),
            },
    {
        if cards[i].vkms() {
            return CardChoice::Vkms(i);
        }
        if by_connector.is_none() && cards[i].has(connector) {
            by_connector = Some(i);
        }
    }
    if let Some(i) = by_connector {
        return CardChoice::ByConnector(i);
    }
    if cards.len() == 0 {
        return CardChoice::Nothing(
            "no /dev/dri/card* nodes found: is the vkms module loaded? (sudo modprobe vkms)".to_owned(),
        );
    }
    let mut m = "no DRM card with driver vkms or connector ".to_owned();
    m.append(connector);
    m.append(" found. Cards seen:\n  ");
    let ghost head = m@;
    assert(cards@.take(0) =~= Seq::empty());
    assert(m@ =~= head + cards_shown(cards@.take(0)));
    for i in 0..cards.len()
        invariant
            m@ == head + cards_shown(cards@.take(i as int)),
    {
        assert(cards@.take(i + 1).drop_last() =~= cards@.take(i as int));
        if i > 0 {
            m.append("\n  ");
        }
        cards[i].push_to(&mut m);
        assert(m@ =~= head + cards_shown(cards@.take(i + 1)));
    }
    assert(cards@.take(cards@.len() as int) =~= cards@);
    assert(m@ =~= no_card_text(cards@, connector@));
    CardChoice::Nothing(m)
}

// ------------------------------------------------------------------------------------------
// The display
// ------------------------------------------------------------------------------------------
/// Why the display cannot be captured right now.
#[derive(Debug, PartialEq, Eq)]
pub enum DisplayState {
    NoConnector(String, String, Vec<String>),
    Inactive(String),
    NoFramebuffer(String),
    NoPlane(String),
}

impl DisplayState {
    /// The message shown for the state.
    pub open spec fn message(self) -> Seq<char> {
        match self {
            DisplayState::NoConnector(wanted, path, present) => "connector "@ + wanted@
                + " not found on "@ + path@ + "; connectors present: "@ + list_text(
                text::strings(present@),
            ),
            DisplayState::Inactive(name) => "connector "@ + name@
                + " has no active CRTC (no X server / mode set yet)"@,
            DisplayState::NoFramebuffer(name) => "CRTC of "@ + name@
                + " has no framebuffer (nothing scanned out yet)"@,
            DisplayState::NoPlane(name) => "no primary plane attached to the CRTC of "@ + name@,
        }
    }

    /// The message shown for the state.
    pub fn to_string(&self) -> (r: String)
        ensures
            r@ == self.message(),
    {
        let mut out = String::new();
        match self {
            DisplayState::NoConnector(wanted, path, present) => {
                out.append("connector ");
                out.append(wanted.as_str());
                out.append(" not found on ");
                out.append(path.as_str());
                out.append("; connectors present: ");
                push_list(&mut out, present);
            },
            DisplayState::Inactive(name) => {
                out.append("connector ");
                out.append(name.as_str());
                out.append(" has no active CRTC (no X server / mode set yet)");
            },
            DisplayState::NoFramebuffer(name) => {
                out.append("CRTC of ");
                out.append(name.as_str());
                out.append(" has no framebuffer (nothing scanned out yet)");
            },
            DisplayState::NoPlane(name) => {
                out.append("no primary plane attached to the CRTC of ");
                out.append(name.as_str());
            },
        }
        assert(out@ =~= self.message());
        out
    }
}

/// The connector that is captured: the first `Virtual-*` if none is named, else the last with
/// that name.
pub fn choose_connector(names: &Vec<String>, wanted: &str) -> (r: Option<usize>)
    ensures
        r is Some <==> has_connector(text::strings(names@), wanted@),
        r matches Some(i) ==> {
            &&& i < names@.len()
            &&& connector_matches(wanted@, names@[i as int]@)
            &&& wanted@.len() == 0 ==> forall|j: int|
                0 <= j < i ==> !connector_matches(wanted@, (#[trigger] names@[j])@)
            &&& wanted@.len() > 0 ==> forall|j: int|
                i < j < names@.len() ==> !connector_matches(wanted@, (#[trigger] names@[j])@)
        },
{
    let ghost all = text::strings(names@);
    let named = !text::is_empty(wanted);
    let mut found: Option<usize> = None;
    for i in 0..names.len()
        invariant
            all == text::strings(names@),
            named == (wanted@.len() > 0),
            match found {
                Some(k) => {
                    &&& k < i
                    &&& connector_matches(wanted@, all[k as int])
                    &&& !named ==> forall|j: int|
                        0 <= j < k ==> !connector_matches(wanted@, (#[trigger] names@[j])@)
                    &&& named ==> forall|j: int|
                        k < j < i ==> !connector_matches(wanted@, (#[trigger] names@[j])@)
                },
                None => forall|j: int|
                    0 <= j < i ==> !connector_matches(wanted@, (#[trigger] names@[j])@),
            },
    {
        assert(all[i as int] == names@[i as int]@);
        if (named || found.is_none()) && matches_connector(wanted, names[i].as_str()) {
            found = Some(i);
        }
    }
    proof {
        if found is None {
            assert forall|j: int| 0 <= j < all.len() implies !connector_matches(
                wanted@,
                #[trigger] all[j],
            ) by {
                assert(all[j] == names@[j]@);
            }
        }
    }
    found
}

/// What is known of a connector: whether it has an encoder, that a CRTC, that a mode and a
/// framebuffer.
#[derive(Debug, Clone, Copy, PartialEq, Eq, Structural)]
pub struct Scanout {
    pub encoder: bool,
    pub crtc: bool,
    pub mode: bool,
    pub framebuffer: bool,
}

/// Checks that a connector is scanning a framebuffer out.
pub fn check_scanout(name: &str, scanout: Scanout) -> (r: Result<(), DisplayState>)
    ensures
        match r {
            Ok(_) => scanout.encoder && scanout.crtc && scanout.mode && scanout.framebuffer,
            Err(DisplayState::Inactive(n)) => n@ == name@ && !(scanout.encoder && scanout.crtc
                && scanout.mode),
            Err(DisplayState::NoFramebuffer(n)) => n@ == name@ && scanout.encoder && scanout.crtc
                && scanout.mode && !scanout.framebuffer,
            Err(_) => false,
        },
{
    if !scanout.encoder || !scanout.crtc || !scanout.mode {
        return Err(DisplayState::Inactive(name.to_owned()));
    }
    if !scanout.framebuffer {
        return Err(DisplayState::NoFramebuffer(name.to_owned()));
    }
    Ok(())
}

/// What is known of a plane.
#[derive(Debug, Clone, Copy, PartialEq, Eq, Structural)]
pub struct PlaneFacts {
    /// It is attached to the display's CRTC.
    pub attached: bool,
    /// Its type is `Primary`.
    pub primary: bool,
    /// It has a framebuffer.
    pub framebuffer: bool,
}

/// A primary plane of the display.
pub open spec fn is_primary(p: PlaneFacts) -> bool {
    p.attached && p.primary
}

/// A plane of the display that will do where no primary plane is attached.
pub open spec fn will_do(p: PlaneFacts) -> bool {
    p.attached && !p.primary && p.framebuffer
}

/// The plane that is captured: the first primary plane of the display, else the first of its
/// planes with a framebuffer.
pub fn choose_plane(planes: &Vec<PlaneFacts>) -> (r: Option<usize>)
    ensures
        match r {
            Some(i) => i < planes@.len() && if is_primary(planes@[i as int]) {
                forall|j: int| 0 <= j < i ==> !is_primary(#[trigger] planes@[j])
            } else {
                &&& will_do(planes@[i as int])
                &&& forall|j: int| 0 <= j < planes@.len() ==> !is_primary(#[trigger] planes@[j])
                &&& forall|j: int| 0 <= j < i ==> !will_do(#[trigger] planes@[j])
            },
            None => forall|j: int|
                0 <= j < planes@.len() ==> !is_primary(#[trigger] planes@[j]) && !will_do(
                    planes@[j],
                ),
        },
{
    let mut fallback: Option<usize> = None;
    for i in 0..planes.len()
        invariant
            forall|j: int| 0 <= j < i ==> !is_primary(#[trigger] planes@[j]),
            match fallback {
                Some(k) => k < i && will_do(planes@[k as int]) && forall|j: int|
                    0 <= j < k ==> !will_do(#[trigger] planes@[j]),
                None => forall|j: int| 0 <= j < i ==> !will_do(#[trigger] planes@[j]),
            },
    {
        let p = planes[i];
        if p.attached {
            if p.primary {
                return Some(i);
            }
            if p.framebuffer && fallback.is_none() {
                fallback = Some(i);
            }
        }
    }
    fallback
}

// ------------------------------------------------------------------------------------------
// Framebuffers
// ------------------------------------------------------------------------------------------
/// Pixel format of a framebuffer.
#[derive(Debug, Clone, Copy, PartialEq, Eq, Structural)]
pub enum PixelFormat {
    Xrgb8888,
    Argb8888,
    Other,
}

/// The pixel format of a framebuffer that only says its bits per pixel and its depth.
pub fn legacy_format(bpp: u32, depth: u32) -> (r: Result<PixelFormat, String>)
    ensures
        match r {
            Ok(f) => bpp == 32 && (depth == 24 && f == PixelFormat::Xrgb8888 || depth == 32 && f
                == PixelFormat::Argb8888),
            Err(e) => !(bpp == 32 && (depth == 24 || depth == 32)) && e@
                == "unsupported legacy framebuffer format bpp "@ + text::decimal(bpp as nat)
                + " depth "@ + text::decimal(depth as nat),
        },
{
    if bpp == 32 && depth == 24 {
        return Ok(PixelFormat::Xrgb8888);
    }
    if bpp == 32 && depth == 32 {
        return Ok(PixelFormat::Argb8888);
    }
    let mut e = "unsupported legacy framebuffer format bpp ".to_owned();
    text::push_decimal(&mut e, bpp as u64);
    e.append(" depth ");
    text::push_decimal(&mut e, depth as u64);
    Err(e)
}

/// Whether frames of a format can be captured.
pub fn is_supported(format: PixelFormat) -> (r: bool)
    ensures
        r == (format is Xrgb8888 || format is Argb8888),
{
    match format {
        PixelFormat::Xrgb8888 => true,
        PixelFormat::Argb8888 => true,
        PixelFormat::Other => false,
    }
}

/// Where a framebuffer's rows stand in its mapping: first byte, and the byte behind the last.
/// `None` if that does not fit.
pub fn frame_range(pitch: u32, height: u32, offset: usize) -> (r: Option<(usize, usize)>)
    ensures
        match r {
            Some((start, end)) => start == offset && end == offset + pitch * height,
            None => offset + pitch * height > usize::MAX,
        },
{
    assert(0 <= pitch * height <= 0xffff_ffff * 0xffff_ffff) by (nonlinear_arith)
        requires
            pitch <= 0xffff_ffff,
            height <= 0xffff_ffff,
            pitch >= 0,
            height >= 0,
    ;
    let len: u64 = pitch as u64 * height as u64;
    let room: u64 = (usize::MAX - offset) as u64;
    if len > room {
        return None;
    }
    Some((offset, offset + len as usize))
}

/// Whether a framebuffer has to be mapped: it is another one than is mapped.
pub fn needs_mapping(mapped: Option<u32>, framebuffer: u32) -> (r: bool)
    ensures
        r == (mapped != Some(framebuffer)),
{
    match mapped {
        Some(m) => m != framebuffer,
        None => true,
    }
}

// ------------------------------------------------------------------------------------------
// Waiting for the display
// ------------------------------------------------------------------------------------------
/// What to do after a failed attempt to find the display.
#[derive(Debug, Clone, Copy, PartialEq, Eq, Structural)]
pub enum WaitStep {
    GiveUp,
    /// Try again after [`RETRY_INTERVAL`]; log the reason first if `log`.
    Retry { log: bool },
}

/// Attempts to find the display: retried forever, or until the deadline.
#[derive(Debug, Clone, Copy, PartialEq, Eq, Structural)]
pub struct DisplayWait {
    pub start: Nanos,
    pub deadline: Option<Nanos>,
    pub last_log: Option<Nanos>,
}

impl DisplayWait {
    pub fn new(start: Nanos, deadline: Option<Nanos>) -> (r: Self)
        ensures
            r == (DisplayWait { start, deadline, last_log: None }),
    {
        DisplayWait { start, deadline, last_log: None }
    }

    /// The deadline has passed.
    pub open spec fn expired(self, now: Nanos) -> bool {
        self.deadline matches Some(d) && crate::since(now, self.start) >= d
    }

    /// A failed attempt is logged: the first one, then one in more than [`LOG_INTERVAL`].
    pub open spec fn logs(self, now: Nanos) -> bool {
        match self.last_log {
            Some(t) => crate::since(now, t) > LOG_INTERVAL,
            None => true,
        }
    }

    /// An attempt has failed.
    pub fn on_failure(&mut self, now: Nanos) -> (r: WaitStep)
        ensures
            old(self).expired(now) ==> r == WaitStep::GiveUp && *final(self) == *old(self),
            !old(self).expired(now) ==> r == (WaitStep::Retry { log: old(self).logs(now) })
                && *final(self) == (DisplayWait {
                last_log: if old(self).logs(now) {
                    Some(now)
                } else {
                    old(self).last_log
                },
                ..*old(self)
            }),
    {
        if let Some(d) = self.deadline {
            if elapsed_since(now, self.start) >= d {
                return WaitStep::GiveUp;
            }
        }
        let log = match self.last_log {
            Some(t) => elapsed_since(now, t) > LOG_INTERVAL,
            None => true,
        };
        if log {
            self.last_log = Some(now);
        }
        WaitStep::Retry { log }
    }
}

// ------------------------------------------------------------------------------------------
// Laws
// ------------------------------------------------------------------------------------------
/// Texts are ordered by the first character in which they differ, and a text comes before those
/// that it begins.
pub proof fn first_difference_decides(a: Seq<char>, b: Seq<char>, k: int)
    requires
        0 <= k <= a.len(),
        k <= b.len(),
        forall|i: int| 0 <= i < k ==> a[i] == b[i],
    ensures
        k < a.len() && k < b.len() && a[k] < b[k] ==> before(a, b) && !before(b, a),
        k == a.len() ==> before(a, b),
        k == a.len() && k < b.len() ==> !before(b, a),
    decreases k,
{
    if k > 0 {
        let (x, y) = (a.drop_first(), b.drop_first());
        assert(a[0] == b[0]);
        assert forall|i: int| 0 <= i < k - 1 implies x[i] == y[i] by {
            assert(a[i + 1] == b[i + 1]);
        }
        first_difference_decides(x, y, k - 1);
    }
}

/// The card nodes are the entries whose names begin with `card`, in the directory of the nodes.
pub proof fn cards_are_listed_by_name(names: Seq<Seq<char>>, n: Seq<char>)
    ensures
        card_names(Seq::empty()) == Seq::<Seq<char>>::empty(),
        n.len() >= 4 && n[0] == 'c' && n[1] == 'a' && n[2] == 'r' && n[3] == 'd' ==> card_names(
            names.push(n),
        ) == card_names(names).push("/dev/dri/"@ + n),
        !(n.len() >= 4 && n[0] == 'c' && n[1] == 'a' && n[2] == 'r' && n[3] == 'd') ==> card_names(
            names.push(n),
        ) == card_names(names),
{
    reveal_strlit("card");
    assert(names.push(n).drop_last() =~= names);
    let p = "card"@;
    if n.len() >= 4 && n[0] == 'c' && n[1] == 'a' && n[2] == 'r' && n[3] == 'd' {
        assert(n.subrange(0, 4) =~= p);
        assert(p.is_prefix_of(n));
    } else if p.is_prefix_of(n) {
        assert(n[0] == p[0] && n[1] == p[1] && n[2] == p[2] && n[3] == p[3]);
    }
}

/// The card that is captured: the first that vkms drives; only if there is none, the first that
/// has a connector of exactly the name that is wanted.
pub proof fn vkms_goes_before_the_connector(cards: &Vec<CardFacts>, connector: &str, r: CardChoice)
    requires
        call_ensures(choose_card, (cards, connector), r),
    ensures
        r matches CardChoice::Vkms(i) ==> {
            &&& i < cards@.len()
            &&& driven_by_vkms(cards@[i as int])
            &&& forall|j: int| 0 <= j < i ==> !driven_by_vkms(#[trigger] cards@[j])
        },
        r !is Vkms ==> forall|j: int|
            0 <= j < cards@.len() ==> !driven_by_vkms(#[trigger] cards@[j]),
        r matches CardChoice::ByConnector(i) ==> {
            &&& connector@.len() > 0
            &&& i < cards@.len()
            &&& has_the_name(cards@[i as int], connector@)
            &&& forall|j: int| 0 <= j < i ==> !has_the_name(#[trigger] cards@[j], connector@)
        },
        r is Nothing && connector@.len() > 0 ==> forall|j: int|
            0 <= j < cards@.len() ==> !has_the_name(#[trigger] cards@[j], connector@),
{
    let all = cards@;
    assert forall|j: int| 0 <= j < all.len() implies all[j].is_vkms() == driven_by_vkms(
        #[trigger] all[j],
    ) by {}
    assert forall|j: int| 0 <= j < all.len() && connector@.len() > 0 implies all[j].offers(
        connector@,
    ) == has_the_name(#[trigger] all[j], connector@) by {
        lemma_has_the_name(all[j], connector@);
    }
    match r {
        CardChoice::Vkms(i) => {
            assert forall|j: int| 0 <= j < i implies !driven_by_vkms(#[trigger] all[j]) by {
                assert(!(|c: CardFacts| c.is_vkms())(all[j]));
            }
        },
        CardChoice::ByConnector(i) => {
            assert((|c: CardFacts| c.offers(connector@))(all[i as int]));
            lemma_has_the_name(all[i as int], connector@);
            assert forall|j: int| 0 <= j < i implies !has_the_name(
                #[trigger] all[j],
                connector@,
            ) by {
                assert(!(|c: CardFacts| c.offers(connector@))(all[j]));
            }
        },
        _ => {},
    }
}

/// The card can be opened and its driver is vkms.
pub open spec fn driven_by_vkms(card: CardFacts) -> bool {
    card is Open && card->driver@ == "vkms"@
}

/// The card can be opened and one of its connectors has the name.
pub open spec fn has_the_name(card: CardFacts, name: Seq<char>) -> bool {
    card is Open && exists|i: int|
        0 <= i < card->connectors@.len() && (#[trigger] card->connectors@[i])@ == name
}

proof fn lemma_has_the_name(card: CardFacts, name: Seq<char>)
    ensures
        card.offers(name) <==> name.len() > 0 && has_the_name(card, name),
{
    if card is Open {
        let all = text::strings(card->connectors@);
        if all.contains(name) {
            let i = choose|i: int| 0 <= i < all.len() && all[i] == name;
            assert(card->connectors@[i]@ == name);
        }
        if has_the_name(card, name) {
            let i = choose|i: int|
                0 <= i < card->connectors@.len() && (#[trigger] card->connectors@[i])@ == name;
            assert(all[i] == name);
        }
    }
}

/// Without a name every connector that begins with `Virtual-` will do, with one only that.
pub proof fn named_connector_has_the_name(wanted: Seq<char>, name: Seq<char>)
    ensures
        wanted.len() > 0 ==> (connector_matches(wanted, name) <==> name == wanted),
        wanted.len() == 0 ==> (connector_matches(wanted, name) <==> name.len() >= 8 && name.take(8)
            == "Virtual-"@),
{
    reveal_strlit("Virtual-");
    assert("Virtual-"@.len() == 8);
    if name.len() >= 8 {
        assert(name.take(8) =~= name.subrange(0, 8));
    }
}

/// Only a plane of the display is captured, a primary plane before all others, and another one
/// only with a framebuffer.
pub proof fn primary_plane_goes_first(planes: &Vec<PlaneFacts>, r: Option<usize>)
    requires
        call_ensures(choose_plane, (planes,), r),
    ensures
        r matches Some(i) ==> planes@[i as int].attached,
        r matches Some(i) ==> (planes@[i as int].primary || planes@[i as int].framebuffer),
        r matches Some(i) ==> (!planes@[i as int].primary ==> forall|j: int|
            0 <= j < planes@.len() ==> !((#[trigger] planes@[j]).attached && planes@[j].primary)),
        r matches Some(i) ==> forall|j: int|
            0 <= j < i && (#[trigger] planes@[j]).attached && planes@[i as int].primary
                ==> !planes@[j].primary,
        r matches Some(i) ==> forall|j: int|
            0 <= j < i && (#[trigger] planes@[j]).attached && !planes@[i as int].primary
                ==> !planes@[j].framebuffer,
{
    assert forall|j: int| 0 <= j < planes@.len() implies {
        &&& is_primary(#[trigger] planes@[j]) <==> planes@[j].attached && planes@[j].primary
        &&& will_do(planes@[j]) <==> planes@[j].attached && !planes@[j].primary
            && planes@[j].framebuffer
    } by {}
}

/// A plane that is not attached to the display is never captured; of those that are, the primary
/// ones are, and the others that have a framebuffer will do.
pub proof fn planes_of_the_display_count(p: PlaneFacts)
    ensures
        !p.attached ==> !is_primary(p) && !will_do(p),
        p.attached && p.primary ==> is_primary(p) && !will_do(p),
        p.attached && !p.primary ==> !is_primary(p) && (will_do(p) <==> p.framebuffer),
{
}

/// A list stands in brackets, its texts quoted and with commas between.
pub proof fn lists_have_commas_and_brackets(v: Seq<Seq<char>>, s: Seq<char>)
    ensures
        list_text(v) == "["@ + quoted(v) + "]"@,
        quoted(Seq::empty()) == Seq::<char>::empty(),
        quoted(seq![s]) == text::debug_of(s),
        v.len() > 0 ==> quoted(v.push(s)) == quoted(v) + ", "@ + text::debug_of(s),
{
    assert(v.push(s).drop_last() =~= v);
}

/// Cards are listed a line each: the reason why one cannot be opened, or its driver and its
/// connectors.
pub proof fn cards_are_listed_a_line_each(cards: Seq<CardFacts>, card: CardFacts)
    ensures
        cards_shown(seq![card]) == card.shown(),
        cards.len() > 0 ==> cards_shown(cards.push(card)) == cards_shown(cards) + "\n  "@
            + card.shown(),
        card is Closed ==> card.shown() == card->Closed_path@ + ": "@ + card->reason@,
        card is Open ==> card.shown() == card->Open_path@ + ": driver "@ + card->driver@
            + ", connectors "@ + list_text(text::strings(card->connectors@)),
{
    assert(cards.push(card).drop_last() =~= cards);
}

/// Each state of the display is named by what is missing and where.
pub proof fn states_say_what_is_missing(s: DisplayState, r: String)
    requires
        call_ensures(DisplayState::to_string, (&s,), r),
    ensures
        match s {
            DisplayState::NoConnector(wanted, path, present) => r@ == "connector "@ + wanted@
                + " not found on "@ + path@ + "; connectors present: "@ + list_text(
                text::strings(present@),
            ),
            DisplayState::Inactive(name) => r@ == "connector "@ + name@
                + " has no active CRTC (no X server / mode set yet)"@,
            DisplayState::NoFramebuffer(name) => r@ == "CRTC of "@ + name@
                + " has no framebuffer (nothing scanned out yet)"@,
            DisplayState::NoPlane(name) => r@ == "no primary plane attached to the CRTC of "@
                + name@,
        },
{
}

/// Where no card is captured, the reason names the connector and every card that was seen.
pub proof fn missing_card_is_explained(cards: Seq<CardFacts>, connector: Seq<char>)
    ensures
        cards.len() == 0 ==> no_card_text(cards, connector)
            == "no /dev/dri/card* nodes found: is the vkms module loaded? (sudo modprobe vkms)"@,
        cards.len() > 0 ==> no_card_text(cards, connector)
            == "no DRM card with driver vkms or connector "@ + connector
            + " found. Cards seen:\n  "@ + cards_shown(cards),
{
}

/// Waiting ends once the deadline has passed since the start, and never without one. A failure
/// is logged at first, and then when more than ten seconds have gone by.
pub proof fn waiting_ends_at_the_deadline(w: DisplayWait, now: Nanos)
    requires
        w.start <= now,
        w.last_log matches Some(t) ==> t <= now,
    ensures
        w.expired(now) <==> w.deadline is Some && now - w.start >= w.deadline->0,
        w.logs(now) <==> w.last_log is None || now - w.last_log->0 > 10_000_000_000,
{
}

/// A display is scanned out if every part of the way is there; otherwise it is inactive, or has
/// no framebuffer.
pub proof fn scanout_needs_every_part(name: &str, s: Scanout, r: Result<(), DisplayState>)
    requires
        call_ensures(check_scanout, (name, s), r),
    ensures
        r is Ok <==> s.encoder && s.crtc && s.mode && s.framebuffer,
        r matches Err(e) ==> (e is NoFramebuffer <==> s.encoder && s.crtc && s.mode),
        r matches Err(e) ==> (e is Inactive <==> !(s.encoder && s.crtc && s.mode)),
{
}

/// Framebuffers with 32 bits per pixel and a depth of 24 have an unused byte, those with a depth
/// of 32 an alpha byte; both can be captured, others cannot.
pub proof fn legacy_formats_go_by_depth(
    bpp: u32,
    depth: u32,
    r: Result<PixelFormat, String>,
    supported: bool,
)
    requires
        call_ensures(legacy_format, (bpp, depth), r),
        r is Ok ==> call_ensures(is_supported, (r->Ok_0,), supported),
    ensures
        r is Ok <==> bpp == 32 && (depth == 24 || depth == 32),
        r is Ok && depth == 24 ==> r->Ok_0 is Xrgb8888,
        r is Ok && depth == 32 ==> r->Ok_0 is Argb8888,
        r is Ok ==> supported,
{
}

/// A failure is logged, and the next one within ten seconds is not.
pub proof fn failures_are_logged_sparingly(
    a: &mut DisplayWait,
    b: &mut DisplayWait,
    first: Nanos,
    second: Nanos,
    x: WaitStep,
    y: WaitStep,
)
    requires
        old(a).deadline is None,
        old(a).last_log is None,
        first <= second,
        call_ensures(DisplayWait::on_failure, (a, first), x),
        *old(b) == *final(a),
        call_ensures(DisplayWait::on_failure, (b, second), y),
    ensures
        x == (WaitStep::Retry { log: true }),
        y == (WaitStep::Retry { log: second - first > 10_000_000_000 }),
{
}

} // verus!
