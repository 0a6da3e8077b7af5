//! Local network facts: the VM's global IPv6 address.
use vstd::prelude::*;

verus! {

/// The first address of `2000::/3`.
pub const GLOBAL_FIRST: u128 = 0x2000_0000_0000_0000_0000_0000_0000_0000;

/// The first address behind `2000::/3`.
pub const GLOBAL_END: u128 = 0x4000_0000_0000_0000_0000_0000_0000_0000;

/// An address of an interface.
#[derive(Debug, Clone, Copy)]
pub struct InterfaceAddress {
    /// The interface is a loopback interface.
    pub loopback: bool,
    /// The address as a number; `None` for an IPv4 address.
    pub ipv6: Option<u128>,
}

/// In the `2000::/3` unicast range.
pub open spec fn global(addr: u128) -> bool {
    GLOBAL_FIRST <= addr < GLOBAL_END
}

/// Approximation of "globally routable": the `2000::/3` unicast range.
pub fn is_global(addr: u128) -> (r: bool)
    ensures
        r == global(addr),
        r == (0x2000 <= addr / 0x1_0000_0000_0000_0000_0000_0000_0000 < 0x4000),
{
    GLOBAL_FIRST <= addr && addr < GLOBAL_END
}

/// `addr` is a globally routable address of a non-loopback interface.
pub open spec fn configured(interfaces: Seq<InterfaceAddress>, addr: u128) -> bool {
    global(addr) && exists|i: int|
        0 <= i < interfaces.len() && !(#[trigger] interfaces[i]).loopback && interfaces[i].ipv6
            == Some(addr)
}

/// `first` is the smallest address that is configured, if one is.
pub open spec fn is_first(interfaces: Seq<InterfaceAddress>, first: Option<u128>) -> bool {
    match first {
        Some(a) => configured(interfaces, a) && forall|b: u128| #[trigger]
            configured(interfaces, b) ==> a <= b,
        None => forall|b: u128| !#[trigger] configured(interfaces, b),
    }
}

/// The first globally routable IPv6 address configured on a non-loopback interface
/// (skips link-local `fe80::/10`, unique-local `fc00::/7`, loopback and multicast), in the
/// order of addresses.
pub fn first_global(interfaces: &Vec<InterfaceAddress>) -> (r: Option<u128>)
    ensures
        is_first(interfaces@, r),
{
    let mut best: Option<u128> = None;
    for i in 0..interfaces.len()
        invariant
            is_first(interfaces@.take(i as int), best),
    {
        let ghost (now, next) = (interfaces@.take(i as int), interfaces@.take(i + 1));
        let here = interfaces[i];
        assert forall|b: u128| #[trigger] configured(next, b) <==> configured(now, b) || (global(b)
            && !here.loopback && here.ipv6 == Some(b)) by {
            if configured(now, b) {
                let k = choose|k: int|
                    0 <= k < now.len() && !(#[trigger] now[k]).loopback && now[k].ipv6 == Some(b);
                assert(next[k] == now[k]);
            }
            if global(b) && !here.loopback && here.ipv6 == Some(b) {
                assert(next[i as int] == here);
            }
            if configured(next, b) {
                let k = choose|k: int|
                    0 <= k < next.len() && !(#[trigger] next[k]).loopback && next[k].ipv6 == Some(
                        b,
                    );
                if k < i {
                    assert(now[k] == next[k]);
                }
            }
        }
        let ghost before = best;
        if !here.loopback {
            if let Some(a) = here.ipv6 {
                if is_global(a) {
                    best = match best {
                        Some(b) if b <= a => Some(b),
                        _ => Some(a),
                    };
                }
            }
        }
        assert(is_first(next, best)) by {
            if before is Some {
                assert(configured(now, before->0));
                assert(configured(next, before->0));
            }
            if here.ipv6 is Some {
                assert(configured(next, here.ipv6->0) || here.loopback || !global(here.ipv6->0));
            }
            assert forall|b: u128| #[trigger] configured(next, b) implies best is Some && best->0
                <= b by {
                if configured(now, b) {
                    assert(before is Some && before->0 <= b);
                }
            }
        }
    }
    assert(interfaces@.take(interfaces@.len() as int) =~= interfaces@);
    best
}

/// What is found is an address of `2000::/3` on an interface that is not a loopback interface,
/// the smallest there is; nothing is found only if there is none.
pub proof fn smallest_global_address_is_found(
    interfaces: &Vec<InterfaceAddress>,
    r: Option<u128>,
    i: int,
)
    requires
        call_ensures(first_global, (interfaces,), r),
    ensures
        r matches Some(a) ==> a / 0x2000_0000_0000_0000_0000_0000_0000_0000 == 1 && exists|k: int|
            0 <= k < interfaces@.len() && !(#[trigger] interfaces@[k]).loopback
                && interfaces@[k].ipv6 == Some(a),
        0 <= i < interfaces@.len() && !interfaces@[i].loopback && interfaces@[i].ipv6 is Some
            && interfaces@[i].ipv6->0 / 0x2000_0000_0000_0000_0000_0000_0000_0000 == 1 ==> r is Some
            && r->0 <= interfaces@[i].ipv6->0,
{
    if 0 <= i < interfaces@.len() && !interfaces@[i].loopback && interfaces@[i].ipv6 is Some
        && interfaces@[i].ipv6->0 / 0x2000_0000_0000_0000_0000_0000_0000_0000 == 1 {
        assert(configured(interfaces@, interfaces@[i].ipv6->0));
    }
}

} // verus!
