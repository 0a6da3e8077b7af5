//! The logic of a remote desktop: the wire protocol, the server that captures, encodes and
//! answers, and the client that reassembles, shows and sends input.
use vstd::prelude::*;

pub mod client;
pub mod e2e;
pub mod ip;
pub mod proto;
pub mod server;
pub mod text;

verus! {

/// A reading of a monotonic clock, in nanoseconds since some fixed start.
pub type Nanos = u64;

/// The time from `earlier` to `now`, zero when `earlier` lies in the future.
pub open spec fn since(now: Nanos, earlier: Nanos) -> int {
    if now >= earlier {
        now - earlier
    } else {
        0
    }
}

/// The time from `earlier` to `now`, zero when `earlier` lies in the future.
pub fn elapsed_since(now: Nanos, earlier: Nanos) -> (r: Nanos)
    ensures
        r == since(now, earlier),
{
    if now >= earlier {
        now - earlier
    } else {
        0
    }
}

/// The time that has passed leads from the earlier reading to the later one; it is never
/// negative.
pub proof fn time_passed_leads_to_now(now: Nanos, earlier: Nanos, r: Nanos)
    requires
        call_ensures(elapsed_since, (now, earlier), r),
    ensures
        earlier <= now ==> earlier + r == now,
        now < earlier ==> r == 0,
{
}

} // verus!
