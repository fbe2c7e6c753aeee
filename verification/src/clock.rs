//! The time of day and the pace it sets.

use crate::model::AUTO_OPEN_MIN_INTERVAL_MS;
use crate::roster::elapsed_fits;
use vstd::prelude::*;

verus! {

/// Calls `std::time::SystemTime::now` and measures it against the Unix epoch,
/// in milliseconds; a clock set before the epoch gives nothing.
#[verifier::external_body]
fn millis_since_epoch() -> (r: Option<u128>) {
    std::time::SystemTime::now()
        .duration_since(std::time::UNIX_EPOCH)
        .ok()
        .map(|elapsed| elapsed.as_millis())
}

/// The time stamp for a number of milliseconds since the epoch: the number
/// itself, cut to 64 bits, or zero for a clock set before the epoch.
pub open spec fn stamp(millis: Option<u128>) -> i64 {
    match millis {
        Some(n) => n as i64,
        None => 0,
    }
}

/// The time stamp for a number of milliseconds since the epoch.
pub fn time_stamp(millis: Option<u128>) -> (r: i64)
    ensures
        r == stamp(millis),
        millis matches Some(n) ==> n <= i64::MAX ==> r == n,
{
    match millis {
        Some(n) => #[verifier::truncate] (n as i64),
        None => 0,
    }
}

/// The current time, in milliseconds since the Unix epoch.
pub fn now_ms() -> (r: i64)
    ensures
        exists|millis: Option<u128>| r == #[trigger] stamp(millis),
{
    time_stamp(millis_since_epoch())
}

/// Whether the last opening of received content was long enough ago.
pub open spec fn rate_allows(last: i64, now: i64) -> bool {
    now - last >= AUTO_OPEN_MIN_INTERVAL_MS
}

/// Lets received content be opened only if the last opening was long enough
/// ago, and then remembers the new one.
pub fn auto_open_rate_ok(last: &mut i64, now: i64) -> (r: bool)
    requires
        elapsed_fits(*old(last), now),
    ensures
        r == rate_allows(*old(last), now),
        *final(last) == if r {
            now
        } else {
            *old(last)
        },
{
    if now - *last >= AUTO_OPEN_MIN_INTERVAL_MS {
        *last = now;
        true
    } else {
        false
    }
}

/// How long ago the discovery loop last announced this device and last looked
/// for silent peers.
#[derive(Debug, Clone, Copy)]
pub struct DiscoveryPace {
    pub last_broadcast: i64,
    pub last_stale_check: i64,
}

/// What the discovery loop has to do now.
#[derive(Debug, Clone, Copy)]
pub struct DiscoveryDuties {
    pub broadcast: bool,
    pub stale_check: bool,
}

/// Least time between two announcements.
pub const BROADCAST_INTERVAL_MS: i64 = 2500;

/// Least time between two looks for silent peers.
pub const STALE_CHECK_INTERVAL_MS: i64 = 1500;

impl DiscoveryPace {
    /// A loop that has done nothing yet.
    pub fn new() -> (r: Self)
        ensures
            r.last_broadcast == 0,
            r.last_stale_check == 0,
    {
        DiscoveryPace { last_broadcast: 0, last_stale_check: 0 }
    }

    /// Tells what is due at `now`, and counts it as done.
    pub fn tick(&mut self, now: i64) -> (r: DiscoveryDuties)
        requires
            elapsed_fits(old(self).last_broadcast, now),
            elapsed_fits(old(self).last_stale_check, now),
        ensures
            r.broadcast == (now - old(self).last_broadcast > BROADCAST_INTERVAL_MS),
            r.stale_check == (now - old(self).last_stale_check > STALE_CHECK_INTERVAL_MS),
            final(self).last_broadcast == if r.broadcast {
                now
            } else {
                old(self).last_broadcast
            },
            final(self).last_stale_check == if r.stale_check {
                now
            } else {
                old(self).last_stale_check
            },
    {
        let broadcast: bool = now - self.last_broadcast > BROADCAST_INTERVAL_MS;
        if broadcast {
            self.last_broadcast = now;
        }
        let stale_check: bool = now - self.last_stale_check > STALE_CHECK_INTERVAL_MS;
        if stale_check {
            self.last_stale_check = now;
        }
        DiscoveryDuties { broadcast, stale_check }
    }
}

/// The times at which received content is opened, where it arrives at the given
/// times and the last opening was at `last`.
pub open spec fn openings(last: i64, arrivals: Seq<i64>) -> Seq<i64>
    decreases arrivals.len(),
{
    if arrivals.len() == 0 {
        Seq::empty()
    } else if rate_allows(last, arrivals[0]) {
        seq![arrivals[0]] + openings(arrivals[0], arrivals.drop_first())
    } else {
        openings(last, arrivals.drop_first())
    }
}

/// However fast content arrives, no two openings in a row are closer together
/// than the least interval.
pub proof fn law_openings_are_spaced(last: i64, arrivals: Seq<i64>)
    ensures
        openings(last, arrivals).len() > 0 ==> rate_allows(last, openings(last, arrivals)[0]),
        forall|i: int|
            0 < i < openings(last, arrivals).len() ==> rate_allows(
                openings(last, arrivals)[i - 1],
                #[trigger] openings(last, arrivals)[i],
            ),
    decreases arrivals.len(),
{
    if arrivals.len() > 0 {
        let rest = arrivals.drop_first();
        if rate_allows(last, arrivals[0]) {
            law_openings_are_spaced(arrivals[0], rest);
            let all = openings(last, arrivals);
            let tail = openings(arrivals[0], rest);
            assert forall|i: int| 0 < i < all.len() implies rate_allows(
                all[i - 1],
                #[trigger] all[i],
            ) by {
                assert(all[i] == tail[i - 1]);
                if i > 1 {
                    assert(all[i - 1] == tail[i - 2]);
                }
            }
        } else {
            law_openings_are_spaced(last, rest);
        }
    }
}

/// Received content is opened exactly if the last opening was at least 1.2 s ago, and
/// that opening is then the one remembered.
pub proof fn law_auto_open_rate_ok(last: &mut i64, now: i64, r: bool)
    requires
        call_ensures(auto_open_rate_ok, (last, now), r),
    ensures
        r <==> now - *old(last) >= 1_200,
        r ==> *final(last) == now,
        !r ==> *final(last) == *old(last),
{
}

/// An announcement is due more than 2.5 s after the last, and a look for silent peers
/// more than 1.5 s after the last; what is due counts as done, and what is not does not.
pub proof fn law_tick(pace: &mut DiscoveryPace, now: i64, r: DiscoveryDuties)
    requires
        call_ensures(DiscoveryPace::tick, (pace, now), r),
    ensures
        r.broadcast <==> now - old(pace).last_broadcast > 2_500,
        r.stale_check <==> now - old(pace).last_stale_check > 1_500,
        r.broadcast ==> final(pace).last_broadcast == now,
        !r.broadcast ==> final(pace).last_broadcast == old(pace).last_broadcast,
        r.stale_check ==> final(pace).last_stale_check == now,
        !r.stale_check ==> final(pace).last_stale_check == old(pace).last_stale_check,
{
}

/// A time stamp is the number of milliseconds since the epoch, and zero for a clock set
/// before it.
pub proof fn law_time_stamp(millis: Option<u128>, r: i64)
    requires
        call_ensures(time_stamp, (millis,), r),
    ensures
        millis is None ==> r == 0,
        millis matches Some(n) ==> n <= i64::MAX ==> r == n,
{
}

/// A discovery loop that has done nothing yet finds both of its duties due as soon as the
/// clock has moved on by the longer interval.
pub proof fn law_new_pace(pace: &mut DiscoveryPace, now: i64, r: DiscoveryDuties)
    requires
        call_ensures(DiscoveryPace::new, (), *old(pace)),
        call_ensures(DiscoveryPace::tick, (pace, now), r),
        now > 2_500,
    ensures
        r.broadcast && r.stale_check,
{
}

} // verus!
