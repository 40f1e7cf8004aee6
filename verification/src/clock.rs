//! The time of an operation, and how long a session is missed before its agents are free.

use vstd::prelude::*;
use crate::database::{Clock, Moment};
use crate::order;
use crate::schedule;
use crate::schedule::later;
use crate::store;
use crate::store::Agent;

verus! {

/// The seconds without a sign of life after which a session counts as gone.
pub const SESSION_SECONDS: i64 = 10;

/// The first second of the year 0.
pub const FIRST_STORED: i64 = -62_167_219_200;

/// The last second of the year 9999.
pub const LAST_STORED: i64 = 253_402_300_799;

/// A second as the store keeps it.
pub uninterp spec fn stored_time_of(secs: i64) -> Seq<char>;

/// A second that the store can keep.
pub open spec fn storable(secs: i64) -> bool {
    FIRST_STORED <= secs <= LAST_STORED
}

/// `chrono::DateTime::from_timestamp` with `format("%Y-%m-%d %H:%M:%S")`: a second as a text, which
/// depends on the second alone. Within the years of four digits every field has a fixed width and
/// leading zeros, so that the texts are in the order of the seconds.
#[verifier::external_body]
fn stored_time(secs: i64) -> (r: String)
    requires
        storable(secs),
    ensures
        r@ == stored_time_of(secs),
        forall|t: i64|
            storable(t) ==> (order::lex_le(r@, #[trigger] stored_time_of(t)) <==> secs <= t),
{
    let time = chrono::DateTime::from_timestamp(secs, 0).unwrap_or_default();
    time.format("%Y-%m-%d %H:%M:%S").to_string()
}

/// The time of an operation at a second and a part of it: sessions whose last sign of life is more
/// than ten seconds old are before its cutoff, and no others.
pub open spec fn clock_at(m: Moment, secs: i64, nanos: u32) -> bool {
    &&& m.now == stored_time_of(secs)
    &&& m.cutoff == stored_time_of((secs - SESSION_SECONDS) as i64)
    &&& m.stamp == schedule::later_of(secs, nanos, 0)
    &&& m.millis == secs * 1000 + nanos as int / 1_000_000
    &&& forall|t: i64|
        storable(t) ==> (order::lex_le(m.cutoff, #[trigger] stored_time_of(t)) <==> secs
            - SESSION_SECONDS <= t)
}

/// The time of an operation, from the seconds since 1970 and the nanoseconds since the last one.
/// There is none before 1970, nor after the year 9999.
pub fn make_clock(secs: i64, nanos: u32) -> (r: Option<Clock>)
    ensures
        r is Some <==> 0 <= secs <= LAST_STORED && nanos < 1_000_000_000,
        r matches Some(c) ==> clock_at(c@, secs, nanos) && 0 <= c.millis <= schedule::LAST_MILLIS,
{
    if secs < 0 || secs > LAST_STORED || nanos >= 1_000_000_000 {
        return None;
    }
    Some(
        Clock {
            now: stored_time(secs),
            cutoff: stored_time(secs - SESSION_SECONDS),
            stamp: later(secs, nanos, 0),
            millis: secs * 1000 + (nanos / 1_000_000) as i64,
        },
    )
}

/// A session owns an agent until ten seconds have gone by since its last sign of life: so long no
/// other session gets it, it is not collected and its messages are delivered, and no longer.
pub proof fn ownership_lasts_ten_seconds(
    a: Agent,
    mine: Seq<char>,
    other: Seq<char>,
    seen: i64,
    m: Moment,
    secs: i64,
    nanos: u32,
)
    requires
        clock_at(m, secs, nanos),
        storable(seen),
        other != mine,
        a.session == Some(mine),
        a.heartbeat == Some(stored_time_of(seen)),
    ensures
        store::claimable(a, other, m.cutoff) <==> secs - seen > 10,
        store::listens(a, mine, m.cutoff) <==> secs - seen <= 10,
        a.name != "default"@ ==> (store::dormant(a, m.cutoff) <==> secs - seen > 10),
        store::claimable(a, mine, m.cutoff),
{
}

} // verus!
