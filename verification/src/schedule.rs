//! When tasks run.

use vstd::prelude::*;
use crate::json;
use crate::text::text4;

verus! {

/// The latest time, in milliseconds, that leaves room for one more second.
pub const LAST_MILLIS: i64 = 8_210_266_876_798_999;

/// What a schedule says of the next run.
pub open spec fn next_view(r: Result<Option<String>, String>) -> Result<
    Option<Seq<char>>,
    Seq<char>,
> {
    match r {
        Ok(t) => Ok(json::opt_view(t)),
        Err(e) => Err(e@),
    }
}

/// When `cron` next runs an expression, or what it says is wrong with it.
pub uninterp spec fn next_run_of(expression: Seq<char>, now_ms: i64) -> Result<
    Option<Seq<char>>,
    Seq<char>,
>;

/// `cron::Schedule::from_str`, and the first time of `Schedule::after` the given one, in RFC 3339
/// form. It depends on the expression and the time alone.
#[verifier::external_body]
pub(crate) fn next_run(expression: &str, now_ms: i64) -> (r: Result<Option<String>, String>)
    requires
        0 <= now_ms <= LAST_MILLIS,
    ensures
        next_view(r) == next_run_of(expression@, now_ms),
{
    let schedule: cron::Schedule = expression.parse().map_err(|e: cron::error::Error| e.to_string())?;
    let now = chrono::DateTime::from_timestamp_millis(now_ms).unwrap_or_default();
    Ok(schedule.after(&now).next().map(|t| t.to_rfc3339()))
}

/// When a new task with a cron expression first runs.
pub open spec fn first_run(expression: Seq<char>, now_ms: i64) -> Result<
    Option<Seq<char>>,
    Seq<char>,
> {
    match next_run_of(expression, now_ms) {
        Ok(t) => Ok(t),
        Err(e) => Err("Invalid cron expression '"@ + expression + "': "@ + e),
    }
}

/// When a new task with a cron expression first runs, or why the expression is refused.
pub fn cron_first_run(expression: &str, now_ms: i64) -> (r: Result<Option<String>, String>)
    requires
        0 <= now_ms <= LAST_MILLIS,
    ensures
        next_view(r) == first_run(expression@, now_ms),
{
    match next_run(expression, now_ms) {
        Ok(t) => Ok(t),
        Err(e) => Err(text4("Invalid cron expression '", expression, "': ", e.as_str())),
    }
}

/// What `chrono` says is wrong with an RFC 3339 time.
pub uninterp spec fn rfc3339_fault_of(text: Seq<char>) -> Option<Seq<char>>;

/// `chrono::DateTime::parse_from_rfc3339`: its error as a text, or nothing where it reads the time.
/// It depends on the text alone.
#[verifier::external_body]
pub(crate) fn rfc3339_fault(text: &str) -> (r: Option<String>)
    ensures
        json::opt_view(r) == rfc3339_fault_of(text@),
{
    chrono::DateTime::parse_from_rfc3339(text).err().map(|e| e.to_string())
}

/// Refuses a time that is not in RFC 3339 form.
pub fn check_run_at(run_at: &str) -> (r: Result<(), String>)
    ensures
        match r {
            Ok(_) => rfc3339_fault_of(run_at@) is None,
            Err(e) => match rfc3339_fault_of(run_at@) {
                Some(f) => e@ == "Invalid RFC 3339 datetime '"@ + run_at@ + "': "@ + f,
                None => false,
            },
        },
{
    match rfc3339_fault(run_at) {
        Some(f) => Err(text4("Invalid RFC 3339 datetime '", run_at, "': ", f.as_str())),
        None => Ok(()),
    }
}

/// The seconds that a delay stands for: a delay beyond the greatest `i64` wraps around.
pub open spec fn delay_of(secs: u64) -> int {
    if secs <= i64::MAX {
        secs as int
    } else {
        secs - 0x1_0000_0000_0000_0000
    }
}

/// The first and the last second that a time can be in.
pub const FIRST_SECOND: i64 = -8_334_601_228_800;

/// The last second that a time can be in.
pub const LAST_SECOND: i64 = 8_210_266_876_799;

/// The longest delay, in seconds.
pub const LONGEST_DELAY: i64 = 9_223_372_036_854_775;

/// A time so many seconds later that it still is one.
pub open spec fn delay_fits(now_secs: i64, secs: u64) -> bool {
    &&& 0 <= now_secs <= LAST_SECOND
    &&& -LONGEST_DELAY <= delay_of(secs) <= LONGEST_DELAY
    &&& FIRST_SECOND <= now_secs + delay_of(secs) <= LAST_SECOND
}

/// Whether a time so many seconds later still is one.
pub fn delay_is_possible(now_secs: i64, secs: u64) -> (r: bool)
    ensures
        r == delay_fits(now_secs, secs),
{
    let delay: i128 = if secs <= 0x7fff_ffff_ffff_ffff {
        secs as i128
    } else {
        secs as i128 - 0x1_0000_0000_0000_0000
    };
    let then: i128 = now_secs as i128 + delay;
    0 <= now_secs && now_secs <= LAST_SECOND && -(LONGEST_DELAY as i128) <= delay && delay
        <= LONGEST_DELAY as i128 && FIRST_SECOND as i128 <= then && then <= LAST_SECOND as i128
}

/// A time in RFC 3339 form, some seconds after another one.
pub uninterp spec fn later_of(now_secs: i64, now_nanos: u32, delay: int) -> Seq<char>;

/// `chrono::DateTime::from_timestamp`, plus a `chrono::Duration` of so many seconds, with
/// `to_rfc3339`: the later time as a text. It depends on the time and the delay alone.
#[verifier::external_body]
pub(crate) fn later(now_secs: i64, now_nanos: u32, delay: i64) -> (r: String)
    requires
        0 <= now_secs <= LAST_SECOND,
        now_nanos < 1_000_000_000,
        -LONGEST_DELAY <= delay <= LONGEST_DELAY,
        FIRST_SECOND <= now_secs + delay <= LAST_SECOND,
    ensures
        r@ == later_of(now_secs, now_nanos, delay as int),
{
    let now = chrono::DateTime::from_timestamp(now_secs, now_nanos).unwrap_or_default();
    (now + chrono::Duration::seconds(delay)).to_rfc3339()
}

/// The time at which a one-shot task runs: the one that is given, or else the one after the delay.
pub fn choose_run_at(
    run_at: Option<String>,
    delay_seconds: Option<u64>,
    now_secs: i64,
    now_nanos: u32,
) -> (r: Result<String, String>)
    requires
        now_nanos < 1_000_000_000,
        run_at is None && delay_seconds is Some ==> delay_fits(now_secs, delay_seconds->0),
    ensures
        match r {
            Ok(t) => match run_at {
                Some(given) => t == given,
                None => match delay_seconds {
                    Some(secs) => t@ == later_of(now_secs, now_nanos, delay_of(secs)),
                    None => false,
                },
            },
            Err(e) => run_at is None && delay_seconds is None && e@
                == "Either 'run_at' or 'delay_seconds' must be provided"@,
        },
{
    match run_at {
        Some(given) => Ok(given),
        None => match delay_seconds {
            Some(secs) => {
                let delay: i64 = if secs <= 0x7fff_ffff_ffff_ffff {
                    secs as i64
                } else {
                    (secs as i128 - 0x1_0000_0000_0000_0000) as i64
                };
                Ok(later(now_secs, now_nanos, delay))
            },
            None => Err("Either 'run_at' or 'delay_seconds' must be provided".to_owned()),
        },
    }
}

} // verus!
