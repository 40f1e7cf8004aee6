//! Requests to GitHub: where they go, and when they are repeated.

use vstd::prelude::*;
use crate::json;
use crate::numbers;
use crate::numbers::{decimal_text, parse_unsigned};
use crate::text::{text2, text4, text5, to_chars};
use crate::words;
use crate::words::trim_text;

verus! {

/// The most attempts at a request.
pub const MAX_RETRIES: u32 = 5;

/// The longest wait for the end of a rate limit, in seconds.
pub const MAX_WAIT_SECONDS: u64 = 900;

/// A header of a response.
#[derive(Debug, PartialEq, Eq)]
pub enum Header {
    Absent,
    /// The header is there, but is no text.
    Unreadable,
    Text(String),
}

/// What a header gives as a number.
pub open spec fn header_number(h: Header) -> Option<nat> {
    match h {
        Header::Text(t) => numbers::read_unsigned(t@, 10, u64::MAX as nat),
        _ => None,
    }
}

/// The headers of a response that say when to try again.
pub struct RateHeaders {
    pub retry_after: Header,
    pub remaining: Header,
    pub reset: Header,
}

/// What follows an attempt at a request.
#[derive(Clone, Copy, Debug, PartialEq, Eq, Structural)]
pub enum RetryStep {
    /// The response is there.
    Done,
    /// The request is repeated after so many seconds.
    Retry(u64),
    /// The request has failed.
    Fail,
}

/// A status that says that there were too many requests.
pub open spec fn rate_limited(status: u16) -> bool {
    status == 403 || status == 429
}

/// A status after which a request is repeated.
pub open spec fn worth_repeating(status: u16) -> bool {
    rate_limited(status) || 500 <= status < 600
}

/// How long to wait where a rate limit is exhausted: until it ends, but not too long.
pub open spec fn limit_wait(h: RateHeaders, now: Option<u64>, usual: nat) -> nat {
    match (header_number(h.remaining), header_number(h.reset)) {
        (Some(remaining), Some(reset)) => match now {
            Some(n) => if remaining == 0 && reset > n {
                if reset - n < MAX_WAIT_SECONDS {
                    (reset - n) as nat
                } else {
                    MAX_WAIT_SECONDS as nat
                }
            } else {
                usual
            },
            None => usual,
        },
        _ => usual,
    }
}

/// How long to wait before the next attempt: as long as the response asks for, else longer with
/// each attempt.
pub open spec fn wait_after(attempt: u32, status: u16, h: RateHeaders, now: Option<u64>) -> nat {
    let usual = (5 * attempt) as nat;
    if !rate_limited(status) {
        usual
    } else {
        match h.retry_after {
            Header::Absent => limit_wait(h, now, usual),
            _ => match header_number(h.retry_after) {
                Some(seconds) => seconds,
                None => usual,
            },
        }
    }
}

/// What follows a response to the attempt of that number.
pub open spec fn after_response(
    attempt: u32,
    status: u16,
    h: RateHeaders,
    now: Option<u64>,
) -> RetryStep {
    if 200 <= status < 300 {
        RetryStep::Done
    } else if worth_repeating(status) && attempt < MAX_RETRIES {
        RetryStep::Retry(wait_after(attempt, status, h, now) as u64)
    } else {
        RetryStep::Fail
    }
}

fn read_header(h: &Header) -> (r: Option<u64>)
    ensures
        match r {
            Some(n) => header_number(*h) == Some(n as nat),
            None => header_number(*h) is None,
        },
{
    match h {
        Header::Text(t) => {
            let c = to_chars(t.as_str());
            parse_unsigned(c.as_slice(), 10, u64::MAX)
        },
        _ => None,
    }
}

fn wait_for_limit(h: &RateHeaders, now: Option<u64>, usual: u64) -> (r: u64)
    ensures
        r == limit_wait(*h, now, usual as nat),
{
    match (read_header(&h.remaining), read_header(&h.reset)) {
        (Some(remaining), Some(reset)) => match now {
            Some(n) => {
                if remaining == 0 && reset > n {
                    let wait: u64 = reset - n;
                    if wait < MAX_WAIT_SECONDS {
                        wait
                    } else {
                        MAX_WAIT_SECONDS
                    }
                } else {
                    usual
                }
            },
            None => usual,
        },
        _ => usual,
    }
}

/// What follows a response to the attempt of that number. `now` is the time in seconds, where it is
/// known.
pub fn take_response(attempt: u32, status: u16, h: &RateHeaders, now: Option<u64>) -> (r: RetryStep)
    ensures
        r == after_response(attempt, status, *h, now),
{
    if 200 <= status && status < 300 {
        return RetryStep::Done;
    }
    let limited = status == 403 || status == 429;
    let server_error = 500 <= status && status < 600;
    if (limited || server_error) && attempt < MAX_RETRIES {
        let usual: u64 = 5 * attempt as u64;
        let wait: u64 = if !limited {
            usual
        } else {
            match &h.retry_after {
                Header::Absent => wait_for_limit(h, now, usual),
                _ => match read_header(&h.retry_after) {
                    Some(seconds) => seconds,
                    None => usual,
                },
            }
        };
        RetryStep::Retry(wait)
    } else {
        RetryStep::Fail
    }
}

/// What follows an attempt of that number that brought no response.
pub fn take_failure(attempt: u32) -> (r: RetryStep)
    ensures
        r == (if attempt < MAX_RETRIES {
            RetryStep::Retry((2 * attempt) as u64)
        } else {
            RetryStep::Fail
        }),
{
    if attempt < MAX_RETRIES {
        RetryStep::Retry(2 * attempt as u64)
    } else {
        RetryStep::Fail
    }
}

/// The last attempt is not repeated, whatever comes of it.
pub proof fn attempts_are_bounded(attempt: u32, status: u16, h: RateHeaders, now: Option<u64>)
    requires
        attempt >= MAX_RETRIES,
    ensures
        !(after_response(attempt, status, h, now) is Retry),
{
}

/// Without a `Retry-After` header no wait is longer than the limit.
pub proof fn waits_are_bounded(attempt: u32, status: u16, h: RateHeaders, now: Option<u64>)
    requires
        h.retry_after is Absent,
    ensures
        match after_response(attempt, status, h, now) {
            RetryStep::Retry(secs) => secs <= MAX_WAIT_SECONDS,
            _ => true,
        },
{
}

/// A response is taken where it is a success. A refusal for too many requests and a failure of the
/// server are worth another attempt, as long as any is left: after the time that the response asks
/// for, else once the limit ends, but not after more than a quarter of an hour, else after five
/// seconds for each attempt so far.
pub proof fn requests_are_repeated_in_time(
    attempt: u32,
    status: u16,
    h: RateHeaders,
    now: Option<u64>,
)
    ensures
        ({
            let step = after_response(attempt, status, h, now);
            let limited = status == 403 || status == 429;
            let server = 500 <= status <= 599;
            let remaining = header_number(h.remaining);
            let reset = header_number(h.reset);
            let over = remaining == Some(0nat) && reset is Some && now is Some && reset->0 > now->0;
            &&& step == RetryStep::Done <==> 200 <= status <= 299
            &&& step is Retry <==> (limited || server) && attempt < 5
            &&& step matches RetryStep::Retry(secs) ==> {
                &&& server ==> secs == 5 * attempt
                &&& limited && header_number(h.retry_after) is Some ==> secs == header_number(
                    h.retry_after,
                )->0
                &&& limited && !(h.retry_after is Absent) && header_number(h.retry_after) is None
                    ==> secs == 5 * attempt
                &&& limited && h.retry_after is Absent && over && reset->0 - now->0 <= 900 ==> secs
                    == reset->0 - now->0
                &&& limited && h.retry_after is Absent && over && reset->0 - now->0 > 900 ==> secs
                    == 900
                &&& limited && h.retry_after is Absent && !over ==> secs == 5 * attempt
            }
        }),
{
    if let Header::Text(t) = h.retry_after {
        assert(header_number(h.retry_after) matches Some(n) ==> n <= u64::MAX);
    }
}

/// A number in a header is read.
pub proof fn header_numbers_are_read(t: String, n: u64)
    requires
        t@ == numbers::decimal(n as nat),
    ensures
        header_number(Header::Text(t)) == Some(n as nat),
{
    numbers::decimal_reads_back(n as nat, u64::MAX as nat);
}

/// The error for a status that is neither success nor an error.
pub fn odd_status_error(status: &str, url: &str) -> (r: String)
    ensures
        r@ == "HTTP status "@ + status@
            + " was not success but error_for_status returned Ok for URL: "@ + url@,
{
    text4(
        "HTTP status ",
        status,
        " was not success but error_for_status returned Ok for URL: ",
        url,
    )
}

/// The token in the text of a token file.
pub fn read_token(contents: &str) -> (r: Result<String, String>)
    ensures
        match r {
            Ok(t) => t@ == words::trimmed(contents@) && t@.len() > 0,
            Err(e) => words::trimmed(contents@).len() == 0 && e@ == "GitHub token file is empty"@,
        },
{
    let t = trim_text(contents);
    if t.as_str().is_empty() {
        Err("GitHub token file is empty".to_owned())
    } else {
        Ok(t)
    }
}

/// The value of the header that carries a token.
pub fn authorization(token: &str) -> (r: String)
    ensures
        r@ == "Bearer "@ + token@,
{
    text2("Bearer ", token)
}

/// A time some days back in RFC 3339 form, to the second.
pub uninterp spec fn days_before(now_secs: i64, days: u64) -> Option<Seq<char>>;

/// `chrono::DateTime::checked_sub_days` of the given time, with `to_rfc3339_opts` to the second:
/// nothing where there is no such time. It depends on the time and the days alone.
#[verifier::external_body]
pub(crate) fn days_ago(now_secs: i64, days: u64) -> (r: Option<String>)
    ensures
        json::opt_view(r) == days_before(now_secs, days),
{
    let now = chrono::DateTime::from_timestamp(now_secs, 0)?;
    let then = now.checked_sub_days(chrono::Days::new(days))?;
    Some(then.to_rfc3339_opts(chrono::SecondsFormat::Secs, true))
}

/// An address of the API, for what was updated since a time.
pub open spec fn since_url(repo: Seq<char>, what: Seq<char>, since: Seq<char>) -> Seq<char> {
    "https://api.github.com/repos/"@ + repo + what + "?since="@ + since
}

fn since_address(repo: &str, what: &str, now_secs: i64, days: u64) -> (r: Option<String>)
    ensures
        json::opt_view(r) == (match days_before(now_secs, days) {
            Some(t) => Some(since_url(repo@, what@, t)),
            None => None,
        }),
{
    match days_ago(now_secs, days) {
        Some(t) => Some(
            text5("https://api.github.com/repos/", repo, what, "?since=", t.as_str()),
        ),
        None => None,
    }
}

/// Where the issues of a repository are found that were updated within so many days. Nothing where
/// there is no time that far back.
pub fn get_github_issues(repo: &str, days: u64, now_secs: i64) -> (r: Option<String>)
    ensures
        json::opt_view(r) == (match days_before(now_secs, days) {
            Some(t) => Some(since_url(repo@, "/issues"@, t)),
            None => None,
        }),
{
    since_address(repo, "/issues", now_secs, days)
}

/// Where the pull requests of a repository are found that were updated within so many days. Nothing
/// where there is no time that far back.
pub fn get_github_pull_requests(repo: &str, days: u64, now_secs: i64) -> (r: Option<String>)
    ensures
        json::opt_view(r) == (match days_before(now_secs, days) {
            Some(t) => Some(since_url(repo@, "/pulls"@, t)),
            None => None,
        }),
{
    since_address(repo, "/pulls", now_secs, days)
}

/// Where a pull request is found.
pub fn get_github_pull_request(repo: &str, pr: u64) -> (r: String)
    ensures
        r@ == "https://api.github.com/repos/"@ + repo@ + "/pulls/"@ + numbers::decimal(pr as nat),
{
    let n = decimal_text(pr);
    text4("https://api.github.com/repos/", repo, "/pulls/", n.as_str())
}

/// Where the patch of a pull request is found.
pub fn get_github_pull_request_patch(repo: &str, pr: u64) -> (r: String)
    ensures
        r@ == "https://www.github.com/"@ + repo@ + "/pull/"@ + numbers::decimal(pr as nat)
            + ".patch"@,
{
    let n = decimal_text(pr);
    text5("https://www.github.com/", repo, "/pull/", n.as_str(), ".patch")
}

/// Where an issue is found.
pub fn get_github_issue(repo: &str, issue: u64) -> (r: String)
    ensures
        r@ == "https://api.github.com/repos/"@ + repo@ + "/issues/"@ + numbers::decimal(
            issue as nat,
        ),
{
    let n = decimal_text(issue);
    text4("https://api.github.com/repos/", repo, "/issues/", n.as_str())
}

/// Where the comments on an issue are found.
pub fn get_github_issue_comments(repo: &str, issue: u64) -> (r: String)
    ensures
        r@ == "https://api.github.com/repos/"@ + repo@ + "/issues/"@ + numbers::decimal(
            issue as nat,
        ) + "/comments"@,
{
    let n = decimal_text(issue);
    text5("https://api.github.com/repos/", repo, "/issues/", n.as_str(), "/comments")
}

} // verus!
