use faber::github::{
    authorization, get_github_issue, get_github_issue_comments, get_github_issues,
    get_github_pull_request, get_github_pull_request_patch, get_github_pull_requests,
    odd_status_error, read_token, take_failure, take_response, Header, RateHeaders, RetryStep,
};

fn headers(retry_after: Header, remaining: Header, reset: Header) -> RateHeaders {
    RateHeaders { retry_after, remaining, reset }
}

fn text(t: &str) -> Header {
    Header::Text(t.to_string())
}

fn bare() -> RateHeaders {
    headers(Header::Absent, Header::Absent, Header::Absent)
}

#[test]
fn success_and_refusals_are_not_repeated() {
    assert_eq!(take_response(1, 200, &bare(), Some(0)), RetryStep::Done);
    assert_eq!(take_response(1, 299, &bare(), None), RetryStep::Done);
    assert_eq!(take_response(1, 404, &bare(), Some(0)), RetryStep::Fail);
}

#[test]
fn errors_of_the_server_are_repeated_ever_later() {
    assert_eq!(take_response(1, 500, &bare(), Some(0)), RetryStep::Retry(5));
    assert_eq!(take_response(4, 503, &bare(), Some(0)), RetryStep::Retry(20));
    assert_eq!(take_response(5, 503, &bare(), Some(0)), RetryStep::Fail);
    assert_eq!(take_failure(1), RetryStep::Retry(2));
    assert_eq!(take_failure(4), RetryStep::Retry(8));
    assert_eq!(take_failure(5), RetryStep::Fail);
}

#[test]
fn a_rate_limit_says_how_long_to_wait() {
    let h = headers(text("17"), text("0"), text("100"));
    assert_eq!(take_response(1, 429, &h, Some(0)), RetryStep::Retry(17));
    let h = headers(text("soon"), text("0"), text("100"));
    assert_eq!(take_response(2, 403, &h, Some(0)), RetryStep::Retry(10));
    let h = headers(Header::Unreadable, text("0"), text("100"));
    assert_eq!(take_response(2, 403, &h, Some(0)), RetryStep::Retry(10));
    let h = headers(Header::Absent, text("0"), text("160"));
    assert_eq!(take_response(1, 403, &h, Some(100)), RetryStep::Retry(60));
    assert_eq!(take_response(1, 403, &h, Some(160)), RetryStep::Retry(5));
    assert_eq!(take_response(1, 403, &h, None), RetryStep::Retry(5));
    let h = headers(Header::Absent, text("0"), text("5000"));
    assert_eq!(take_response(1, 403, &h, Some(0)), RetryStep::Retry(900));
    let h = headers(Header::Absent, text("1"), text("160"));
    assert_eq!(take_response(1, 403, &h, Some(100)), RetryStep::Retry(5));
    let h = headers(text("17"), text("0"), text("100"));
    assert_eq!(take_response(1, 500, &h, Some(0)), RetryStep::Retry(5));
}

#[test]
fn addresses_of_the_api() {
    let api = "https://api.github.com/repos/o/r";
    assert_eq!(get_github_issue("o/r", 12), format!("{}/issues/12", api));
    assert_eq!(get_github_issue_comments("o/r", 12), format!("{}/issues/12/comments", api));
    assert_eq!(get_github_pull_request("o/r", 7), format!("{}/pulls/7", api));
    assert_eq!(
        get_github_pull_request_patch("o/r", 7),
        "https://www.github.com/o/r/pull/7.patch"
    );
    let day = 86_400;
    assert_eq!(
        get_github_issues("o/r", 2, 10 * day),
        Some(format!("{}/issues?since=1970-01-09T00:00:00Z", api))
    );
    assert_eq!(
        get_github_pull_requests("o/r", 1, 10 * day),
        Some(format!("{}/pulls?since=1970-01-10T00:00:00Z", api))
    );
    assert_eq!(get_github_issues("o/r", u64::MAX, 10 * day), None);
}

#[test]
fn a_token_has_to_hold_something() {
    assert_eq!(read_token("  abc\n"), Ok("abc".to_string()));
    assert!(read_token(" \n").is_err());
    assert!(authorization("abc").ends_with("abc"));
    assert!(odd_status_error("404 Not Found", "http://x").contains("404 Not Found"));
}
