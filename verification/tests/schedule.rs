use faber::schedule::{check_run_at, choose_run_at, cron_first_run, delay_is_possible};

/// 2026-01-02T03:04:05Z.
const NOW: i64 = 1_767_323_045;

#[test]
fn a_cron_expression_gives_the_first_run() {
    assert_eq!(
        cron_first_run("0 0 * * * * *", NOW * 1000),
        Ok(Some("2026-01-02T04:00:00+00:00".to_string()))
    );
    assert_eq!(cron_first_run("0 0 0 1 1 * 2020", NOW * 1000), Ok(None));
    let e = cron_first_run("every day", NOW * 1000).unwrap_err();
    assert!(e.starts_with("Invalid cron expression 'every day': "));
}

#[test]
fn times_are_checked() {
    assert_eq!(check_run_at("2026-01-02T03:04:05Z"), Ok(()));
    assert_eq!(check_run_at("2026-01-02T03:04:05+02:00"), Ok(()));
    let e = check_run_at("2026-01-02").unwrap_err();
    assert!(e.starts_with("Invalid RFC 3339 datetime '2026-01-02': "));
    assert_ne!(e, "Invalid RFC 3339 datetime '2026-01-02': ");
}

#[test]
fn a_delay_is_added_to_the_time() {
    let at = choose_run_at(None, Some(90), NOW, 0);
    assert_eq!(at, Ok("2026-01-02T03:05:35+00:00".to_string()));
    let at = choose_run_at(None, Some(0), NOW, 500_000_000);
    assert_eq!(at, Ok("2026-01-02T03:04:05.500+00:00".to_string()));
    let at = choose_run_at(Some("x".to_string()), Some(1), NOW, 0);
    assert_eq!(at, Ok("x".to_string()));
    assert_eq!(
        choose_run_at(None, None, NOW, 0),
        Err("Either 'run_at' or 'delay_seconds' must be provided".to_string())
    );
}

#[test]
fn not_every_delay_is_possible() {
    assert!(delay_is_possible(NOW, 1_000_000));
    assert!(delay_is_possible(NOW, u64::MAX));
    assert!(!delay_is_possible(NOW, i64::MAX as u64));
    assert_eq!(
        choose_run_at(None, Some(u64::MAX), NOW, 0),
        Ok("2026-01-02T03:04:04+00:00".to_string())
    );
}
