use nv_driver_helper::query::decide_outcome;
use nv_driver_helper::query::VersionCheckFailure;
use nv_driver_helper::query::VersionCheckResult;
use nv_driver_helper::version::compare_versions;
use nv_driver_helper::version::parse_version;

fn cmp(a: &str, b: &str) -> i8 {
    compare_versions(&parse_version(a).unwrap(), &parse_version(b).unwrap())
}

#[test]
fn parse_simple_versions() {
    assert_eq!(parse_version("552.12"), Some(vec![552, 12]));
    assert_eq!(parse_version("10.0.1"), Some(vec![10, 0, 1]));
    assert_eq!(parse_version("0"), Some(vec![0]));
    assert_eq!(parse_version("007"), Some(vec![7]));
}

#[test]
fn parse_rejects_malformed_versions() {
    assert_eq!(parse_version(""), None);
    assert_eq!(parse_version("1..2"), None);
    assert_eq!(parse_version("1.2."), None);
    assert_eq!(parse_version(".1"), None);
    assert_eq!(parse_version("abc"), None);
    assert_eq!(parse_version("1.a"), None);
    assert_eq!(parse_version("1 .2"), None);
}

#[test]
fn parse_rejects_oversized_segment() {
    // one digit beyond what a 64-bit segment can hold
    assert_eq!(parse_version("18446744073709551616"), None);
    assert_eq!(parse_version("18446744073709551615"), Some(vec![u64::MAX]));
}

#[test]
fn numeric_not_lexical_order() {
    assert_eq!(cmp("551.23", "551.9"), 1);
    assert_eq!(cmp("551.9", "551.23"), -1);
    assert_eq!(cmp("10.0.1", "9.99.99"), 1);
    assert_eq!(cmp("10.2", "9.8"), 1);
    assert_eq!(cmp("1.0", "1.0"), 0);
}

#[test]
fn missing_segments_count_as_zero() {
    assert_eq!(cmp("1.0", "1.0.0"), 0);
    assert_eq!(cmp("1.0.1", "1.0"), 1);
    assert_eq!(cmp("1", "1.1"), -1);
}

#[test]
fn equal_versions_mean_no_update() {
    let r = decide_outcome("552.12", "552.12", "https://example.invalid/pkg");
    assert_eq!(
        r,
        VersionCheckResult::NoUpdate(String::from("552.12"), String::from("552.12"))
    );
}

#[test]
fn newer_remote_version_means_update() {
    let r = decide_outcome("551.9", "552.12", "https://example.invalid/pkg");
    assert_eq!(
        r,
        VersionCheckResult::UpdateAvailable(
            String::from("551.9"),
            String::from("552.12"),
            String::from("https://example.invalid/pkg"),
        )
    );
}

#[test]
fn older_remote_version_means_no_update() {
    let r = decide_outcome("552.12", "551.9", "https://example.invalid/pkg");
    assert_eq!(
        r,
        VersionCheckResult::NoUpdate(String::from("552.12"), String::from("551.9"))
    );
}

#[test]
fn unreadable_current_version_fails_the_query() {
    let r = decide_outcome("not a version", "552.12", "u");
    assert_eq!(
        r,
        VersionCheckResult::Failure(VersionCheckFailure::CurrentVersionUnreadable)
    );
}

#[test]
fn unreadable_latest_version_fails_the_lookup() {
    let r = decide_outcome("552.12", "", "u");
    assert_eq!(
        r,
        VersionCheckResult::Failure(VersionCheckFailure::RemoteLookupFailed)
    );
}
