use skillhive::local_store::outcomes::{backoff_seconds, BACKOFF_MAX_SECONDS};
use skillhive::server_config::{normalize_server_url, resolve, DEFAULT_SERVER_URL};
use skillhive::skill_snapshot::portable_path_to_relative;
use skillhive::sync::{classify_session_failure, SyncCycleError, SyncCycleReport, MAX_MUTATIONS_PER_CYCLE};
use skillhive::sync_client::{classify_status, parse_cookie_header, SyncClientError, REFRESH_COOKIE_NAME};
use skillhive::sync_pull::{MAX_PAGES_PER_CYCLE, PULL_PAGE_LIMIT};
use skillhive::sync_worker::{SyncWaker, PERIODIC_WAKE_SECS, STARTUP_DELAY_SECS};
use skillhive::telemetry::json_escape;
use skillhive::workspace::zip::validate_entry_name;

#[test]
fn backoff_is_bounded() {
    assert_eq!(backoff_seconds(0), 1);
    assert_eq!(backoff_seconds(1), 2);
    assert_eq!(backoff_seconds(3), 8);
    assert_eq!(backoff_seconds(6), 64);
    assert_eq!(backoff_seconds(u32::MAX), BACKOFF_MAX_SECONDS);
}

#[test]
fn normalizes_and_rejects_addresses() {
    assert_eq!(
        normalize_server_url(" http://localhost:8000/ ").unwrap(),
        "http://localhost:8000"
    );
    assert_eq!(
        normalize_server_url("https://skillhive.example.com").unwrap(),
        "https://skillhive.example.com"
    );
    assert!(normalize_server_url("localhost:8000").is_err());
    assert!(normalize_server_url("ftp://x").is_err());
    assert!(normalize_server_url("http://user@host").is_err());
    assert!(normalize_server_url("http://host/path?q=1").is_err());
    assert!(normalize_server_url("").is_err());
}

#[test]
fn resolution_order_is_stored_then_env_then_default() {
    assert_eq!(resolve(Some("http://a:1"), Some("http://b:2")), "http://a:1");
    assert_eq!(resolve(None, Some("http://b:2")), "http://b:2");
    assert_eq!(resolve(Some("not-a-url"), Some("http://b:2")), "http://b:2");
    assert_eq!(resolve(Some("http://a:1"), Some("also-bad")), "http://a:1");
    assert_eq!(resolve(None, None), DEFAULT_SERVER_URL);
}

#[test]
fn manifest_rejects_nonportable_windows_names() {
    for path in ["CON", "scripts/a:b.py", "trailing."] {
        assert!(portable_path_to_relative(path).is_err(), "{path}");
    }
}

#[test]
fn cycle_bounds_are_conservative() {
    const ABSOLUTE_DISPATCH_CEILING: u32 = 200;
    assert_eq!(
        MAX_MUTATIONS_PER_CYCLE.min(ABSOLUTE_DISPATCH_CEILING),
        MAX_MUTATIONS_PER_CYCLE
    );
}

#[test]
fn session_failure_classification_distinguishes_auth_from_transport() {
    let auth = SyncClientError::Authentication {
        code: "INVALID_REFRESH".to_owned(),
        status: 401,
    };
    assert!(matches!(
        classify_session_failure(auth),
        SyncCycleError::Authentication(_)
    ));

    let network = SyncClientError::Network("offline".to_owned());
    assert!(matches!(
        classify_session_failure(network),
        SyncCycleError::Failed {
            stage: "session refresh",
            ..
        }
    ));

    assert!(matches!(
        classify_session_failure(SyncClientError::NotSignedIn),
        SyncCycleError::NotSignedIn
    ));
}

#[test]
fn http_status_classification_matches_plan_error_classes() {
    let auth = classify_status(401, Some("INVALID_ACCESS_TOKEN".to_owned()));
    assert!(matches!(auth, SyncClientError::Authentication { .. }));
    assert_eq!(auth.status(), Some(401));
    assert_eq!(auth.error_code(), Some("INVALID_ACCESS_TOKEN"));

    assert!(matches!(classify_status(404, None), SyncClientError::Request { .. }));
    assert!(matches!(classify_status(500, None), SyncClientError::Server { .. }));
    assert!(matches!(classify_status(429, None), SyncClientError::Server { .. }));
}

#[test]
fn refresh_cookie_header_is_parsed() {
    let header = format!("{}=rotated-token; Path=/api/v1/auth; HttpOnly", REFRESH_COOKIE_NAME);
    let (name, value) = parse_cookie_header(&header).expect("cookie name/value");
    assert_eq!(name.trim(), REFRESH_COOKIE_NAME);
    assert_eq!(value.trim(), "rotated-token");
}

#[test]
fn pull_page_limit_is_bounded_like_the_server() {
    const SERVER_MAX_PULL_LIMIT: u32 = 200;
    assert_eq!(PULL_PAGE_LIMIT.min(SERVER_MAX_PULL_LIMIT), PULL_PAGE_LIMIT);
    assert_eq!(PULL_PAGE_LIMIT, 100);
}

#[test]
fn waker_coalesces_pokes() {
    let mut waker = SyncWaker::default();
    waker.poke();
    waker.poke();
    waker.poke();
    assert_eq!(waker.pending_pokes, 3);
}

#[test]
fn heartbeat_bounds_are_conservative() {
    assert!(PERIODIC_WAKE_SECS >= 60);
    assert!(STARTUP_DELAY_SECS < PERIODIC_WAKE_SECS);
}

#[test]
fn has_more_reflects_page_bound() {
    let report = SyncCycleReport {
        pushed: 0,
        pulled: true,
        pages_applied: MAX_PAGES_PER_CYCLE,
        upserts: 0,
        tombstones: 0,
        conflicts_detected: 0,
        blobs_downloaded: 0,
        stopped_reason: None,
    };
    assert!(report.has_more());

    let report = SyncCycleReport {
        pages_applied: 1,
        ..report
    };
    assert!(!report.has_more());
}

#[test]
fn values_are_json_escaped() {
    assert_eq!(json_escape("a\"b\\c\nd\te"), "a\\\"b\\\\c\\nd\\te");
    assert_eq!(json_escape("\u{1}"), "\\u0001");
    assert_eq!(json_escape("plain"), "plain");
}

#[test]
fn entry_name_validation_rejects_traversal_and_absolute_paths() {
    assert!(validate_entry_name("SKILL.md").is_ok());
    assert!(validate_entry_name("scripts/run.sh").is_ok());
    assert!(validate_entry_name("../escape").is_err());
    assert!(validate_entry_name("/absolute").is_err());
    assert!(validate_entry_name("C:/evil").is_err());
    assert!(validate_entry_name("a\\b.txt").is_err());
    assert!(validate_entry_name("dir/../../out").is_err());
    assert!(validate_entry_name("").is_err());
    assert!(validate_entry_name("./leading").is_err());
}
