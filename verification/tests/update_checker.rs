use account_pool::update::{
    default_check_interval, evaluate_update, get_app_version, should_check_at,
    should_check_for_updates, update_last_check_time, UpdateSettings, VersionStatus,
    DEFAULT_CHECK_INTERVAL_HOURS,
};
use account_pool::versions::compare_versions;

#[test]
fn test_compare_versions() {
    // Test that newer version is detected
    assert!(compare_versions("3.3.36", "3.3.35"));
    assert!(compare_versions("3.4.0", "3.3.35"));
    assert!(compare_versions("4.0.3", "3.3.35"));

    // Test that older or equal versions are not detected as updates
    assert!(!compare_versions("3.3.34", "3.3.35"));
    assert!(!compare_versions("3.3.35", "3.3.35"));
}

#[test]
fn test_version_status_logic() {
    // Simulate version comparisons
    let current = "4.1.5";
    let min = "4.1.2";
    let latest = "4.1.12";

    // Test: current >= min (should not be BelowMinimum)
    assert!(!compare_versions(min, current));

    // Test: current < latest (should be UpdateAvailable)
    assert!(compare_versions(latest, current));

    // Test: current < min (should be BelowMinimum)
    let current_old = "4.1.1";
    assert!(compare_versions(min, current_old));

    // Test: current >= latest (should be UpToDate)
    let current_new = "4.1.12";
    assert!(!compare_versions(latest, current_new));
}

#[test]
fn test_should_check_for_updates() {
    let mut settings = UpdateSettings::default();
    assert!(should_check_for_updates(&settings));

    settings.last_check_time = std::time::SystemTime::now()
        .duration_since(std::time::UNIX_EPOCH)
        .unwrap()
        .as_secs();
    assert!(!should_check_for_updates(&settings));

    settings.auto_check = false;
    assert!(!should_check_for_updates(&settings));
}

#[test]
fn compare_versions_mixed_lengths_and_bad_segments() {
    // A missing part counts as zero.
    assert!(compare_versions("3.10", "3.9.9"));
    assert!(!compare_versions("3.9", "3.9.0"));
    // A non-numeric segment is skipped, as str::parse would fail on it.
    assert!(compare_versions("3.x.2", "3.0.1"));
    // A segment too large for u32 is skipped.
    assert!(!compare_versions("3.99999999999", "3"));
    // Empty strings hold no parts.
    assert!(!compare_versions("", ""));
}

#[test]
fn evaluate_update_maps_statuses() {
    let info = evaluate_update(
        "4.1.5".to_string(),
        "4.1.2".to_string(),
        "4.1.12".to_string(),
        "https://downloads.example".to_string(),
        Some("Custom Server".to_string()),
    );
    assert_eq!(info.version_status, VersionStatus::UpdateAvailable);
    assert!(info.has_update);
    assert_eq!(info.current_version, "4.1.5");
    assert_eq!(info.min_version, "4.1.2");
    assert_eq!(info.latest_version, "4.1.12");
    assert_eq!(info.download_url, "https://downloads.example");
    assert_eq!(info.source.as_deref(), Some("Custom Server"));

    let forced = evaluate_update(
        "4.1.1".to_string(),
        "4.1.2".to_string(),
        "4.1.12".to_string(),
        "d".to_string(),
        None,
    );
    assert_eq!(forced.version_status, VersionStatus::BelowMinimum);
    assert!(forced.has_update);

    let current = evaluate_update(
        "4.1.12".to_string(),
        "4.1.2".to_string(),
        "4.1.12".to_string(),
        "d".to_string(),
        None,
    );
    assert_eq!(current.version_status, VersionStatus::UpToDate);
    assert!(!current.has_update);
}

#[test]
fn check_is_due_exactly_at_the_interval() {
    let settings = UpdateSettings {
        auto_check: true,
        last_check_time: 1_000_000,
        check_interval_hours: 24,
    };
    // One second short of 24 hours: not due yet.
    assert!(!should_check_at(&settings, 1_000_000 + 24 * 3600 - 1));
    // Exactly 24 hours later: due.
    assert!(should_check_at(&settings, 1_000_000 + 24 * 3600));
    // A zero interval falls back to the default of 24 hours.
    let zero_interval = UpdateSettings {
        auto_check: true,
        last_check_time: 1_000_000,
        check_interval_hours: 0,
    };
    assert!(!should_check_at(&zero_interval, 1_000_000 + 23 * 3600));
    assert!(should_check_at(&zero_interval, 1_000_000 + 24 * 3600));
    // A clock behind the recorded time counts as no elapsed time.
    assert!(!should_check_at(&settings, 999_000));
}

#[test]
fn update_settings_bookkeeping() {
    assert_eq!(default_check_interval(), DEFAULT_CHECK_INTERVAL_HOURS);
    assert_eq!(get_app_version(), "0.1.0");

    let mut settings = UpdateSettings::default();
    assert!(settings.auto_check);
    assert_eq!(settings.last_check_time, 0);
    assert_eq!(settings.check_interval_hours, 24);

    update_last_check_time(&mut settings, 123456);
    assert_eq!(settings.last_check_time, 123456);
    assert!(settings.auto_check);
    assert_eq!(settings.check_interval_hours, 24);
}
