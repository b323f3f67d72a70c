use account_pool::droid::{count_synced_models, droid_status, extract_version, CustomModelEntry};
use account_pool::strutil::{str_eq, str_starts_with};
use account_pool::warmup::warmup_call_succeeded;

fn entry(id: &str, base_url: Option<&str>) -> CustomModelEntry {
    CustomModelEntry {
        id: id.to_string(),
        base_url: base_url.map(|u| u.to_string()),
    }
}

#[test]
fn counts_only_marked_entries() {
    let entries = vec![
        entry("other:model", Some("http://elsewhere")),
        entry("custom:AG-one", None),
        entry("custom:AG-two", Some("http://127.0.0.1:8045")),
        entry("custom:BG-three", Some("http://x")),
    ];
    let (count, first_url) = count_synced_models(&entries);
    assert_eq!(count, 2);
    // The first synced entry has no URL; the next one supplies it.
    assert_eq!(first_url.as_deref(), Some("http://127.0.0.1:8045"));

    let (count, first_url) = count_synced_models(&vec![entry("other", None)]);
    assert_eq!(count, 0);
    assert!(first_url.is_none());
}

#[test]
fn status_of_uninstalled_tool_reports_no_sync() {
    let status = droid_status(
        false,
        None,
        true,
        Some("http://x".to_string()),
        5,
    );
    assert!(!status.installed);
    assert!(!status.is_synced);
    assert!(!status.has_backup);
    assert!(status.current_base_url.is_none());
    assert_eq!(status.synced_count, 0);
    assert_eq!(status.files, vec!["settings.json".to_string()]);

    let status = droid_status(
        true,
        Some("1.2.3".to_string()),
        true,
        Some("http://x".to_string()),
        2,
    );
    assert!(status.installed);
    assert!(status.is_synced);
    assert!(status.has_backup);
    assert_eq!(status.current_base_url.as_deref(), Some("http://x"));
    assert_eq!(status.synced_count, 2);
    assert_eq!(status.version.as_deref(), Some("1.2.3"));
}

#[test]
fn version_extraction_cases() {
    // A slash-qualified token yields the part after the slash.
    assert_eq!(extract_version("droid/1.2.3"), "1.2.3");
    assert_eq!(extract_version("droid/1.2.3 (build 5)"), "1.2.3");
    // A bare digits-and-dots token is taken as it stands.
    assert_eq!(extract_version("tool 2.0.1"), "2.0.1");
    assert_eq!(extract_version("1.2.3"), "1.2.3");
    // The fallback scans for the first digit-led run holding a dot.
    assert_eq!(extract_version("version: v3.4"), "3.4");
    // Nothing that looks like a version.
    assert_eq!(extract_version("abc"), "unknown");
    assert_eq!(extract_version(""), "unknown");
    assert_eq!(extract_version("x/y.z"), "unknown");
}

#[test]
fn string_helpers() {
    assert!(str_eq("abc", "abc"));
    assert!(!str_eq("abc", "abd"));
    assert!(!str_eq("abc", "ab"));
    assert!(str_starts_with("custom:AG-one", "custom:AG-"));
    assert!(!str_starts_with("custom:BG-one", "custom:AG-"));
    assert!(!str_starts_with("c", "custom:AG-"));
}

#[test]
fn warmup_endpoint_success_is_any_2xx() {
    assert!(warmup_call_succeeded(200));
    assert!(warmup_call_succeeded(204));
    assert!(warmup_call_succeeded(299));
    assert!(!warmup_call_succeeded(199));
    assert!(!warmup_call_succeeded(300));
    assert!(!warmup_call_succeeded(500));
}
