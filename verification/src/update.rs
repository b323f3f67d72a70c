//! Update-checker rules: how a fetched version manifest is judged against
//! the running version, and when an automatic check is due. Fetching the
//! manifest and storing the settings are the surrounding process's work.

use vstd::prelude::*;
use crate::versions::{compare_versions, version_newer, version_parts};

verus! {

/// Hours between automatic update checks when the settings give none.
pub const DEFAULT_CHECK_INTERVAL_HOURS: u64 = 24;

/// The version string this crate was built as.
pub const APP_VERSION: &'static str = "0.1.0";

/// How the running version stands to the published minimum and latest.
#[derive(Clone, Copy, Debug, PartialEq, Eq, Structural)]
pub enum VersionStatus {
    /// Below the published minimum: an update is forced.
    BelowMinimum,
    /// At or above the minimum but below the latest.
    UpdateAvailable,
    /// At or above the latest.
    UpToDate,
}

/// The outcome of one update check.
#[derive(Clone, Debug, PartialEq)]
pub struct UpdateInfo {
    pub current_version: String,
    pub latest_version: String,
    pub min_version: String,
    pub has_update: bool,
    pub download_url: String,
    pub version_status: VersionStatus,
    pub source: Option<String>,
}

/// Settings that govern the periodic update check.
#[derive(Clone, Debug, PartialEq)]
pub struct UpdateSettings {
    pub auto_check: bool,
    pub last_check_time: u64,
    pub check_interval_hours: u64,
}

/// The default interval between automatic checks, in hours.
pub fn default_check_interval() -> (r: u64)
    ensures
        r == DEFAULT_CHECK_INTERVAL_HOURS,
{
    DEFAULT_CHECK_INTERVAL_HOURS
}

impl core::default::Default for UpdateSettings {
    /// Checking is on, never yet performed, at the default interval.
    fn default() -> (r: UpdateSettings)
        ensures
            r.auto_check == true,
            r.last_check_time == 0,
            r.check_interval_hours == DEFAULT_CHECK_INTERVAL_HOURS,
    {
        UpdateSettings {
            auto_check: true,
            last_check_time: 0,
            check_interval_hours: DEFAULT_CHECK_INTERVAL_HOURS,
        }
    }
}

/// The version of the running application.
pub fn get_app_version() -> (r: String)
    ensures
        r@ == APP_VERSION@,
{
    APP_VERSION.to_owned()
}

/// The status of `current` against a manifest giving `min` and `latest`.
pub open spec fn version_status_spec(
    current: Seq<char>,
    min: Seq<char>,
    latest: Seq<char>,
) -> VersionStatus {
    if version_newer(version_parts(min), version_parts(current)) {
        VersionStatus::BelowMinimum
    } else if version_newer(version_parts(latest), version_parts(current)) {
        VersionStatus::UpdateAvailable
    } else {
        VersionStatus::UpToDate
    }
}

/// Judge a fetched version manifest against the running version.
pub fn evaluate_update(
    current_version: String,
    min_version: String,
    latest_version: String,
    download_url: String,
    source: Option<String>,
) -> (r: UpdateInfo)
    ensures
        r.version_status == version_status_spec(current_version@, min_version@, latest_version@),
        r.has_update == (r.version_status != VersionStatus::UpToDate),
        r.current_version == current_version,
        r.min_version == min_version,
        r.latest_version == latest_version,
        r.download_url == download_url,
        r.source == source,
{
    let version_status: VersionStatus = if compare_versions(
        min_version.as_str(),
        current_version.as_str(),
    ) {
        VersionStatus::BelowMinimum
    } else if compare_versions(latest_version.as_str(), current_version.as_str()) {
        VersionStatus::UpdateAvailable
    } else {
        VersionStatus::UpToDate
    };
    let has_update = !matches!(version_status, VersionStatus::UpToDate);
    UpdateInfo {
        current_version,
        latest_version,
        min_version,
        has_update,
        download_url,
        version_status,
        source,
    }
}

/// Seconds elapsed since the recorded last check; a clock that reads
/// before the recorded time counts as no elapsed time.
pub open spec fn elapsed_secs(settings: UpdateSettings, now: u64) -> int {
    if now >= settings.last_check_time {
        now - settings.last_check_time
    } else {
        0
    }
}

/// The interval the settings ask for, the default standing in for zero.
pub open spec fn effective_interval_hours(settings: UpdateSettings) -> int {
    if settings.check_interval_hours > 0 {
        settings.check_interval_hours as int
    } else {
        DEFAULT_CHECK_INTERVAL_HOURS as int
    }
}

/// A check is due when auto-checking is on and at least the effective
/// interval has elapsed since the last one.
pub open spec fn should_check_spec(settings: UpdateSettings, now: u64) -> bool {
    settings.auto_check && elapsed_secs(settings, now) / 3600 >= effective_interval_hours(settings)
}

/// Whether a check is due at time `now`.
pub fn should_check_at(settings: &UpdateSettings, now: u64) -> (r: bool)
    ensures
        r == should_check_spec(*settings, now),
{
    if !settings.auto_check {
        return false;
    }
    let elapsed: u64 = if now >= settings.last_check_time {
        now - settings.last_check_time
    } else {
        0
    };
    let elapsed_hours = elapsed / 3600;
    let interval = if settings.check_interval_hours > 0 {
        settings.check_interval_hours
    } else {
        DEFAULT_CHECK_INTERVAL_HOURS
    };
    elapsed_hours >= interval
}

/// Whether a check is due now, by the wall clock. With auto-checking off
/// the answer is no whatever the clock reads; the rule itself is pinned
/// by `should_check_at`.
pub fn should_check_for_updates(settings: &UpdateSettings) -> (r: bool)
    ensures
        !settings.auto_check ==> !r,
{
    let now = crate::clock::now_unix_seconds();
    should_check_at(settings, now)
}

/// Record that a check ran at time `now`; the other settings keep.
pub fn update_last_check_time(settings: &mut UpdateSettings, now: u64)
    ensures
        final(settings).last_check_time == now,
        final(settings).auto_check == old(settings).auto_check,
        final(settings).check_interval_hours == old(settings).check_interval_hours,
{
    settings.last_check_time = now;
}

} // verus!
