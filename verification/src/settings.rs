//! The settings the user edits: popup modules, display language, and the
//! normalisation applied before settings are saved.
use vstd::prelude::*;

use crate::importer::opt_view;
use crate::menu_bar::{
    live_quota_bucket_of, live_quota_metric_of, menu_bar_bucket_of, normalize_menu_bar_bucket,
    normalize_menu_bar_live_quota_bucket, normalize_menu_bar_live_quota_metric,
    normalize_menu_bar_popup_modules, normalize_menu_bar_speed_emoji, popup_modules_of,
    speed_emoji_of,
};
use crate::models::{copy_opt_string, SyncSettings};
use crate::text::{owned, str_eq, trim_seq};
use crate::{bool_to_i64, i64_to_bool};

verus! {

/// The popup modules shown when none were chosen.
pub fn default_menu_bar_popup_modules() -> (r: Vec<String>)
    ensures
        r@.map_values(|s: String| s@) == seq!["api_value"@, "scan_freshness"@],
{
    let mut modules: Vec<String> = Vec::new();
    modules.push("api_value".to_owned());
    modules.push("scan_freshness".to_owned());
    assert(modules@.map_values(|s: String| s@) =~= seq!["api_value"@, "scan_freshness"@]);
    modules
}

/// What `serde_json` reads from `text` as a JSON array of strings.
pub uninterp spec fn json_string_list(text: Seq<char>) -> Option<Seq<Seq<char>>>;

/// The JSON text `serde_json` writes for a list of strings.
pub uninterp spec fn json_text_of_strings(items: Seq<Seq<char>>) -> Seq<char>;

/// Reads `text` as a JSON array of strings with `serde_json::from_str`;
/// `None` when it is not one. The result is named, not described.
#[verifier::external_body]
fn parse_json_string_list(text: &str) -> (r: Option<Vec<String>>)
    ensures
        match r {
            Some(v) => json_string_list(text@) == Some(v@.map_values(|s: String| s@)),
            None => json_string_list(text@) is None,
        },
{
    serde_json::from_str::<Vec<String>>(text).ok()
}

/// Writes a list of strings as JSON with `serde_json::to_string`, which
/// cannot fail for strings; the text is named, not described. Claimed
/// besides: `serde_json::from_str` reads the strings back from it, each
/// escaped on the way out and unescaped on the way in.
#[verifier::external_body]
fn write_json_string_list(items: &Vec<String>) -> (r: String)
    ensures
        r@ == json_text_of_strings(items@.map_values(|s: String| s@)),
        json_string_list(r@) == Some(items@.map_values(|s: String| s@)),
{
    serde_json::to_string(items).unwrap_or_default()
}

/// The stored popup modules: the known modules of the JSON list, each once;
/// the defaults when the text is not a JSON list of strings.
pub fn deserialize_menu_bar_popup_modules(value: &str) -> (r: Vec<String>)
    ensures
        r@.map_values(|s: String| s@) == match json_string_list(value@) {
            Some(list) => popup_modules_of(list),
            None => seq!["api_value"@, "scan_freshness"@],
        },
{
    match parse_json_string_list(value) {
        Some(list) => normalize_menu_bar_popup_modules(&list),
        None => default_menu_bar_popup_modules(),
    }
}

/// The popup modules as stored, which read back as the same modules.
pub fn serialize_menu_bar_popup_modules(modules: &Vec<String>) -> (r: String)
    ensures
        r@ == json_text_of_strings(modules@.map_values(|s: String| s@)),
        json_string_list(r@) == Some(modules@.map_values(|s: String| s@)),
{
    write_json_string_list(modules)
}

/// The stored form of the default popup modules.
pub fn default_menu_bar_popup_modules_json() -> (r: String)
    ensures
        r@ == json_text_of_strings(seq!["api_value"@, "scan_freshness"@]),
{
    let modules = default_menu_bar_popup_modules();
    serialize_menu_bar_popup_modules(&modules)
}

/// The display language: `en`, else `zh-CN`.
pub fn normalize_display_language(value: &str) -> (r: String)
    ensures
        r@ == (if value@ == "en"@ {
            "en"@
        } else {
            "zh-CN"@
        }),
{
    if str_eq(value, "en") {
        "en".to_owned()
    } else {
        "zh-CN".to_owned()
    }
}

pub open spec fn at_least_one(v: i64) -> i64 {
    if v < 1 {
        1
    } else {
        v
    }
}

pub open spec fn clamp_i64(v: i64, lo: i64, hi: i64) -> i64 {
    if v < lo {
        lo
    } else if v > hi {
        hi
    } else {
        v
    }
}

fn clamp_exec(v: i64, lo: i64, hi: i64) -> (r: i64)
    requires
        lo <= hi,
    ensures
        r == clamp_i64(v, lo, hi),
{
    if v < lo {
        lo
    } else if v > hi {
        hi
    } else {
        v
    }
}

/// What holds of settings after `normalize_sync_settings`.
pub open spec fn settings_normalized_from(
    r: SyncSettings,
    payload: SyncSettings,
    current: SyncSettings,
) -> bool {
    &&& r.codex_home == payload.codex_home
    &&& r.auto_scan_enabled == payload.auto_scan_enabled
    &&& r.auto_scan_interval_minutes == at_least_one(payload.auto_scan_interval_minutes)
    &&& r.remote_auto_update_enabled == payload.remote_auto_update_enabled
    &&& r.remote_auto_update_interval_minutes == at_least_one(
        payload.remote_auto_update_interval_minutes,
    )
    &&& r.live_quota_refresh_interval_seconds == clamp_i64(
        payload.live_quota_refresh_interval_seconds,
        60,
        3600,
    )
    &&& r.hide_dock_icon_when_menu_bar_visible == payload.hide_dock_icon_when_menu_bar_visible
    &&& r.show_menu_bar_logo == payload.show_menu_bar_logo
    &&& r.show_menu_bar_daily_api_value == payload.show_menu_bar_daily_api_value
    &&& r.show_menu_bar_live_quota_percent == payload.show_menu_bar_live_quota_percent
    &&& r.menu_bar_live_quota_metric@ == live_quota_metric_of(payload.menu_bar_live_quota_metric@)
    &&& r.menu_bar_live_quota_bucket@ == live_quota_bucket_of(payload.menu_bar_live_quota_bucket@)
    &&& r.menu_bar_bucket@ == menu_bar_bucket_of(payload.menu_bar_bucket@)
    &&& r.menu_bar_speed_show_emoji == payload.menu_bar_speed_show_emoji
    &&& r.menu_bar_speed_fast_threshold_percent == clamp_i64(
        payload.menu_bar_speed_fast_threshold_percent,
        0,
        1000,
    )
    &&& r.menu_bar_speed_slow_threshold_percent == clamp_i64(
        payload.menu_bar_speed_slow_threshold_percent,
        0,
        1000,
    )
    &&& r.menu_bar_speed_healthy_emoji@ == speed_emoji_of(
        payload.menu_bar_speed_healthy_emoji@,
        "🟢"@,
    )
    &&& r.menu_bar_speed_fast_emoji@ == speed_emoji_of(payload.menu_bar_speed_fast_emoji@, "🔥"@)
    &&& r.menu_bar_speed_slow_emoji@ == speed_emoji_of(payload.menu_bar_speed_slow_emoji@, "🐢"@)
    &&& r.menu_bar_popup_enabled == payload.menu_bar_popup_enabled
    &&& r.menu_bar_popup_modules@.map_values(|s: String| s@) == popup_modules_of(
        payload.menu_bar_popup_modules@.map_values(|s: String| s@),
    )
    &&& r.menu_bar_popup_show_reset_timeline == payload.menu_bar_popup_show_reset_timeline
    &&& r.menu_bar_popup_show_actions == payload.menu_bar_popup_show_actions
    &&& r.last_scan_started_at == current.last_scan_started_at
    &&& r.last_scan_completed_at == current.last_scan_completed_at
    &&& r.updated_at == current.updated_at
}

/// The settings to save from what the user submitted and the settings
/// currently stored.
pub fn normalize_sync_settings(payload: &SyncSettings, current: &SyncSettings) -> (r: SyncSettings)
    ensures
        settings_normalized_from(r, *payload, *current),
{
    SyncSettings {
        codex_home: copy_opt_string(&payload.codex_home),
        auto_scan_enabled: payload.auto_scan_enabled,
        auto_scan_interval_minutes: if payload.auto_scan_interval_minutes < 1 {
            1
        } else {
            payload.auto_scan_interval_minutes
        },
        remote_auto_update_enabled: payload.remote_auto_update_enabled,
        remote_auto_update_interval_minutes: if payload.remote_auto_update_interval_minutes < 1 {
            1
        } else {
            payload.remote_auto_update_interval_minutes
        },
        live_quota_refresh_interval_seconds: clamp_exec(
            payload.live_quota_refresh_interval_seconds,
            60,
            3600,
        ),
        hide_dock_icon_when_menu_bar_visible: payload.hide_dock_icon_when_menu_bar_visible,
        show_menu_bar_logo: payload.show_menu_bar_logo,
        show_menu_bar_daily_api_value: payload.show_menu_bar_daily_api_value,
        show_menu_bar_live_quota_percent: payload.show_menu_bar_live_quota_percent,
        menu_bar_live_quota_metric: normalize_menu_bar_live_quota_metric(
            payload.menu_bar_live_quota_metric.as_str(),
        ),
        menu_bar_live_quota_bucket: normalize_menu_bar_live_quota_bucket(
            payload.menu_bar_live_quota_bucket.as_str(),
        ),
        menu_bar_bucket: normalize_menu_bar_bucket(payload.menu_bar_bucket.as_str()),
        menu_bar_speed_show_emoji: payload.menu_bar_speed_show_emoji,
        menu_bar_speed_fast_threshold_percent: clamp_exec(
            payload.menu_bar_speed_fast_threshold_percent,
            0,
            1000,
        ),
        menu_bar_speed_slow_threshold_percent: clamp_exec(
            payload.menu_bar_speed_slow_threshold_percent,
            0,
            1000,
        ),
        menu_bar_speed_healthy_emoji: normalize_menu_bar_speed_emoji(
            payload.menu_bar_speed_healthy_emoji.as_str(),
            "🟢",
        ),
        menu_bar_speed_fast_emoji: normalize_menu_bar_speed_emoji(
            payload.menu_bar_speed_fast_emoji.as_str(),
            "🔥",
        ),
        menu_bar_speed_slow_emoji: normalize_menu_bar_speed_emoji(
            payload.menu_bar_speed_slow_emoji.as_str(),
            "🐢",
        ),
        menu_bar_popup_enabled: payload.menu_bar_popup_enabled,
        menu_bar_popup_modules: normalize_menu_bar_popup_modules(&payload.menu_bar_popup_modules),
        menu_bar_popup_show_reset_timeline: payload.menu_bar_popup_show_reset_timeline,
        menu_bar_popup_show_actions: payload.menu_bar_popup_show_actions,
        last_scan_started_at: copy_opt_string(&current.last_scan_started_at),
        last_scan_completed_at: copy_opt_string(&current.last_scan_completed_at),
        updated_at: current.updated_at.clone(),
    }
}

// ---------------------------------------------------------------------------
// The stored settings
// ---------------------------------------------------------------------------

/// The columns the settings are stored in.
#[derive(Debug, Clone)]
pub struct SyncSettingsRow {
    pub codex_home: Option<String>,
    pub auto_scan_enabled: i64,
    pub auto_scan_interval_minutes: i64,
    pub remote_auto_update_enabled: i64,
    pub remote_auto_update_interval_minutes: i64,
    pub live_quota_refresh_interval_seconds: i64,
    pub hide_dock_icon_when_menu_bar_visible: i64,
    pub show_menu_bar_logo: i64,
    pub show_menu_bar_daily_api_value: i64,
    pub show_menu_bar_live_quota_percent: i64,
    pub menu_bar_live_quota_metric: String,
    pub menu_bar_live_quota_bucket: String,
    pub menu_bar_bucket: String,
    pub menu_bar_speed_show_emoji: i64,
    pub menu_bar_speed_fast_threshold_percent: i64,
    pub menu_bar_speed_slow_threshold_percent: i64,
    pub menu_bar_speed_healthy_emoji: String,
    pub menu_bar_speed_fast_emoji: String,
    pub menu_bar_speed_slow_emoji: String,
    pub menu_bar_popup_enabled: i64,
    pub menu_bar_popup_modules: String,
    pub menu_bar_popup_show_reset_timeline: i64,
    pub menu_bar_popup_show_actions: i64,
    pub last_scan_started_at: Option<String>,
    pub last_scan_completed_at: Option<String>,
    pub updated_at: String,
}

pub open spec fn flag(b: bool) -> i64 {
    if b {
        1
    } else {
        0
    }
}

/// The row settings are saved as at `updated_at`: flags as 0 or 1, the
/// intervals and thresholds brought into range, the popup modules as JSON.
pub open spec fn settings_row_matches(row: SyncSettingsRow, s: SyncSettings, updated_at: Seq<char>) -> bool {
    &&& row.codex_home == s.codex_home
    &&& row.auto_scan_enabled == flag(s.auto_scan_enabled)
    &&& row.auto_scan_interval_minutes == at_least_one(s.auto_scan_interval_minutes)
    &&& row.remote_auto_update_enabled == flag(s.remote_auto_update_enabled)
    &&& row.remote_auto_update_interval_minutes == at_least_one(s.remote_auto_update_interval_minutes)
    &&& row.live_quota_refresh_interval_seconds == clamp_i64(s.live_quota_refresh_interval_seconds, 60, 3600)
    &&& row.hide_dock_icon_when_menu_bar_visible == flag(s.hide_dock_icon_when_menu_bar_visible)
    &&& row.show_menu_bar_logo == flag(s.show_menu_bar_logo)
    &&& row.show_menu_bar_daily_api_value == flag(s.show_menu_bar_daily_api_value)
    &&& row.show_menu_bar_live_quota_percent == flag(s.show_menu_bar_live_quota_percent)
    &&& row.menu_bar_live_quota_metric == s.menu_bar_live_quota_metric
    &&& row.menu_bar_live_quota_bucket == s.menu_bar_live_quota_bucket
    &&& row.menu_bar_bucket == s.menu_bar_bucket
    &&& row.menu_bar_speed_show_emoji == flag(s.menu_bar_speed_show_emoji)
    &&& row.menu_bar_speed_fast_threshold_percent == clamp_i64(s.menu_bar_speed_fast_threshold_percent, 0, 1000)
    &&& row.menu_bar_speed_slow_threshold_percent == clamp_i64(s.menu_bar_speed_slow_threshold_percent, 0, 1000)
    &&& row.menu_bar_speed_healthy_emoji == s.menu_bar_speed_healthy_emoji
    &&& row.menu_bar_speed_fast_emoji == s.menu_bar_speed_fast_emoji
    &&& row.menu_bar_speed_slow_emoji == s.menu_bar_speed_slow_emoji
    &&& row.menu_bar_popup_enabled == flag(s.menu_bar_popup_enabled)
    &&& row.menu_bar_popup_modules@ == json_text_of_strings(s.menu_bar_popup_modules@.map_values(|m: String| m@))
    &&& json_string_list(row.menu_bar_popup_modules@) == Some(s.menu_bar_popup_modules@.map_values(|m: String| m@))
    &&& row.menu_bar_popup_show_reset_timeline == flag(s.menu_bar_popup_show_reset_timeline)
    &&& row.menu_bar_popup_show_actions == flag(s.menu_bar_popup_show_actions)
    &&& row.last_scan_started_at == s.last_scan_started_at
    &&& row.last_scan_completed_at == s.last_scan_completed_at
    &&& row.updated_at@ == updated_at
}

/// The row settings are saved as, stamped `updated_at`.
pub fn sync_settings_row(settings: &SyncSettings, updated_at: &str) -> (r: SyncSettingsRow)
    ensures
        settings_row_matches(r, *settings, updated_at@),
{
    SyncSettingsRow {
        codex_home: copy_opt_string(&settings.codex_home),
        auto_scan_enabled: bool_to_i64(settings.auto_scan_enabled),
        auto_scan_interval_minutes: if settings.auto_scan_interval_minutes < 1 {
            1
        } else {
            settings.auto_scan_interval_minutes
        },
        remote_auto_update_enabled: bool_to_i64(settings.remote_auto_update_enabled),
        remote_auto_update_interval_minutes: if settings.remote_auto_update_interval_minutes < 1 {
            1
        } else {
            settings.remote_auto_update_interval_minutes
        },
        live_quota_refresh_interval_seconds: clamp_exec(settings.live_quota_refresh_interval_seconds, 60, 3600),
        hide_dock_icon_when_menu_bar_visible: bool_to_i64(settings.hide_dock_icon_when_menu_bar_visible),
        show_menu_bar_logo: bool_to_i64(settings.show_menu_bar_logo),
        show_menu_bar_daily_api_value: bool_to_i64(settings.show_menu_bar_daily_api_value),
        show_menu_bar_live_quota_percent: bool_to_i64(settings.show_menu_bar_live_quota_percent),
        menu_bar_live_quota_metric: settings.menu_bar_live_quota_metric.clone(),
        menu_bar_live_quota_bucket: settings.menu_bar_live_quota_bucket.clone(),
        menu_bar_bucket: settings.menu_bar_bucket.clone(),
        menu_bar_speed_show_emoji: bool_to_i64(settings.menu_bar_speed_show_emoji),
        menu_bar_speed_fast_threshold_percent: clamp_exec(settings.menu_bar_speed_fast_threshold_percent, 0, 1000),
        menu_bar_speed_slow_threshold_percent: clamp_exec(settings.menu_bar_speed_slow_threshold_percent, 0, 1000),
        menu_bar_speed_healthy_emoji: settings.menu_bar_speed_healthy_emoji.clone(),
        menu_bar_speed_fast_emoji: settings.menu_bar_speed_fast_emoji.clone(),
        menu_bar_speed_slow_emoji: settings.menu_bar_speed_slow_emoji.clone(),
        menu_bar_popup_enabled: bool_to_i64(settings.menu_bar_popup_enabled),
        menu_bar_popup_modules: serialize_menu_bar_popup_modules(&settings.menu_bar_popup_modules),
        menu_bar_popup_show_reset_timeline: bool_to_i64(settings.menu_bar_popup_show_reset_timeline),
        menu_bar_popup_show_actions: bool_to_i64(settings.menu_bar_popup_show_actions),
        last_scan_started_at: copy_opt_string(&settings.last_scan_started_at),
        last_scan_completed_at: copy_opt_string(&settings.last_scan_completed_at),
        updated_at: owned(updated_at),
    }
}

/// The settings a stored row reads back as: any non-zero flag set, the
/// popup modules read from their JSON.
pub open spec fn settings_read_back(s: SyncSettings, row: SyncSettingsRow) -> bool {
    &&& s.codex_home == row.codex_home
    &&& s.auto_scan_enabled == (row.auto_scan_enabled != 0)
    &&& s.auto_scan_interval_minutes == row.auto_scan_interval_minutes
    &&& s.remote_auto_update_enabled == (row.remote_auto_update_enabled != 0)
    &&& s.remote_auto_update_interval_minutes == row.remote_auto_update_interval_minutes
    &&& s.live_quota_refresh_interval_seconds == row.live_quota_refresh_interval_seconds
    &&& s.hide_dock_icon_when_menu_bar_visible == (row.hide_dock_icon_when_menu_bar_visible != 0)
    &&& s.show_menu_bar_logo == (row.show_menu_bar_logo != 0)
    &&& s.show_menu_bar_daily_api_value == (row.show_menu_bar_daily_api_value != 0)
    &&& s.show_menu_bar_live_quota_percent == (row.show_menu_bar_live_quota_percent != 0)
    &&& s.menu_bar_live_quota_metric == row.menu_bar_live_quota_metric
    &&& s.menu_bar_live_quota_bucket == row.menu_bar_live_quota_bucket
    &&& s.menu_bar_bucket == row.menu_bar_bucket
    &&& s.menu_bar_speed_show_emoji == (row.menu_bar_speed_show_emoji != 0)
    &&& s.menu_bar_speed_fast_threshold_percent == row.menu_bar_speed_fast_threshold_percent
    &&& s.menu_bar_speed_slow_threshold_percent == row.menu_bar_speed_slow_threshold_percent
    &&& s.menu_bar_speed_healthy_emoji == row.menu_bar_speed_healthy_emoji
    &&& s.menu_bar_speed_fast_emoji == row.menu_bar_speed_fast_emoji
    &&& s.menu_bar_speed_slow_emoji == row.menu_bar_speed_slow_emoji
    &&& s.menu_bar_popup_enabled == (row.menu_bar_popup_enabled != 0)
    &&& s.menu_bar_popup_modules@.map_values(|m: String| m@) == match json_string_list(
        row.menu_bar_popup_modules@,
    ) {
        Some(list) => popup_modules_of(list),
        None => seq!["api_value"@, "scan_freshness"@],
    }
    &&& s.menu_bar_popup_show_reset_timeline == (row.menu_bar_popup_show_reset_timeline != 0)
    &&& s.menu_bar_popup_show_actions == (row.menu_bar_popup_show_actions != 0)
    &&& s.last_scan_started_at == row.last_scan_started_at
    &&& s.last_scan_completed_at == row.last_scan_completed_at
    &&& s.updated_at == row.updated_at
}

/// Reads stored settings back.
pub fn sync_settings_from_row(row: SyncSettingsRow) -> (r: SyncSettings)
    ensures
        settings_read_back(r, row),
{
    let menu_bar_popup_modules = deserialize_menu_bar_popup_modules(row.menu_bar_popup_modules.as_str());
    SyncSettings {
        codex_home: row.codex_home,
        auto_scan_enabled: i64_to_bool(row.auto_scan_enabled),
        auto_scan_interval_minutes: row.auto_scan_interval_minutes,
        remote_auto_update_enabled: i64_to_bool(row.remote_auto_update_enabled),
        remote_auto_update_interval_minutes: row.remote_auto_update_interval_minutes,
        live_quota_refresh_interval_seconds: row.live_quota_refresh_interval_seconds,
        hide_dock_icon_when_menu_bar_visible: i64_to_bool(row.hide_dock_icon_when_menu_bar_visible),
        show_menu_bar_logo: i64_to_bool(row.show_menu_bar_logo),
        show_menu_bar_daily_api_value: i64_to_bool(row.show_menu_bar_daily_api_value),
        show_menu_bar_live_quota_percent: i64_to_bool(row.show_menu_bar_live_quota_percent),
        menu_bar_live_quota_metric: row.menu_bar_live_quota_metric,
        menu_bar_live_quota_bucket: row.menu_bar_live_quota_bucket,
        menu_bar_bucket: row.menu_bar_bucket,
        menu_bar_speed_show_emoji: i64_to_bool(row.menu_bar_speed_show_emoji),
        menu_bar_speed_fast_threshold_percent: row.menu_bar_speed_fast_threshold_percent,
        menu_bar_speed_slow_threshold_percent: row.menu_bar_speed_slow_threshold_percent,
        menu_bar_speed_healthy_emoji: row.menu_bar_speed_healthy_emoji,
        menu_bar_speed_fast_emoji: row.menu_bar_speed_fast_emoji,
        menu_bar_speed_slow_emoji: row.menu_bar_speed_slow_emoji,
        menu_bar_popup_enabled: i64_to_bool(row.menu_bar_popup_enabled),
        menu_bar_popup_modules,
        menu_bar_popup_show_reset_timeline: i64_to_bool(row.menu_bar_popup_show_reset_timeline),
        menu_bar_popup_show_actions: i64_to_bool(row.menu_bar_popup_show_actions),
        last_scan_started_at: row.last_scan_started_at,
        last_scan_completed_at: row.last_scan_completed_at,
        updated_at: row.updated_at,
    }
}

/// A pace emoji that a second normalization keeps: trimmed, not empty and at
/// most four characters long.
pub open spec fn stable_emoji(e: Seq<char>) -> bool {
    trim_seq(e) == e && 0 < e.len() <= 4
}

/// Law: settings that were normalized come out of a second normalization as
/// they went in, whatever settings are stored meanwhile, as long as their
/// pace emoji survive a second pass (see `law_speed_emoji_is_stable`).
pub proof fn law_settings_normalization_is_stable(
    payload: SyncSettings,
    current: SyncSettings,
    normalized: SyncSettings,
    later: SyncSettings,
    again: SyncSettings,
)
    requires
        settings_normalized_from(normalized, payload, current),
        settings_normalized_from(again, normalized, later),
        stable_emoji(normalized.menu_bar_speed_healthy_emoji@),
        stable_emoji(normalized.menu_bar_speed_fast_emoji@),
        stable_emoji(normalized.menu_bar_speed_slow_emoji@),
    ensures
        settings_normalized_from(again, payload, later),
{
    crate::menu_bar::law_menu_bar_choices_are_stable(
        payload.menu_bar_bucket@,
        payload.menu_bar_live_quota_bucket@,
        payload.menu_bar_live_quota_metric@,
    );
    crate::menu_bar::law_popup_modules_are_stable(
        payload.menu_bar_popup_modules@.map_values(|s: String| s@),
    );
    crate::menu_bar::law_speed_emoji_is_stable(payload.menu_bar_speed_healthy_emoji@, "🟢"@);
    crate::menu_bar::law_speed_emoji_is_stable(payload.menu_bar_speed_fast_emoji@, "🔥"@);
    crate::menu_bar::law_speed_emoji_is_stable(payload.menu_bar_speed_slow_emoji@, "🐢"@);
}

/// Saved settings read back are the settings saved: every flag and text the
/// same, the intervals and thresholds as brought into range, the popup
/// modules as normalized, and the time they were saved at.
pub proof fn law_sync_settings_round_trip(
    saved: SyncSettings,
    row: SyncSettingsRow,
    updated_at: Seq<char>,
    read: SyncSettings,
)
    requires
        settings_row_matches(row, saved, updated_at),
        settings_read_back(read, row),
    ensures
        read.codex_home == saved.codex_home,
        read.auto_scan_enabled == saved.auto_scan_enabled,
        read.auto_scan_interval_minutes == at_least_one(saved.auto_scan_interval_minutes),
        read.remote_auto_update_enabled == saved.remote_auto_update_enabled,
        read.remote_auto_update_interval_minutes == at_least_one(
            saved.remote_auto_update_interval_minutes,
        ),
        read.live_quota_refresh_interval_seconds == clamp_i64(
            saved.live_quota_refresh_interval_seconds,
            60,
            3600,
        ),
        read.hide_dock_icon_when_menu_bar_visible == saved.hide_dock_icon_when_menu_bar_visible,
        read.show_menu_bar_logo == saved.show_menu_bar_logo,
        read.show_menu_bar_daily_api_value == saved.show_menu_bar_daily_api_value,
        read.show_menu_bar_live_quota_percent == saved.show_menu_bar_live_quota_percent,
        read.menu_bar_live_quota_metric == saved.menu_bar_live_quota_metric,
        read.menu_bar_live_quota_bucket == saved.menu_bar_live_quota_bucket,
        read.menu_bar_bucket == saved.menu_bar_bucket,
        read.menu_bar_speed_show_emoji == saved.menu_bar_speed_show_emoji,
        read.menu_bar_speed_fast_threshold_percent == clamp_i64(
            saved.menu_bar_speed_fast_threshold_percent,
            0,
            1000,
        ),
        read.menu_bar_speed_slow_threshold_percent == clamp_i64(
            saved.menu_bar_speed_slow_threshold_percent,
            0,
            1000,
        ),
        read.menu_bar_speed_healthy_emoji == saved.menu_bar_speed_healthy_emoji,
        read.menu_bar_speed_fast_emoji == saved.menu_bar_speed_fast_emoji,
        read.menu_bar_speed_slow_emoji == saved.menu_bar_speed_slow_emoji,
        read.menu_bar_popup_enabled == saved.menu_bar_popup_enabled,
        read.menu_bar_popup_modules@.map_values(|m: String| m@) == popup_modules_of(
            saved.menu_bar_popup_modules@.map_values(|m: String| m@),
        ),
        read.menu_bar_popup_show_reset_timeline == saved.menu_bar_popup_show_reset_timeline,
        read.menu_bar_popup_show_actions == saved.menu_bar_popup_show_actions,
        read.last_scan_started_at == saved.last_scan_started_at,
        read.last_scan_completed_at == saved.last_scan_completed_at,
        read.updated_at@ == updated_at,
{
}

/// Popup modules written as JSON read back as the same modules, where they
/// were normalized before.
pub proof fn law_popup_modules_json_round_trip(modules: Seq<Seq<char>>, text: Seq<char>)
    requires
        json_string_list(text) == Some(popup_modules_of(modules)),
    ensures
        popup_modules_of(json_string_list(text)->0) == popup_modules_of(modules),
{
    crate::menu_bar::law_popup_modules_are_stable(modules);
}

} // verus!
