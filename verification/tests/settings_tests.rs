use codex_pacer::models::SyncSettings;
use codex_pacer::settings::{
    default_menu_bar_popup_modules, default_menu_bar_popup_modules_json,
    deserialize_menu_bar_popup_modules, normalize_display_language, normalize_sync_settings,
    serialize_menu_bar_popup_modules, sync_settings_from_row, sync_settings_row,
};

#[test]
fn popup_modules_round_trip_through_json() {
    let modules = vec!["token_count".to_string(), "api_value".to_string()];
    let json = serialize_menu_bar_popup_modules(&modules);
    assert_eq!(json, "[\"token_count\",\"api_value\"]");
    assert_eq!(deserialize_menu_bar_popup_modules(&json), modules);
    assert_eq!(
        deserialize_menu_bar_popup_modules("not json"),
        default_menu_bar_popup_modules()
    );
    assert_eq!(
        default_menu_bar_popup_modules_json(),
        "[\"api_value\",\"scan_freshness\"]"
    );
}

#[test]
fn display_language_falls_back() {
    assert_eq!(normalize_display_language("en"), "en");
    assert_eq!(normalize_display_language("en-US"), "zh-CN");
    assert_eq!(normalize_display_language("fr"), "zh-CN");
}

#[test]
fn sync_settings_are_normalized_from_the_payload() {
    let current = SyncSettings {
        last_scan_completed_at: Some("2026-04-01T00:00:00Z".to_string()),
        updated_at: "2026-04-01T00:00:00Z".to_string(),
        ..SyncSettings::default()
    };
    let payload = SyncSettings {
        auto_scan_interval_minutes: 0,
        remote_auto_update_interval_minutes: -5,
        live_quota_refresh_interval_seconds: 5,
        menu_bar_bucket: "decade".to_string(),
        menu_bar_speed_fast_threshold_percent: 5000,
        menu_bar_speed_slow_emoji: "  ".to_string(),
        menu_bar_popup_modules: vec!["payoff_ratio".to_string(), "x".to_string()],
        last_scan_completed_at: None,
        ..SyncSettings::default()
    };
    let saved = normalize_sync_settings(&payload, &current);
    assert_eq!(saved.auto_scan_interval_minutes, 1);
    assert_eq!(saved.remote_auto_update_interval_minutes, 1);
    assert_eq!(saved.live_quota_refresh_interval_seconds, 60);
    assert_eq!(saved.menu_bar_bucket, "day");
    assert_eq!(saved.menu_bar_speed_fast_threshold_percent, 1000);
    assert_eq!(saved.menu_bar_speed_slow_emoji, "🐢");
    assert_eq!(saved.menu_bar_popup_modules, vec!["payoff_ratio".to_string()]);
    assert_eq!(saved.last_scan_completed_at.as_deref(), Some("2026-04-01T00:00:00Z"));
    assert_eq!(saved.updated_at, "2026-04-01T00:00:00Z");
}

#[test]
fn save_sync_settings_round_trips_dock_visibility_preference() {
    let row = sync_settings_row(
        &SyncSettings {
            hide_dock_icon_when_menu_bar_visible: true,
            ..SyncSettings::default()
        },
        "2026-04-01T00:00:00Z",
    );
    let settings = sync_settings_from_row(row);

    assert!(settings.hide_dock_icon_when_menu_bar_visible);
}

#[test]
fn stored_settings_are_clamped_and_read_back() {
    let row = sync_settings_row(
        &SyncSettings {
            auto_scan_interval_minutes: -2,
            live_quota_refresh_interval_seconds: 99_999,
            menu_bar_speed_slow_threshold_percent: -1,
            menu_bar_popup_modules: vec!["token_count".to_string()],
            ..SyncSettings::default()
        },
        "2026-04-01T00:00:00Z",
    );
    assert_eq!(row.auto_scan_interval_minutes, 1);
    assert_eq!(row.live_quota_refresh_interval_seconds, 3600);
    assert_eq!(row.menu_bar_speed_slow_threshold_percent, 0);
    assert_eq!(row.auto_scan_enabled, 1);
    assert_eq!(row.menu_bar_popup_modules, "[\"token_count\"]");
    let read = sync_settings_from_row(row);
    assert_eq!(read.menu_bar_popup_modules, vec!["token_count".to_string()]);
    assert_eq!(read.updated_at, "2026-04-01T00:00:00Z");
    assert!(read.auto_scan_enabled);
}

#[test]
fn normalizing_saved_settings_again_changes_nothing() {
    let current = SyncSettings::default();
    let payload = SyncSettings {
        auto_scan_interval_minutes: -3,
        live_quota_refresh_interval_seconds: 99_999,
        menu_bar_live_quota_metric: "speed".to_string(),
        menu_bar_live_quota_bucket: "seven_day".to_string(),
        menu_bar_bucket: "week".to_string(),
        menu_bar_speed_healthy_emoji: " ✅ ".to_string(),
        menu_bar_popup_modules: vec![
            "token_count".to_string(),
            "token_count".to_string(),
            "unknown".to_string(),
        ],
        ..SyncSettings::default()
    };
    let once = normalize_sync_settings(&payload, &current);
    let twice = normalize_sync_settings(&once, &current);
    assert_eq!(twice.auto_scan_interval_minutes, once.auto_scan_interval_minutes);
    assert_eq!(twice.live_quota_refresh_interval_seconds, 3600);
    assert_eq!(twice.live_quota_refresh_interval_seconds, once.live_quota_refresh_interval_seconds);
    assert_eq!(twice.menu_bar_live_quota_metric, once.menu_bar_live_quota_metric);
    assert_eq!(twice.menu_bar_live_quota_bucket, "seven_day");
    assert_eq!(twice.menu_bar_bucket, once.menu_bar_bucket);
    assert_eq!(twice.menu_bar_speed_healthy_emoji, "✅");
    assert_eq!(twice.menu_bar_speed_healthy_emoji, once.menu_bar_speed_healthy_emoji);
    assert_eq!(twice.menu_bar_popup_modules, vec!["token_count".to_string()]);
    assert_eq!(twice.menu_bar_popup_modules, once.menu_bar_popup_modules);
}
