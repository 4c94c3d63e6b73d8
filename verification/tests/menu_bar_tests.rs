use codex_pacer::menu_bar::{
    bucket_uses_anchor, bucket_uses_live_rate_limits, live_rate_limit_cache_ttl_seconds,
    live_rate_limits_cache_fresh,
    menu_bar_popup_quota_snapshot,
    live_rate_limits_wanted, menu_bar_bucket_label, menu_bar_has_visible_content,
    menu_bar_live_quota_status_label, menu_bar_live_quota_title, menu_bar_needs_live_rate_limits,
    menu_bar_title, menu_bar_tooltip, normalize_menu_bar_bucket,
    normalize_menu_bar_live_quota_bucket, normalize_menu_bar_live_quota_metric,
    normalize_menu_bar_popup_modules, normalize_menu_bar_speed_emoji, should_hide_dock_icon,
};
use codex_pacer::models::{CodexAccountStatus, LiveRateLimitSnapshot, RateLimitWindowSnapshot, SyncSettings};

fn snapshot_with_secondary() -> LiveRateLimitSnapshot {
    LiveRateLimitSnapshot {
        limit_id: Some("codex".to_string()),
        limit_name: None,
        plan_type: Some("pro".to_string()),
        credits: None,
        rate_limit_reached_type: None,
        primary: None,
        secondary: Some(RateLimitWindowSnapshot {
            used_percent: 15,
            remaining_percent: 85,
            window_duration_mins: Some(10080),
            resets_at: Some("2026-05-22T03:29:00+08:00".to_string()),
            window_start: Some("2026-05-15T03:29:00+08:00".to_string()),
        }),
        fetched_at: "2026-05-15T20:00:00+08:00".to_string(),
    }
}

#[test]
fn menu_bar_title_joins_visible_segments_without_extra_spacing() {
    assert_eq!(menu_bar_title(None, None), None);
    assert_eq!(
        menu_bar_title(Some("$12.4"), None),
        Some("$12.4".to_string())
    );
    assert_eq!(menu_bar_title(None, Some("67%")), Some("67%".to_string()));
    assert_eq!(
        menu_bar_title(Some("$12.4"), Some("67%")),
        Some("$12.4 67%".to_string())
    );
}

#[test]
fn menu_bar_can_show_live_metric_without_logo_or_api_value() {
    let settings = SyncSettings {
        show_menu_bar_logo: false,
        show_menu_bar_daily_api_value: false,
        show_menu_bar_live_quota_percent: true,
        menu_bar_live_quota_metric: "remaining_percent".to_string(),
        menu_bar_live_quota_bucket: "five_hour".to_string(),
        ..SyncSettings::default()
    };

    assert!(menu_bar_has_visible_content(&settings));
    assert_eq!(menu_bar_title(None, Some("42%")), Some("42%".to_string()));
}

#[test]
fn menu_bar_live_metric_label_matches_bucket_and_metric() {
    assert_eq!(
        menu_bar_live_quota_status_label("seven_day", "remaining_percent"),
        "7d Rest"
    );
    assert_eq!(
        menu_bar_live_quota_status_label("five_hour", "remaining_percent"),
        "5h Rest"
    );
    assert_eq!(
        menu_bar_live_quota_status_label("seven_day", "used_percent"),
        "7d Cost"
    );
    assert_eq!(
        menu_bar_live_quota_status_label("seven_day", "suggested_usage_speed"),
        "7d Pace"
    );
}

#[test]
fn menu_bar_live_metric_can_show_used_percent_cost() {
    let snapshot = snapshot_with_secondary();
    assert_eq!(
        menu_bar_live_quota_title(&snapshot, "seven_day", "used_percent", None),
        Some(("7d Cost".to_string(), "15%".to_string()))
    );
}

#[test]
fn menu_bar_can_hide_completely_when_all_display_content_is_disabled() {
    let settings = SyncSettings {
        show_menu_bar_logo: false,
        show_menu_bar_daily_api_value: false,
        show_menu_bar_live_quota_percent: false,
        ..SyncSettings::default()
    };

    assert!(!menu_bar_has_visible_content(&settings));
}

#[test]
fn dock_icon_hides_only_when_enabled_and_menu_bar_has_content() {
    let enabled_with_menu_bar = SyncSettings {
        hide_dock_icon_when_menu_bar_visible: true,
        show_menu_bar_logo: true,
        show_menu_bar_daily_api_value: false,
        show_menu_bar_live_quota_percent: false,
        ..SyncSettings::default()
    };
    let enabled_without_menu_bar = SyncSettings {
        hide_dock_icon_when_menu_bar_visible: true,
        show_menu_bar_logo: false,
        show_menu_bar_daily_api_value: false,
        show_menu_bar_live_quota_percent: false,
        ..SyncSettings::default()
    };
    let disabled_with_menu_bar = SyncSettings {
        hide_dock_icon_when_menu_bar_visible: false,
        show_menu_bar_logo: true,
        show_menu_bar_daily_api_value: false,
        show_menu_bar_live_quota_percent: false,
        ..SyncSettings::default()
    };

    assert!(should_hide_dock_icon(&enabled_with_menu_bar));
    assert!(!should_hide_dock_icon(&enabled_without_menu_bar));
    assert!(!should_hide_dock_icon(&disabled_with_menu_bar));
}

#[test]
fn live_metric_shows_rest_by_default_and_pace_only_when_known() {
    let snapshot = snapshot_with_secondary();
    assert_eq!(
        menu_bar_live_quota_title(&snapshot, "seven_day", "anything", None),
        Some(("7d Rest".to_string(), "85%".to_string()))
    );
    assert_eq!(
        menu_bar_live_quota_title(&snapshot, "seven_day", "suggested_usage_speed", None),
        None
    );
    assert_eq!(
        menu_bar_live_quota_title(
            &snapshot,
            "seven_day",
            "suggested_usage_speed",
            Some("🟢 1x")
        ),
        Some(("7d Pace".to_string(), "🟢 1x".to_string()))
    );
    assert_eq!(
        menu_bar_live_quota_title(&snapshot, "five_hour", "used_percent", None),
        None
    );
}

#[test]
fn menu_bar_choices_fall_back_to_defaults_and_stay() {
    assert_eq!(normalize_menu_bar_bucket("week"), "week");
    assert_eq!(normalize_menu_bar_bucket("fortnight"), "day");
    assert_eq!(normalize_menu_bar_bucket(&normalize_menu_bar_bucket("fortnight")), "day");
    assert_eq!(normalize_menu_bar_live_quota_bucket("seven_day"), "seven_day");
    assert_eq!(normalize_menu_bar_live_quota_bucket("day"), "five_hour");
    assert_eq!(normalize_menu_bar_live_quota_metric("used_percent"), "used_percent");
    assert_eq!(normalize_menu_bar_live_quota_metric("x"), "remaining_percent");
}

#[test]
fn speed_emoji_is_trimmed_and_cut() {
    assert_eq!(normalize_menu_bar_speed_emoji("   ", "🟢"), "🟢");
    assert_eq!(normalize_menu_bar_speed_emoji(" 🔥 ", "🟢"), "🔥");
    assert_eq!(normalize_menu_bar_speed_emoji("abcdefg", "🟢"), "abcd");
}

#[test]
fn popup_modules_keep_known_ones_once_in_order() {
    let modules = vec![
        "scan_freshness".to_string(),
        "bogus".to_string(),
        "api_value".to_string(),
        "scan_freshness".to_string(),
    ];
    let normalized = normalize_menu_bar_popup_modules(&modules);
    assert_eq!(
        normalized,
        vec!["scan_freshness".to_string(), "api_value".to_string()]
    );
    assert_eq!(normalize_menu_bar_popup_modules(&normalized), normalized);
}

#[test]
fn buckets_know_their_labels_and_needs() {
    assert_eq!(menu_bar_bucket_label("week"), "本周");
    assert_eq!(menu_bar_bucket_label("other"), "今日");
    assert!(bucket_uses_live_rate_limits("five_hour"));
    assert!(!bucket_uses_live_rate_limits("day"));
    assert!(!bucket_uses_anchor("total"));
    assert!(bucket_uses_anchor("month"));
    assert!(live_rate_limits_wanted(Some("seven_day"), None));
    assert!(!live_rate_limits_wanted(Some("seven_day"), Some(1)));
    assert!(!live_rate_limits_wanted(Some("day"), None));
    assert!(!live_rate_limits_wanted(None, None));
}

#[test]
fn title_needs_live_limits_for_live_metric_or_live_bucket() {
    let settings = SyncSettings {
        show_menu_bar_live_quota_percent: false,
        show_menu_bar_daily_api_value: true,
        ..SyncSettings::default()
    };
    assert!(menu_bar_needs_live_rate_limits(&settings, "five_hour"));
    assert!(!menu_bar_needs_live_rate_limits(&settings, "day"));
}

#[test]
fn tooltip_lists_fragments_or_names_the_app() {
    let settings = SyncSettings {
        menu_bar_bucket: "week".to_string(),
        show_menu_bar_live_quota_percent: true,
        ..SyncSettings::default()
    };
    assert_eq!(
        menu_bar_tooltip(&settings, Some("$3.2"), None),
        "本周累计 API 价值：$3.2"
    );
    assert_eq!(menu_bar_tooltip(&settings, Some("  "), None), "Codex Pacer");
    assert_eq!(
        menu_bar_tooltip(&settings, Some("$3.2"), Some("5小时剩余 80%")),
        "本周累计 API 价值：$3.2 · 5小时剩余 80%"
    );
}

#[test]
fn live_cache_ttl_is_clamped() {
    assert_eq!(live_rate_limit_cache_ttl_seconds(Some(10)), 60);
    assert_eq!(live_rate_limit_cache_ttl_seconds(Some(100_000)), 3600);
    assert_eq!(live_rate_limit_cache_ttl_seconds(Some(120)), 120);
    assert_eq!(live_rate_limit_cache_ttl_seconds(None), 300);
}

#[test]
fn cached_live_rate_limits_expire_after_their_lifetime() {
    assert!(live_rate_limits_cache_fresh(false, Some((300, 0)), None));
    assert!(!live_rate_limits_cache_fresh(false, Some((300, 1)), None));
    assert!(live_rate_limits_cache_fresh(false, Some((59, 999_999_999)), Some(10)));
    assert!(!live_rate_limits_cache_fresh(false, Some((61, 0)), Some(10)));
    assert!(!live_rate_limits_cache_fresh(true, Some((0, 0)), None));
    assert!(!live_rate_limits_cache_fresh(false, None, None));
}

#[test]
fn popup_quota_keeps_the_window_figures() {
    let window = RateLimitWindowSnapshot {
        used_percent: 37,
        remaining_percent: 63,
        window_duration_mins: Some(300),
        resets_at: Some("2026-04-02T15:00:00+08:00".to_string()),
        window_start: None,
    };
    let quota = menu_bar_popup_quota_snapshot(&window);
    assert_eq!(quota.used_percent, 37);
    assert_eq!(quota.remaining_percent, 63);
    assert_eq!(quota.window_duration_mins, Some(300));
    assert_eq!(quota.resets_at.as_deref(), Some("2026-04-02T15:00:00+08:00"));
    assert_eq!(quota.window_start, None);
}

#[test]
fn unavailable_account_status_carries_only_the_error() {
    let status = CodexAccountStatus::unavailable("offline".to_string(), "2026-04-02T00:00:00Z".to_string());
    assert!(!status.available);
    assert!(!status.requires_openai_auth);
    assert_eq!(status.auth_mode, None);
    assert_eq!(status.email, None);
    assert_eq!(status.plan_type, None);
    assert_eq!(status.error.as_deref(), Some("offline"));
    assert_eq!(status.fetched_at, "2026-04-02T00:00:00Z");
}

#[test]
fn normalized_speed_emoji_is_kept_by_a_second_pass() {
    let once = normalize_menu_bar_speed_emoji("  🔥 ", "🟢");
    assert_eq!(once, "🔥");
    assert_eq!(normalize_menu_bar_speed_emoji(&once, "🟢"), once);
    let fallback = normalize_menu_bar_speed_emoji("   ", "🟢");
    assert_eq!(normalize_menu_bar_speed_emoji(&fallback, "🟢"), fallback);
    let cut = normalize_menu_bar_speed_emoji("abc de", "🟢");
    assert_eq!(cut, "abc ");
    assert_eq!(normalize_menu_bar_speed_emoji(&cut, "🟢"), "abc");
}
