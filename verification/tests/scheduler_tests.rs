use codex_pacer::models::{CodexSource, SyncSettings};
use codex_pacer::scheduler::{
    auto_scan_due, plan_scheduler_tick, remote_sources_due_for_auto_update, sources_to_scan,
};
use codex_pacer::text::text_less;
use codex_pacer::timestamps::{
    latest_rate_limit_timestamp, timestamp_after, window_minutes_between,
};

fn instant(text: &str) -> (i64, u32) {
    let t = chrono::DateTime::parse_from_rfc3339(text).expect("parse test timestamp");
    (t.timestamp(), t.timestamp_subsec_nanos())
}

fn test_codex_source(
    id: &str,
    kind: &str,
    update_selected: bool,
    status: &str,
    last_downloaded_at: Option<&str>,
    updated_at: &str,
) -> CodexSource {
    CodexSource {
        id: id.to_string(),
        kind: kind.to_string(),
        label: id.to_string(),
        ssh_alias: None,
        host_name: None,
        user: None,
        port: None,
        remote_codex_home: None,
        local_codex_home: None,
        selected: update_selected,
        display_selected: true,
        update_selected,
        status: status.to_string(),
        last_discovered_at: None,
        last_downloaded_at: last_downloaded_at.map(str::to_string),
        last_scanned_at: None,
        last_error: None,
        created_at: updated_at.to_string(),
        updated_at: updated_at.to_string(),
    }
}

#[test]
fn remote_auto_update_only_tracks_due_selected_ssh_sources() {
    let now = instant("2026-05-17T12:00:00+08:00");
    let sources = vec![
        test_codex_source(
            "local",
            "local",
            true,
            "ready",
            None,
            "2026-05-17T10:00:00+08:00",
        ),
        test_codex_source(
            "ssh_due",
            "ssh",
            true,
            "ready",
            Some("2026-05-17T11:20:00+08:00"),
            "2026-05-17T11:20:00+08:00",
        ),
        test_codex_source(
            "ssh_fresh",
            "ssh",
            true,
            "ready",
            Some("2026-05-17T11:45:00+08:00"),
            "2026-05-17T11:45:00+08:00",
        ),
        test_codex_source(
            "ssh_untracked",
            "ssh",
            false,
            "ready",
            Some("2026-05-17T10:00:00+08:00"),
            "2026-05-17T10:00:00+08:00",
        ),
    ];

    assert_eq!(
        remote_sources_due_for_auto_update(&sources, 30, now),
        vec!["ssh_due".to_string()]
    );
}

#[test]
fn failed_or_never_downloaded_sources_are_due() {
    let now = instant("2026-05-17T12:00:00+08:00");
    let sources = vec![
        test_codex_source("ssh_new", "ssh", true, "idle", None, "2026-05-17T11:59:00+08:00"),
        test_codex_source("ssh_failed", "ssh", true, "failed", None, "2026-05-17T11:59:30+08:00"),
        test_codex_source("ssh_busy", "ssh", true, "downloading", None, "2026-05-17T10:00:00+08:00"),
        test_codex_source("ssh_odd", "ssh", true, "ready", Some("yesterday"), "x"),
    ];
    assert_eq!(
        remote_sources_due_for_auto_update(&sources, 0, now),
        vec!["ssh_new".to_string(), "ssh_odd".to_string()]
    );
}

#[test]
fn scans_are_due_after_the_interval() {
    let now = instant("2026-05-17T12:00:00Z");
    assert!(auto_scan_due(&None, 5, now));
    assert!(auto_scan_due(&Some("garbage".to_string()), 5, now));
    assert!(auto_scan_due(&Some("2026-05-17T11:55:00Z".to_string()), 5, now));
    assert!(!auto_scan_due(&Some("2026-05-17T11:55:01Z".to_string()), 5, now));
    assert!(!auto_scan_due(&Some("2026-05-17T12:30:00Z".to_string()), 0, now));
    assert!(auto_scan_due(&Some("2026-05-17T11:59:00Z".to_string()), -3, now));
}

#[test]
fn a_tick_refreshes_then_scans_or_downloads() {
    let now = instant("2026-05-17T12:00:00Z");
    let sources = vec![test_codex_source("ssh_new", "ssh", true, "idle", None, "x")];
    let settings = SyncSettings {
        auto_scan_enabled: true,
        remote_auto_update_enabled: true,
        ..SyncSettings::default()
    };
    let plan = plan_scheduler_tick(false, &settings, &sources, now);
    assert!(plan.refresh_menu_bar);
    assert!(plan.run_scan);
    assert!(plan.download_source_ids.is_empty());

    let recent = SyncSettings {
        last_scan_completed_at: Some("2026-05-17T11:59:00Z".to_string()),
        ..settings.clone()
    };
    let plan = plan_scheduler_tick(false, &recent, &sources, now);
    assert!(!plan.run_scan);
    assert_eq!(plan.download_source_ids, vec!["ssh_new".to_string()]);

    let plan = plan_scheduler_tick(true, &recent, &sources, now);
    assert!(!plan.refresh_menu_bar && !plan.run_scan && plan.download_source_ids.is_empty());
}

#[test]
fn scans_read_requested_sources_with_a_local_copy() {
    let mut remote = test_codex_source("ssh_box", "ssh", true, "ready", None, "x");
    remote.local_codex_home = Some("/cache/box".to_string());
    let mut hidden = test_codex_source("ssh_hidden", "ssh", true, "ready", None, "x");
    hidden.display_selected = false;
    hidden.local_codex_home = Some("/cache/hidden".to_string());
    let uncopied = test_codex_source("ssh_empty", "ssh", true, "ready", None, "x");
    let local = test_codex_source("local", "local", true, "ready", None, "x");
    let sources = vec![local, remote, hidden, uncopied];

    let shown = sources_to_scan(&sources, None);
    let ids: Vec<_> = shown.iter().map(|t| t.source_id.clone()).collect();
    assert_eq!(ids, vec!["local".to_string(), "ssh_box".to_string()]);
    assert_eq!(shown[0].codex_home, None);
    assert_eq!(shown[1].codex_home.as_deref(), Some("/cache/box"));

    let asked = sources_to_scan(&sources, Some(vec!["ssh_hidden".to_string()]));
    assert_eq!(asked.len(), 1);
    assert_eq!(asked[0].codex_home.as_deref(), Some("/cache/hidden"));
}

#[test]
fn later_timestamps_win_by_instant_then_by_text() {
    assert!(timestamp_after("2026-05-15T12:00:00+08:00", "2026-05-15T03:59:00Z"));
    assert!(!timestamp_after("2026-05-15T12:00:00+08:00", "2026-05-15T04:00:01Z"));
    assert!(timestamp_after("b", "a"));
    assert!(!timestamp_after("a", "a"));
    assert!(text_less("abc", "abd"));
    assert_eq!(
        latest_rate_limit_timestamp(&vec![
            Some("2026-05-15T12:00:00+08:00".to_string()),
            None,
            Some("2026-05-15T12:05:00+08:00".to_string()),
            Some("2026-05-15T04:01:00Z".to_string()),
        ]),
        Some("2026-05-15T12:05:00+08:00".to_string())
    );
    assert_eq!(latest_rate_limit_timestamp(&vec![None, None]), None);
}

#[test]
fn window_lengths_come_from_their_ends() {
    assert_eq!(
        window_minutes_between("2026-05-15T10:00:00+08:00", "2026-05-15T15:00:00+08:00"),
        Some(300)
    );
    assert_eq!(
        window_minutes_between("2026-05-15T10:00:00+08:00", "2026-05-15T10:00:59+08:00"),
        Some(0)
    );
    assert_eq!(
        window_minutes_between("2026-05-15T10:00:00+08:00", "2026-05-15T09:00:00+08:00"),
        Some(0)
    );
    assert_eq!(window_minutes_between("x", "2026-05-15T09:00:00+08:00"), None);
}
