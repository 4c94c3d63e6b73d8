use codex_pacer::models::{
    LiveRateLimitSnapshot, RateLimitCreditsSnapshot, RateLimitMetadataSampleRecord,
    RateLimitSampleRecord, RateLimitWindowSnapshot,
};
use codex_pacer::rate_limits::{
    live_snapshot_samples, non_empty, persisted_live_snapshot, persisted_metadata_from_row,
    persisted_window_from_row, rate_limit_metadata_from_live_snapshot, rate_limit_metadata_row,
    rate_limit_sample_row, session_rate_limit_records, session_sample_record,
    live_query_needs_history, live_rate_limits_answer, LiveQuery,
};
use codex_pacer::session_log::SessionRateLimitSample;
use codex_pacer::{bool_to_i64, i64_to_bool};

fn live_snapshot() -> LiveRateLimitSnapshot {
    LiveRateLimitSnapshot {
        limit_id: Some("codex".to_string()),
        limit_name: None,
        plan_type: Some("old-plan".to_string()),
        credits: None,
        rate_limit_reached_type: None,
        primary: Some(RateLimitWindowSnapshot {
            used_percent: 20,
            remaining_percent: 80,
            window_duration_mins: Some(300),
            resets_at: Some("2026-05-15T15:00:00+08:00".to_string()),
            window_start: Some("2026-05-15T10:00:00+08:00".to_string()),
        }),
        secondary: None,
        fetched_at: "2026-05-15T12:00:00+08:00".to_string(),
    }
}

#[test]
fn rate_limit_metadata_roundtrips_latest_credits() {
    let sample = RateLimitMetadataSampleRecord {
        source_kind: "session".to_string(),
        source_session_id: Some("session-a".to_string()),
        sample_timestamp: "2026-05-15T10:00:00+08:00".to_string(),
        limit_id: Some("codex".to_string()),
        limit_name: None,
        plan_type: Some("pro".to_string()),
        credits: Some(RateLimitCreditsSnapshot {
            has_credits: Some(true),
            unlimited: Some(false),
            balance: Some("promo-balance-42".to_string()),
        }),
        rate_limit_reached_type: Some("secondary".to_string()),
        raw_rate_limits_json: Some("{\"credits\":{\"balance\":\"promo-balance-42\"}}".to_string()),
    };
    let row = rate_limit_metadata_row(&sample);
    assert_eq!(row.source_session_id, "session-a");
    assert_eq!(row.limit_name, "");
    assert_eq!(row.credits_has_credits, Some(1));
    assert_eq!(row.credits_unlimited, Some(0));

    let metadata = persisted_metadata_from_row(&row);
    assert_eq!(metadata.limit_id.as_deref(), Some("codex"));
    assert_eq!(metadata.plan_type.as_deref(), Some("pro"));
    assert_eq!(
        metadata
            .credits
            .as_ref()
            .and_then(|credits| credits.balance.as_deref()),
        Some("promo-balance-42")
    );
    assert_eq!(metadata.rate_limit_reached_type.as_deref(), Some("secondary"));
    assert_eq!(metadata.limit_name, None);
}

#[test]
fn fallback_snapshot_includes_latest_rate_limit_metadata() {
    let samples = live_snapshot_samples(&live_snapshot());
    assert_eq!(samples.len(), 1);
    let window = persisted_window_from_row(&rate_limit_sample_row(&samples[0]));
    let metadata_sample = RateLimitMetadataSampleRecord {
        source_kind: "live".to_string(),
        source_session_id: None,
        sample_timestamp: "2026-05-15T12:05:00+08:00".to_string(),
        limit_id: Some("codex".to_string()),
        limit_name: None,
        plan_type: Some("pro".to_string()),
        credits: Some(RateLimitCreditsSnapshot {
            has_credits: Some(true),
            unlimited: Some(false),
            balance: Some("bonus-balance".to_string()),
        }),
        rate_limit_reached_type: Some("primary".to_string()),
        raw_rate_limits_json: None,
    };
    let metadata = persisted_metadata_from_row(&rate_limit_metadata_row(&metadata_sample));

    let snapshot =
        persisted_live_snapshot(Some(window), None, Some(metadata)).expect("fallback snapshot");

    assert!(snapshot.primary.is_some());
    assert_eq!(snapshot.limit_id.as_deref(), Some("codex"));
    assert_eq!(snapshot.plan_type.as_deref(), Some("pro"));
    assert_eq!(
        snapshot
            .primary
            .as_ref()
            .map(|window| window.remaining_percent),
        Some(80)
    );
    assert_eq!(
        snapshot
            .credits
            .as_ref()
            .and_then(|credits| credits.balance.as_deref()),
        Some("bonus-balance")
    );
    assert_eq!(snapshot.rate_limit_reached_type.as_deref(), Some("primary"));
    assert_eq!(snapshot.fetched_at, "2026-05-15T12:05:00+08:00");
    assert_eq!(
        snapshot.primary.as_ref().and_then(|w| w.window_duration_mins),
        Some(300)
    );
}

#[test]
fn nothing_stored_makes_no_snapshot() {
    assert!(persisted_live_snapshot(None, None, None).is_none());
}

#[test]
fn stored_window_rows_are_clamped_and_defaulted() {
    let row = rate_limit_sample_row(&RateLimitSampleRecord {
        source_kind: "live".to_string(),
        source_session_id: None,
        bucket: "five_hour".to_string(),
        sample_timestamp: "2026-05-15T12:00:00+08:00".to_string(),
        limit_id: None,
        limit_name: Some("Limit".to_string()),
        plan_type: None,
        window_start: "2026-05-15T10:00:00+08:00".to_string(),
        resets_at: "2026-05-15T15:00:00+08:00".to_string(),
        used_percent: 140,
        remaining_percent: -40,
    });
    assert_eq!(row.used_percent, 100);
    assert_eq!(row.remaining_percent, 0);
    assert_eq!(row.source_session_id, "");
    assert_eq!(row.limit_id, "");
    let read = persisted_window_from_row(&row);
    assert_eq!(read.limit_id, None);
    assert_eq!(read.limit_name.as_deref(), Some("Limit"));
    assert_eq!(read.snapshot.window_duration_mins, Some(300));
}

#[test]
fn a_window_with_unreadable_ends_has_no_length() {
    let mut row = rate_limit_sample_row(&RateLimitSampleRecord {
        source_kind: "live".to_string(),
        source_session_id: None,
        bucket: "five_hour".to_string(),
        sample_timestamp: "t".to_string(),
        limit_id: None,
        limit_name: None,
        plan_type: None,
        window_start: "not a time".to_string(),
        resets_at: "2026-05-15T15:00:00+08:00".to_string(),
        used_percent: 1,
        remaining_percent: 99,
    });
    assert_eq!(persisted_window_from_row(&row).snapshot.window_duration_mins, None);
    row.window_start = "2026-05-15T16:00:00+08:00".to_string();
    assert_eq!(persisted_window_from_row(&row).snapshot.window_duration_mins, Some(0));
}

#[test]
fn live_snapshot_metadata_only_when_present() {
    let mut snapshot = live_snapshot();
    let metadata = rate_limit_metadata_from_live_snapshot(&snapshot).expect("metadata");
    assert_eq!(metadata.source_kind, "live");
    assert_eq!(metadata.sample_timestamp, "2026-05-15T12:00:00+08:00");
    assert_eq!(metadata.plan_type.as_deref(), Some("old-plan"));
    snapshot.limit_id = None;
    snapshot.plan_type = None;
    assert!(rate_limit_metadata_from_live_snapshot(&snapshot).is_none());
}

#[test]
fn live_windows_without_both_ends_are_not_stored() {
    let mut snapshot = live_snapshot();
    snapshot.secondary = Some(RateLimitWindowSnapshot {
        used_percent: 5,
        remaining_percent: 95,
        window_duration_mins: None,
        resets_at: None,
        window_start: Some("2026-05-15T10:00:00+08:00".to_string()),
    });
    let samples = live_snapshot_samples(&snapshot);
    assert_eq!(samples.len(), 1);
    assert_eq!(samples[0].bucket, "five_hour");
    assert_eq!(samples[0].resets_at, "2026-05-15T15:00:00+08:00");
}

#[test]
fn credits_without_values_read_back_as_none() {
    let sample = RateLimitMetadataSampleRecord {
        source_kind: "live".to_string(),
        source_session_id: None,
        sample_timestamp: "t".to_string(),
        limit_id: Some(String::new()),
        limit_name: None,
        plan_type: None,
        credits: Some(RateLimitCreditsSnapshot {
            has_credits: None,
            unlimited: None,
            balance: None,
        }),
        rate_limit_reached_type: None,
        raw_rate_limits_json: None,
    };
    let read = persisted_metadata_from_row(&rate_limit_metadata_row(&sample));
    assert!(read.credits.is_none());
    assert!(read.limit_id.is_none());
}

#[test]
fn session_samples_become_records_with_rendered_times() {
    let sample = SessionRateLimitSample {
        bucket: "seven_day".to_string(),
        sample_timestamp: "2026-05-15T12:00:00Z".to_string(),
        limit_id: Some("codex".to_string()),
        limit_name: None,
        plan_type: Some("pro".to_string()),
        window_start_seconds: 1_778_000_000,
        resets_at_seconds: 1_778_604_800,
        used_percent: 12,
        remaining_percent: 88,
    };
    let record = session_sample_record(
        &sample,
        "session-a",
        Some("2026-05-05T00:00:00+00:00".to_string()),
        Some("2026-05-12T00:00:00+00:00".to_string()),
    )
    .expect("record");
    assert_eq!(record.source_kind, "session");
    assert_eq!(record.source_session_id.as_deref(), Some("session-a"));
    assert_eq!(record.window_start, "2026-05-05T00:00:00+00:00");
    assert_eq!(record.used_percent, 12);
    assert!(session_sample_record(&sample, "session-a", None, Some("x".to_string())).is_none());

    let records = session_rate_limit_records(&vec![sample], "session-a");
    assert_eq!(records.len(), 1);
    assert_eq!(records[0].bucket, "seven_day");
    assert!(records[0].resets_at.contains('T'));
    assert_ne!(records[0].resets_at, records[0].window_start);
    let read_back = |text: &str| {
        chrono::DateTime::parse_from_rfc3339(text)
            .expect("rendered time reads back")
            .timestamp()
    };
    let start = read_back(&records[0].window_start);
    let resets = read_back(&records[0].resets_at);
    assert!(start == 1_778_000_000 || start == 1_778_000_000 - 1_778_000_000 % 60);
    assert!(resets == 1_778_604_800 || resets == 1_778_604_800 - 1_778_604_800 % 60);

    let mut in_range = sample_with_seconds(1_778_000_000, 1_778_604_800);
    in_range.bucket = "five_hour".to_string();
    let unrenderable = sample_with_seconds(i64::MAX, 1_778_604_800);
    let records = session_rate_limit_records(&vec![unrenderable, in_range], "session-b");
    assert_eq!(records.len(), 1);
    assert_eq!(records[0].bucket, "five_hour");
}

fn sample_with_seconds(window_start_seconds: i64, resets_at_seconds: i64) -> SessionRateLimitSample {
    SessionRateLimitSample {
        bucket: "seven_day".to_string(),
        sample_timestamp: "2026-05-05T00:00:00Z".to_string(),
        limit_id: None,
        limit_name: None,
        plan_type: None,
        window_start_seconds,
        resets_at_seconds,
        used_percent: 40,
        remaining_percent: 60,
    }
}

#[test]
fn flags_and_empty_texts() {
    assert_eq!(bool_to_i64(true), 1);
    assert_eq!(bool_to_i64(false), 0);
    assert!(i64_to_bool(5));
    assert!(!i64_to_bool(0));
    assert_eq!(non_empty(String::new()), None);
    assert_eq!(non_empty("x".to_string()), Some("x".to_string()));
}

fn snapshot_fetched_at(fetched_at: &str) -> LiveRateLimitSnapshot {
    LiveRateLimitSnapshot { fetched_at: fetched_at.to_string(), ..live_snapshot() }
}

#[test]
fn live_rate_limits_fall_back_to_history_then_stored_then_cache() {
    let fresh = live_rate_limits_answer(
        Some(snapshot_fetched_at("cache")),
        LiveQuery::Failed("down".to_string()),
        None,
        None,
        None,
    );
    assert_eq!(fresh.result.unwrap().fetched_at, "cache");
    assert!(!fresh.cache && !fresh.rescan_history && fresh.persist.is_none());

    let shared = live_rate_limits_answer(
        None,
        LiveQuery::Shared(snapshot_fetched_at("server")),
        Some(snapshot_fetched_at("history")),
        None,
        None,
    );
    assert_eq!(shared.result.unwrap().fetched_at, "server");
    assert_eq!(shared.persist.unwrap().fetched_at, "server");
    assert!(shared.cache && !shared.rescan_history);

    let failed = live_rate_limits_answer(
        None,
        LiveQuery::Failed("down".to_string()),
        None,
        Some(snapshot_fetched_at("stored")),
        Some(snapshot_fetched_at("memory")),
    );
    assert_eq!(failed.result.unwrap().fetched_at, "stored");
    assert!(failed.cache && failed.rescan_history && failed.persist.is_none());

    let nothing = live_rate_limits_answer(None, LiveQuery::Failed("down".to_string()), None, None, None);
    assert_eq!(nothing.result.unwrap_err(), "down");
    assert!(!nothing.cache);

    let mut model = snapshot_fetched_at("server");
    model.limit_name = Some("gpt-5".to_string());
    assert!(live_query_needs_history(&LiveQuery::ModelSpecific(model.clone())));
    assert!(!live_query_needs_history(&LiveQuery::Shared(model.clone())));
    let specific = live_rate_limits_answer(None, LiveQuery::ModelSpecific(model.clone()), None, None, None);
    assert_eq!(
        specific.result.unwrap_err(),
        "Codex app-server returned a model-specific rate limit (Some(\"gpt-5\")); ignoring it."
    );
    assert_eq!(specific.persist.unwrap().fetched_at, "server");
    let specific = live_rate_limits_answer(
        None,
        LiveQuery::ModelSpecific(model),
        Some(snapshot_fetched_at("history")),
        None,
        Some(snapshot_fetched_at("memory")),
    );
    assert_eq!(specific.result.unwrap().fetched_at, "history");
    assert!(specific.cache);
}
