use codex_pacer::session_log::{
    line_fits_exec, parse_session_lines, session_index_entry, session_log_line, RateLimitsRecord, RateWindowRecord, SessionLogEvent, SessionLogLine,
    SessionLogRecord, SessionMetaRecord, TokenCountRecord,
};

fn line(text: &str, timestamp: Option<&str>, event: SessionLogEvent) -> SessionLogLine {
    SessionLogLine {
        text: text.to_string(),
        record: Some(SessionLogRecord {
            id: None,
            timestamp: timestamp.map(str::to_string),
            event,
        }),
    }
}

fn meta(id: &str, parent: Option<&str>) -> SessionLogEvent {
    SessionLogEvent::SessionMeta(SessionMetaRecord {
        id: Some(id.to_string()),
        forked_from_id: parent.map(str::to_string),
        spawn_parent_thread_id: None,
        agent_nickname: None,
        spawn_agent_nickname: Some("helper".to_string()),
        agent_role: None,
        spawn_agent_role: None,
    })
}

fn tokens(input: i64, output: i64, total: Option<i64>) -> TokenCountRecord {
    TokenCountRecord {
        input_tokens: Some(input),
        cached_input_tokens: None,
        output_tokens: Some(output),
        reasoning_output_tokens: None,
        total_tokens: total,
    }
}

#[test]
fn parser_keeps_parent_and_dedupes_models() {
    let lines = vec![
        line("{}", Some("2026-04-01T00:00:00Z"), meta("child-id", Some("parent-id"))),
        line("{}", Some("2026-04-01T00:00:01Z"), SessionLogEvent::TurnContext(Some(" GPT-5.1 ".to_string()))),
        line("{}", Some("2026-04-01T00:00:02Z"), SessionLogEvent::TokenCount(Some(tokens(10, 5, None)), None)),
        line("{}", Some("2026-04-01T00:00:03Z"), SessionLogEvent::TurnContext(Some("gpt-5.1".to_string()))),
        SessionLogLine { text: "not json".to_string(), record: None },
    ];
    let titles = vec![("child-id".to_string(), "Child work".to_string())];
    let parsed = parse_session_lines(
        &lines,
        &None,
        "active",
        "/tmp/a.jsonl",
        &titles,
        &"now".to_string(),
    )
    .expect("parsed");
    assert_eq!(parsed.raw_session.session_id, "child-id");
    assert_eq!(parsed.raw_session.root_session_id, "child-id");
    assert_eq!(parsed.raw_session.parent_session_id.as_deref(), Some("parent-id"));
    assert_eq!(parsed.raw_session.agent_nickname.as_deref(), Some("helper"));
    assert_eq!(parsed.raw_session.title.as_deref(), Some("Child work"));
    assert_eq!(parsed.raw_session.model_ids, vec!["gpt-5.1".to_string()]);
    assert_eq!(parsed.raw_session.started_at.as_deref(), Some("2026-04-01T00:00:00Z"));
    assert_eq!(parsed.raw_session.updated_at.as_deref(), Some("2026-04-01T00:00:03Z"));
    assert_eq!(parsed.snapshots.len(), 1);
    assert_eq!(parsed.snapshots[0].usage.total_tokens, 15);
    assert_eq!(parsed.snapshots[0].model_id, "gpt-5.1");
    assert_eq!(parsed.last_model_id.as_deref(), Some("gpt-5.1"));
}

#[test]
fn parser_prefers_the_meta_the_file_name_carries() {
    let lines = vec![
        line("{}", None, meta("parent-id", None)),
        line("{}", None, meta("fork-id", Some("parent-id"))),
    ];
    let parsed = parse_session_lines(
        &lines,
        &Some("fork-id".to_string()),
        "active",
        "/tmp/fork.jsonl",
        &vec![],
        &"now".to_string(),
    )
    .expect("parsed");
    assert_eq!(parsed.raw_session.session_id, "fork-id");
    assert_eq!(parsed.raw_session.parent_session_id.as_deref(), Some("parent-id"));
}

#[test]
fn parser_falls_back_to_the_file_name_or_fails() {
    let lines = vec![line("{}", None, SessionLogEvent::Other)];
    let parsed = parse_session_lines(
        &lines,
        &Some("from-name".to_string()),
        "archived",
        "/tmp/x.jsonl",
        &vec![],
        &"now".to_string(),
    )
    .expect("parsed");
    assert_eq!(parsed.raw_session.session_id, "from-name");
    assert_eq!(parsed.last_model_id.as_deref(), Some("unknown"));

    let error = parse_session_lines(&lines, &None, "active", "/tmp/x.jsonl", &vec![], &"now".to_string())
        .expect_err("no id");
    assert_eq!(error, "Could not determine session id for /tmp/x.jsonl");
}

#[test]
fn parser_reads_fast_mode_plan_and_rate_limit_windows() {
    let limits = RateLimitsRecord {
        plan_type: Some("pro".to_string()),
        limit_id: Some("codex".to_string()),
        limit_name: None,
        primary: Some(RateWindowRecord {
            used_percent: Some(130),
            window_duration_mins: None,
            window_minutes: Some(300),
            resets_at: Some(1_000_000),
            limit_id: None,
            limit_name: Some("Five".to_string()),
        }),
        secondary: Some(RateWindowRecord {
            used_percent: None,
            window_duration_mins: Some(10080),
            window_minutes: None,
            resets_at: Some(2_000_000),
            limit_id: None,
            limit_name: None,
        }),
    };
    let lines = vec![
        line("{\"fast_mode\":true}", Some("2026-04-01T00:00:00Z"), meta("s", None)),
        line("{}", None, SessionLogEvent::TokenCount(Some(tokens(1, 1, Some(2))), Some(limits))),
    ];
    let parsed = parse_session_lines(&lines, &None, "active", "/tmp/s.jsonl", &vec![], &"fallback".to_string())
        .expect("parsed");
    assert_eq!(parsed.explicit_fast_mode, Some(true));
    assert_eq!(parsed.latest_plan_type.as_deref(), Some("pro"));
    assert_eq!(parsed.snapshots[0].timestamp, "fallback");
    assert_eq!(parsed.snapshots[0].explicit_fast_mode, Some(true));
    assert_eq!(parsed.rate_limit_samples.len(), 1);
    let sample = &parsed.rate_limit_samples[0];
    assert_eq!(sample.bucket, "five_hour");
    assert_eq!(sample.used_percent, 100);
    assert_eq!(sample.remaining_percent, 0);
    assert_eq!(sample.window_start_seconds, 1_000_000 - 300 * 60);
    assert_eq!(sample.limit_id.as_deref(), Some("codex"));
    assert_eq!(sample.limit_name.as_deref(), Some("Five"));
}

#[test]
fn json_lines_become_records() {
    let meta = session_log_line(
        r#"{"timestamp":"2026-04-02T10:00:00Z","type":"session_meta","payload":{"id":"child","source":{"subagent":{"thread_spawn":{"parent_thread_id":"root","agent_nickname":"Scout"}}}}}"#.to_string(),
        None,
        None,
    );
    let record = meta.record.expect("json line");
    assert_eq!(record.timestamp.as_deref(), Some("2026-04-02T10:00:00Z"));
    match record.event {
        SessionLogEvent::SessionMeta(m) => {
            assert_eq!(m.id.as_deref(), Some("child"));
            assert_eq!(m.spawn_parent_thread_id.as_deref(), Some("root"));
            assert_eq!(m.spawn_agent_nickname.as_deref(), Some("Scout"));
            assert_eq!(m.agent_role, None);
        }
        other => panic!("unexpected event {other:?}"),
    }

    let tokens = session_log_line(
        r#"{"type":"event_msg","payload":{"type":"token_count","info":{"total_token_usage":{"input_tokens":100,"output_tokens":20,"total_tokens":120}},"rate_limits":{"plan_type":"pro","primary":{"used_percent":12,"window_minutes":300,"resets_at":1778000000},"secondary":null}}}"#.to_string(),
        None,
        Some(7),
    );
    assert!(line_fits_exec(&tokens));
    match tokens.record.expect("json line").event {
        SessionLogEvent::TokenCount(Some(counts), Some(limits)) => {
            assert_eq!(counts.input_tokens, Some(100));
            assert_eq!(counts.cached_input_tokens, None);
            assert_eq!(counts.total_tokens, Some(120));
            assert_eq!(limits.plan_type.as_deref(), Some("pro"));
            let primary = limits.primary.expect("primary window");
            assert_eq!(primary.used_percent, Some(12));
            assert_eq!(primary.window_minutes, Some(300));
            assert_eq!(primary.resets_at, Some(1778000000));
            let secondary = limits.secondary.expect("a null window is still a window");
            assert_eq!(secondary.used_percent, Some(7));
            assert_eq!(secondary.resets_at, None);
        }
        other => panic!("unexpected event {other:?}"),
    }

    let fractional = session_log_line(
        r#"{"type":"event_msg","payload":{"type":"token_count","info":{"total_token_usage":{"input_tokens":1}},"rate_limits":{"primary":{"used_percent":12.6}}}}"#.to_string(),
        Some(13),
        None,
    );
    match fractional.record.expect("json line").event {
        SessionLogEvent::TokenCount(Some(_), Some(limits)) => {
            assert_eq!(limits.primary.expect("primary").used_percent, Some(13));
            assert!(limits.secondary.is_none());
        }
        other => panic!("unexpected event {other:?}"),
    }

    let no_total = session_log_line(
        r#"{"type":"event_msg","payload":{"type":"token_count","info":{"total_token_usage":null}}}"#.to_string(),
        None,
        None,
    );
    assert!(matches!(no_total.record.expect("json line").event, SessionLogEvent::Other));

    let model = session_log_line(r#"{"type":"turn_context","payload":{"model":"gpt-5.5"}}"#.to_string(), None, None);
    assert!(matches!(model.record.expect("json line").event, SessionLogEvent::TurnContext(Some(ref m)) if m == "gpt-5.5"));

    let cut_off = session_log_line(r#"{"type":"event_msg","payload":{"type":"tok"#.to_string(), None, None);
    assert!(cut_off.record.is_none());
    assert_eq!(cut_off.text, r#"{"type":"event_msg","payload":{"type":"tok"#);

    assert_eq!(
        session_index_entry(r#"{"id":"abc","thread_name":"  Fix the build  "}"#),
        Some(("abc".to_string(), "Fix the build".to_string()))
    );
    assert_eq!(session_index_entry(r#"{"id":"abc"}"#), None);
    assert_eq!(session_index_entry("not json"), None);
}
