use codex_pacer::importer::{
    classify_topology_maintenance, diff_usage, existing_session_relations, fallback_session_id_from_filename, is_zero_delta,
    looks_like_session_id, resolve_codex_home, resolve_root, session_index_title,
    session_usage_events, usage_event_deltas, ExistingSessionRelation, TopologyMaintenance,
};
use codex_pacer::importer::{
    conversation_links, perform_scan, select_changed_session_files, ImportState, SessionFile,
};
use codex_pacer::models::{RawSession, TokenUsage, UsageSnapshot};
use codex_pacer::session_log::ParsedSession;

fn usage(input: i64, cached: i64, output: i64, reasoning: i64, total: i64) -> TokenUsage {
    TokenUsage {
        input_tokens: input,
        cached_input_tokens: cached,
        output_tokens: output,
        reasoning_output_tokens: reasoning,
        total_tokens: total,
    }
}

#[test]
fn diff_usage_handles_resets_and_growth() {
    let previous = TokenUsage {
        input_tokens: 10,
        cached_input_tokens: 2,
        output_tokens: 3,
        reasoning_output_tokens: 1,
        total_tokens: 13,
    };
    let current = TokenUsage {
        input_tokens: 18,
        cached_input_tokens: 5,
        output_tokens: 7,
        reasoning_output_tokens: 2,
        total_tokens: 25,
    };
    let delta = diff_usage(&previous, &current);
    assert_eq!(delta.input_tokens, 8);
    assert_eq!(delta.cached_input_tokens, 3);
    assert_eq!(delta.output_tokens, 4);
    assert_eq!(delta.reasoning_output_tokens, 1);
    assert_eq!(delta.total_tokens, 12);

    let reset = TokenUsage {
        input_tokens: 4,
        cached_input_tokens: 1,
        output_tokens: 2,
        reasoning_output_tokens: 0,
        total_tokens: 6,
    };
    let delta = diff_usage(&current, &reset);
    assert_eq!(delta, reset);
}

#[test]
fn zero_delta_helper_keeps_reasoning_only_growth() {
    assert!(!is_zero_delta(&TokenUsage {
        input_tokens: 0,
        cached_input_tokens: 0,
        output_tokens: 0,
        reasoning_output_tokens: 8,
        total_tokens: 0,
    }));
}

#[test]
fn topology_classification_handles_incremental_scan_cases() {
    let existing_child = ExistingSessionRelation {
        exists: true,
        parent_session_id: Some("root-parent".to_string()),
        child_count: 0,
    };
    assert_eq!(
        classify_topology_maintenance(
            Some(&existing_child),
            existing_child.child_count,
            Some("root-parent")
        ),
        TopologyMaintenance::Unchanged
    );
    assert_eq!(
        classify_topology_maintenance(
            Some(&existing_child),
            existing_child.child_count,
            Some("other-parent")
        ),
        TopologyMaintenance::RecomputeAll
    );

    let missing_parent_placeholder = ExistingSessionRelation {
        exists: false,
        parent_session_id: None,
        child_count: 2,
    };
    assert_eq!(
        classify_topology_maintenance(
            Some(&missing_parent_placeholder),
            missing_parent_placeholder.child_count,
            None
        ),
        TopologyMaintenance::RecomputeAll
    );
    assert_eq!(
        classify_topology_maintenance(None, 0, None),
        TopologyMaintenance::InsertRootLink
    );
    assert_eq!(
        classify_topology_maintenance(None, 0, Some("root-parent")),
        TopologyMaintenance::RecomputeAll
    );
}

#[test]
fn zero_delta_is_only_all_zero() {
    assert!(is_zero_delta(&usage(0, 0, 0, 0, 0)));
    assert!(!is_zero_delta(&usage(0, 0, 0, 0, 1)));
}

#[test]
fn billed_events_add_up_to_the_last_reading() {
    let readings = vec![
        usage(10, 0, 5, 0, 15),
        usage(10, 0, 5, 0, 15),
        usage(30, 4, 9, 1, 39),
        usage(42, 4, 12, 3, 54),
    ];
    let events = usage_event_deltas(&readings);
    let positions: Vec<usize> = events.iter().map(|(i, _)| *i).collect();
    assert_eq!(positions, vec![0, 2, 3]);
    let mut total = usage(0, 0, 0, 0, 0);
    for (_, d) in &events {
        total.input_tokens += d.input_tokens;
        total.cached_input_tokens += d.cached_input_tokens;
        total.output_tokens += d.output_tokens;
        total.reasoning_output_tokens += d.reasoning_output_tokens;
        total.total_tokens += d.total_tokens;
    }
    assert_eq!(total, readings[3]);
}

#[test]
fn a_reset_bills_the_new_reading_in_full() {
    let readings = vec![usage(50, 0, 10, 0, 60), usage(5, 0, 1, 0, 6)];
    let events = usage_event_deltas(&readings);
    assert_eq!(events.len(), 2);
    assert_eq!(events[1], (1, usage(5, 0, 1, 0, 6)));
}

#[test]
fn usage_event_rows_carry_time_and_normalized_model() {
    let snapshot = |t: &str, m: &str, u: TokenUsage| UsageSnapshot {
        timestamp: t.to_string(),
        model_id: m.to_string(),
        usage: u,
        plan_type: None,
        limit_id: None,
        limit_name: None,
        explicit_fast_mode: None,
    };
    let snapshots = vec![
        snapshot("2026-04-01T00:00:00Z", " GPT-5.1 ", usage(10, 0, 0, 0, 10)),
        snapshot("2026-04-01T00:01:00Z", "gpt-5.1", usage(10, 0, 0, 0, 10)),
        snapshot("2026-04-01T00:02:00Z", "gpt-5.1", usage(25, 0, 5, 0, 30)),
    ];
    let rows = session_usage_events(&snapshots);
    assert_eq!(rows.len(), 2);
    assert_eq!(rows[0].model_id, "gpt-5.1");
    assert_eq!(rows[0].timestamp, "2026-04-01T00:00:00Z");
    assert_eq!(rows[1].timestamp, "2026-04-01T00:02:00Z");
    assert_eq!(rows[1].usage, usage(15, 0, 5, 0, 20));
}

#[test]
fn session_ids_are_recognized_and_found_in_file_names() {
    assert!(looks_like_session_id("019cfb3d-415c-7623-aab0-22e73abcec2e"));
    assert!(!looks_like_session_id("019cfb3d-415c-7623-aab0-22e73abcec2"));
    assert!(!looks_like_session_id("019cfb3d_415c-7623-aab0-22e73abcec2e"));
    assert_eq!(
        fallback_session_id_from_filename(
            "rollout-2026-03-17T10-00-00-019cfb3d-415c-7623-aab0-22e73abcec2e"
        )
        .as_deref(),
        Some("019cfb3d-415c-7623-aab0-22e73abcec2e")
    );
    assert_eq!(fallback_session_id_from_filename("rollout-2026-03-17"), None);
}

#[test]
fn root_of_a_session_follows_parents_to_the_top() {
    let parents = vec![
        ("root".to_string(), None),
        ("child".to_string(), Some("root".to_string())),
        ("grandchild".to_string(), Some("child".to_string())),
    ];
    let (root, _) = resolve_root("grandchild", &parents);
    assert_eq!(root, "root");
    let (alone, _) = resolve_root("unknown", &parents);
    assert_eq!(alone, "unknown");
}

#[test]
fn codex_home_prefers_request_then_settings_then_environment() {
    assert_eq!(
        resolve_codex_home(
            Some("/a".to_string()),
            Some("/b".to_string()),
            Some("/c".to_string()),
            Some("/home/me".to_string())
        ),
        Ok("/a".to_string())
    );
    assert_eq!(
        resolve_codex_home(None, Some("  ".to_string()), Some("/c".to_string()), None),
        Ok("/c".to_string())
    );
    assert_eq!(
        resolve_codex_home(None, None, None, Some("/home/me".to_string())),
        Ok("/home/me/.codex".to_string())
    );
    assert_eq!(
        resolve_codex_home(None, None, Some(" ".to_string()), None),
        Err("Unable to resolve home directory for CODEX_HOME fallback.".to_string())
    );
}

#[test]
fn session_index_titles_are_trimmed_and_blank_ones_dropped() {
    assert_eq!(
        session_index_title("abc", Some("  Fix the build  ")),
        Some(("abc".to_string(), "Fix the build".to_string()))
    );
    assert_eq!(session_index_title("abc", Some("   ")), None);
    assert_eq!(session_index_title("abc", None), None);
}

#[test]
fn existing_relations_count_children_and_keep_parents() {
    let rows = vec![
        ("root".to_string(), None),
        ("child-a".to_string(), Some("root".to_string())),
        ("child-b".to_string(), Some("root".to_string())),
        ("orphan".to_string(), Some("gone".to_string())),
    ];
    let relations = existing_session_relations(&rows);
    assert_eq!(relations.len(), 5);
    let find = |id: &str| {
        relations
            .iter()
            .find(|(key, _)| key == id)
            .map(|(_, relation)| relation.clone())
            .expect("relation")
    };
    let root = find("root");
    assert!(root.exists);
    assert_eq!(root.parent_session_id, None);
    assert_eq!(root.child_count, 2);
    let child = find("child-a");
    assert!(child.exists);
    assert_eq!(child.parent_session_id.as_deref(), Some("root"));
    assert_eq!(child.child_count, 0);
    let gone = find("gone");
    assert!(!gone.exists);
    assert_eq!(gone.child_count, 1);
}

#[test]
fn a_growing_log_keeps_the_events_already_read() {
    let readings = vec![
        usage(100, 0, 10, 0, 110),
        usage(100, 0, 10, 0, 110),
        usage(250, 50, 30, 5, 280),
        usage(40, 0, 5, 0, 45),
    ];
    let all = usage_event_deltas(&readings);
    for n in 0..=readings.len() {
        let part = usage_event_deltas(&readings[..n].to_vec());
        assert!(part.len() <= all.len());
        assert_eq!(part, all[..part.len()].to_vec());
    }
    assert_eq!(all.len(), 3);
}

fn session_file(path: &str, stem: &str, size: i64, mtime: i64) -> SessionFile {
    SessionFile {
        path: path.to_string(),
        file_stem: stem.to_string(),
        bucket: "archived".to_string(),
        file_size: size,
        file_mtime_ms: mtime,
    }
}

fn import_state(path: &str, session_id: Option<&str>, size: i64, mtime: i64) -> ImportState {
    ImportState {
        source_path: path.to_string(),
        session_id: session_id.map(str::to_string),
        file_size: size,
        file_mtime_ms: mtime,
    }
}

#[test]
fn import_state_mismatch_reimports_even_when_file_metadata_is_unchanged() {
    let child_session_id = "019d4f72-a2ee-77a0-bd4a-76f43b7b299b";
    let wrong_session_id = "019d4d7c-457e-7020-8b5f-7940eb5e3716";
    let stem = format!("rollout-2026-04-03T02-26-46-{child_session_id}");
    let path = format!("/codex/archived_sessions/{stem}.jsonl");
    let files = vec![
        session_file(&path, &stem, 512, 1_000),
        session_file("/codex/sessions/plain.jsonl", "plain", 64, 2_000),
        session_file("/codex/sessions/new.jsonl", "new", 32, 3_000),
    ];
    let states = vec![
        import_state(&path, Some(wrong_session_id), 512, 1_000),
        import_state("/codex/sessions/plain.jsonl", Some("kept-session"), 64, 2_000),
    ];
    let selection = select_changed_session_files(&files, &states, false);
    assert_eq!(selection.changed_files, vec![0, 2]);
    assert_eq!(selection.unchanged_session_ids, vec!["kept-session".to_string()]);

    let backfill = select_changed_session_files(&files, &states, true);
    assert_eq!(backfill.changed_files, vec![0, 1, 2]);
    assert!(backfill.unchanged_session_ids.is_empty());
}

fn parsed(id: &str, parent: Option<&str>) -> ParsedSession {
    ParsedSession {
        raw_session: RawSession {
            session_id: id.to_string(),
            parent_session_id: parent.map(str::to_string),
            root_session_id: id.to_string(),
            title: None,
            source_state: "active".to_string(),
            source_path: None,
            started_at: None,
            updated_at: None,
            model_ids: Vec::new(),
            contains_subagents: false,
            agent_nickname: None,
            agent_role: None,
        },
        snapshots: Vec::new(),
        rate_limit_samples: Vec::new(),
        explicit_fast_mode: None,
        latest_plan_type: None,
        last_model_id: None,
    }
}

#[test]
fn scan_decides_imports_roots_and_relinking() {
    let kept = vec!["old-root".to_string()];
    let relations = existing_session_relations(&vec![
        ("old-root".to_string(), None),
        ("moved".to_string(), Some("old-root".to_string())),
    ]);

    let quiet = vec![Ok(parsed("fresh-root", None)), Err("unreadable".to_string())];
    let outcome = perform_scan(&kept, &quiet, &relations);
    assert_eq!(
        outcome.imported_session_ids,
        vec!["old-root".to_string(), "fresh-root".to_string()]
    );
    assert_eq!(outcome.new_root_session_ids, vec!["fresh-root".to_string()]);
    assert!(!outcome.topology_dirty);
    assert_eq!(outcome.updated_sessions, 1);

    let reparented = vec![Ok(parsed("moved", Some("fresh-root")))];
    let outcome = perform_scan(&kept, &reparented, &relations);
    assert!(outcome.topology_dirty);
    assert!(outcome.new_root_session_ids.is_empty());
    assert_eq!(outcome.updated_sessions, 1);
}

#[test]
fn conversation_links_follow_parents_to_the_root() {
    let parents = vec![
        ("root".to_string(), None),
        ("child".to_string(), Some("root".to_string())),
        ("grandchild".to_string(), Some("child".to_string())),
    ];
    let links = conversation_links(&parents);
    assert_eq!(links.len(), 3);
    assert_eq!(links[0].root_session_id, "root");
    assert_eq!(links[0].depth, 0);
    assert!(links[0].contains_subagents);
    assert_eq!(links[2].session_id, "grandchild");
    assert_eq!(links[2].root_session_id, "root");
    assert_eq!(links[2].depth, 2);
    assert_eq!(links[2].parent_session_id.as_deref(), Some("child"));
    assert!(!links[2].contains_subagents);
}

#[test]
fn rescanning_unchanged_files_reads_and_bills_nothing() {
    let files = vec![
        session_file("/codex/sessions/a.jsonl", "a", 10, 100),
        session_file("/codex/sessions/b.jsonl", "b", 20, 200),
    ];
    let states = vec![
        import_state("/codex/sessions/a.jsonl", Some("session-a"), 10, 100),
        import_state("/codex/sessions/b.jsonl", Some("session-b"), 20, 200),
    ];
    let selection = select_changed_session_files(&files, &states, false);
    assert!(selection.changed_files.is_empty());
    assert_eq!(
        selection.unchanged_session_ids,
        vec!["session-a".to_string(), "session-b".to_string()]
    );
    let relations = existing_session_relations(&vec![
        ("session-a".to_string(), None),
        ("session-b".to_string(), None),
    ]);
    let outcome = perform_scan(&selection.unchanged_session_ids, &Vec::new(), &relations);
    assert_eq!(outcome.updated_sessions, 0);
    assert!(outcome.new_root_session_ids.is_empty());
    assert!(!outcome.topology_dirty);
    assert_eq!(outcome.imported_session_ids.len(), 2);
}
