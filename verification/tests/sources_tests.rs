use codex_pacer::models::{CodexSource, CodexSourceInput};
use codex_pacer::sources::{
    codex_source_id, expand_tilde_with, ignored_host_reason, looks_like_git_host,
    normalize_label, normalize_remote_codex_home, remote_path_expr, remote_probe_command,
    remote_rsync_path, remote_sync_error_message, rsync_arguments, sanitize_component,
    shell_quote, source_cache_codex_home, source_id_for_alias, source_sync_plan,
    ssh_probe_arguments, ssh_source_fields, strip_comment,
};

fn ssh_source(kind: &str, alias: Option<&str>, home: Option<&str>) -> CodexSource {
    CodexSource {
        id: "ssh_box".to_string(),
        kind: kind.to_string(),
        label: "box".to_string(),
        ssh_alias: alias.map(str::to_string),
        host_name: None,
        user: None,
        port: None,
        remote_codex_home: home.map(str::to_string),
        local_codex_home: None,
        selected: true,
        display_selected: true,
        update_selected: true,
        status: "idle".to_string(),
        last_discovered_at: None,
        last_downloaded_at: None,
        last_scanned_at: None,
        last_error: None,
        created_at: "2026-04-01T00:00:00Z".to_string(),
        updated_at: "2026-04-01T00:00:00Z".to_string(),
    }
}

#[test]
fn ignored_host_reason_filters_common_code_hosts() {
    assert_eq!(
        ignored_host_reason("github.com", Some("github.com"), Some("git")).as_deref(),
        Some("code-host")
    );
    assert_eq!(
        ignored_host_reason("git.galbot.com", Some("git.galbot.com"), Some("git")).as_deref(),
        Some("code-host")
    );
    assert_eq!(
        ignored_host_reason("internal-gitlab", Some("gitlab.example.com"), None).as_deref(),
        Some("code-host")
    );
    assert_eq!(
        ignored_host_reason("4060_wtxy_dorm", Some("192.168.31.197"), Some("wtxy")),
        None
    );
}

#[test]
fn ignored_host_reason_filters_patterns() {
    assert_eq!(
        ignored_host_reason("*", None, None).as_deref(),
        Some("pattern")
    );
    assert_eq!(
        ignored_host_reason("!bastion", None, None).as_deref(),
        Some("pattern")
    );
}

#[test]
fn remote_probe_and_rsync_path_expand_tilde_on_remote_shell() {
    let probe = remote_probe_command("~/.codex");
    assert!(probe.starts_with("cd \"$HOME\"/'.codex' || exit 2;"));
    assert!(!probe.contains("cd '~/.codex'"));

    let rsync_path = remote_rsync_path("~/.codex");
    assert_eq!(rsync_path, "cd \"$HOME\"/'.codex' && rsync");

    let quoted = remote_probe_command("~/Codex Data");
    assert!(quoted.starts_with("cd \"$HOME\"/'Codex Data' || exit 2;"));

    let absolute = remote_probe_command("/opt/codex data");
    assert!(absolute.starts_with("cd '/opt/codex data' || exit 2;"));
}

#[test]
fn remote_sync_error_message_hides_raw_bash_cd_error() {
    let error = remote_sync_error_message(
        "bash: line 1: cd: ~/.codex: No such file or directory",
        Some(2),
        None,
        "~/.codex",
    );

    assert!(error.contains("远程 Codex 目录不存在"));
    assert!(!error.contains("bash: line 1"));
}

#[test]
fn remote_sync_errors_explain_each_failure() {
    let empty = remote_sync_error_message("", Some(3), None, "/data/codex");
    assert!(empty.contains("/data/codex"));
    assert!(empty.contains("session_index.jsonl"));
    assert_eq!(
        remote_sync_error_message("", None, Some(23), "~/.codex"),
        "同步远程 Codex 缓存失败，rsync 退出码 23。"
    );
    assert_eq!(
        remote_sync_error_message("", None, None, "~/.codex"),
        "同步远程 Codex 缓存失败。"
    );
    assert_eq!(
        remote_sync_error_message("Permission denied", None, Some(255), "~/.codex"),
        "Permission denied"
    );
}

#[test]
fn shell_quoting_escapes_single_quotes() {
    assert_eq!(shell_quote("it's"), "'it'\"'\"'s'");
    assert_eq!(remote_path_expr("~"), "\"$HOME\"");
    assert_eq!(remote_path_expr("  ~/  "), "\"$HOME\"");
}

#[test]
fn git_like_hosts_are_recognized() {
    assert!(looks_like_git_host("git"));
    assert!(looks_like_git_host(".git.example.com."));
    assert!(looks_like_git_host("repo.git"));
    assert!(looks_like_git_host("git-mirror"));
    assert!(!looks_like_git_host("build-box"));
}

#[test]
fn sanitizing_keeps_lowercase_letters_digits_and_single_underscores() {
    assert_eq!(sanitize_component("  My Box--01 "), "my_box_01");
    assert_eq!(sanitize_component(&sanitize_component("  My Box--01 ")), "my_box_01");
    assert_eq!(sanitize_component("***"), "");
    assert_eq!(source_id_for_alias("Build.Server"), "ssh_build_server");
    assert_eq!(codex_source_id("Build.Server"), "ssh_build_server");
    let hashed = source_id_for_alias("é");
    assert!(hashed.starts_with("ssh_"));
    assert!(hashed.len() > 4);
    assert!(hashed[4..].chars().all(|c| c.is_ascii_hexdigit()));
    let mut hasher = std::collections::hash_map::DefaultHasher::new();
    std::hash::Hash::hash("é", &mut hasher);
    let expected = format!("ssh_{:x}", std::hash::Hasher::finish(&hasher));
    assert_eq!(hashed, expected);
}

#[test]
fn comments_are_cut_at_hash() {
    assert_eq!(strip_comment("Host box # dev"), "Host box ");
    assert_eq!(strip_comment("no comment"), "no comment");
}

#[test]
fn source_fields_are_trimmed_and_defaulted() {
    let fields = ssh_source_fields(&CodexSourceInput {
        label: "   ".to_string(),
        ssh_alias: "  box  ".to_string(),
        host_name: Some(" 10.0.0.2 ".to_string()),
        user: Some("  ".to_string()),
        port: Some(22),
        remote_codex_home: " ".to_string(),
        selected: true,
    });
    assert_eq!(fields.label, "box");
    assert_eq!(fields.ssh_alias, "box");
    assert_eq!(fields.host_name.as_deref(), Some("10.0.0.2"));
    assert_eq!(fields.user, None);
    assert_eq!(fields.port, Some(22));
    assert_eq!(fields.remote_codex_home, "~/.codex");
    assert_eq!(fields.selected, 1);
    assert_eq!(normalize_label(&"x".repeat(100), "y").chars().count(), 80);
    assert_eq!(normalize_remote_codex_home(" /data "), "/data");
}

#[test]
fn sync_plan_requires_an_ssh_source_with_an_alias() {
    assert_eq!(
        source_sync_plan(&ssh_source("local", Some("box"), None)).unwrap_err(),
        "Only SSH sources can be downloaded."
    );
    assert_eq!(
        source_sync_plan(&ssh_source("ssh", Some("  "), None)).unwrap_err(),
        "SSH source is missing an alias."
    );
    let plan = source_sync_plan(&ssh_source("ssh", Some("box"), Some(" "))).expect("plan");
    assert_eq!(plan.remote_home, "~/.codex");
    assert_eq!(plan.rsync_path, "cd \"$HOME\"/'.codex' && rsync");
    let probe = ssh_probe_arguments(&plan);
    assert_eq!(probe[4], "box");
    assert_eq!(probe.len(), 6);
    let rsync = rsync_arguments(&plan, "/cache/dir");
    assert_eq!(rsync.len(), 16);
    assert_eq!(rsync[14], "box:./");
    assert_eq!(rsync[15], "/cache/dir/");
}

#[test]
fn cache_home_and_tilde_expansion() {
    assert_eq!(
        source_cache_codex_home("/data/app", "SSH Box"),
        "/data/app/codex-sources/ssh_box/codex-cache"
    );
    assert_eq!(expand_tilde_with("~/.ssh/conf.d", Some("/home/me")), "/home/me/.ssh/conf.d");
    assert_eq!(expand_tilde_with("~", Some("/home/me")), "/home/me");
    assert_eq!(expand_tilde_with("~other", Some("/home/me")), "~other");
    assert_eq!(expand_tilde_with("~/x", None), "~/x");
}
