use codex_pacer::models::CodexSourceCandidate;
use codex_pacer::ssh_config::{
    dedupe_candidates, flush_host_block, simple_star_match, ssh_config_items, HostBlock,
    SshConfigItem,
};

fn candidate(id: &str, label: &str) -> CodexSourceCandidate {
    CodexSourceCandidate {
        id: id.to_string(),
        label: label.to_string(),
        ssh_alias: label.to_string(),
        host_name: None,
        user: None,
        port: None,
        remote_codex_home: "~/.codex".to_string(),
        ignored_reason: None,
    }
}

#[test]
fn star_patterns_match_like_globs() {
    assert!(simple_star_match("*", "anything"));
    assert!(simple_star_match("*", ""));
    assert!(simple_star_match("config", "config"));
    assert!(!simple_star_match("config", "config2"));
    assert!(simple_star_match("*.conf", "work.conf"));
    assert!(!simple_star_match("*.conf", "work.conf.bak"));
    assert!(simple_star_match("host-*-prod*", "host-eu-prod-1"));
    assert!(simple_star_match("a*b*c", "abc"));
    assert!(simple_star_match("a*b*c", "axxbyyc"));
    assert!(!simple_star_match("a*b*c", "acb"));
    assert!(!simple_star_match("ab*b", "ab"));
    assert!(simple_star_match("ab*b", "abb"));
    assert!(simple_star_match("**", "x"));
}

#[test]
fn host_blocks_offer_their_usable_aliases() {
    let block = HostBlock {
        aliases: vec!["dev-box".to_string(), "*.internal".to_string(), "github.com".to_string()],
        host_name: Some("10.0.0.5".to_string()),
        user: Some("me".to_string()),
        port: Some(2222),
    };
    let mut candidates = vec![candidate("ssh_first", "first")];
    flush_host_block(&block, &mut candidates);
    assert_eq!(candidates.len(), 2);
    assert_eq!(candidates[0].id, "ssh_first");
    let c = &candidates[1];
    assert_eq!(c.id, "ssh_dev_box");
    assert_eq!(c.label, "dev-box");
    assert_eq!(c.ssh_alias, "dev-box");
    assert_eq!(c.host_name.as_deref(), Some("10.0.0.5"));
    assert_eq!(c.user.as_deref(), Some("me"));
    assert_eq!(c.port, Some(2222));
    assert_eq!(c.remote_codex_home, "~/.codex");
    assert_eq!(c.ignored_reason, None);
}

#[test]
fn config_text_yields_blocks_and_includes_in_order() {
    let content = "Include ~/.ssh/conf.d/*.conf extra\n\
                   # a comment\n\
                   Host dev stage  # both\n\
                   \tHostName 10.0.0.5\n\
                   User   me\n\
                   PORT 2200\n\
                   Host other\n\
                   Port nope\n";
    let items = ssh_config_items(content);
    assert_eq!(items.len(), 6);
    match &items[0] {
        SshConfigItem::Block(b) => assert!(b.aliases.is_empty()),
        _ => panic!("expected the empty starting block"),
    }
    match (&items[1], &items[2]) {
        (SshConfigItem::Include(a), SshConfigItem::Include(b)) => {
            assert_eq!(a, "~/.ssh/conf.d/*.conf");
            assert_eq!(b, "extra");
        }
        _ => panic!("expected two includes"),
    }
    match &items[3] {
        SshConfigItem::Block(b) => assert!(b.aliases.is_empty()),
        _ => panic!("expected the block the include left"),
    }
    match &items[4] {
        SshConfigItem::Block(b) => {
            assert_eq!(b.aliases, vec!["dev".to_string(), "stage".to_string()]);
            assert_eq!(b.host_name.as_deref(), Some("10.0.0.5"));
            assert_eq!(b.user.as_deref(), Some("me"));
            assert_eq!(b.port, Some(2200));
        }
        _ => panic!("expected the dev block"),
    }
    match &items[5] {
        SshConfigItem::Block(b) => {
            assert_eq!(b.aliases, vec!["other".to_string()]);
            assert_eq!(b.port, None);
        }
        _ => panic!("expected the last block"),
    }
}

#[test]
fn candidates_are_deduplicated_and_sorted_by_label() {
    let deduped = dedupe_candidates(vec![
        candidate("ssh_zeta", "Zeta"),
        candidate("ssh_alpha", "alpha"),
        candidate("ssh_zeta", "zeta again"),
        candidate("ssh_beta", "Beta"),
        candidate("ssh_alpha2", "ALPHA"),
    ]);
    let ids: Vec<_> = deduped.iter().map(|c| c.id.as_str()).collect();
    assert_eq!(ids, vec!["ssh_alpha", "ssh_alpha2", "ssh_beta", "ssh_zeta"]);
    assert_eq!(deduped[3].label, "Zeta");
}
