//! SSH sources: which hosts of an SSH config are offered, how a source is
//! named, and the shell commands that reach its Codex home.
use std::collections::hash_map::DefaultHasher;
use std::hash::{Hash, Hasher};

use vstd::prelude::*;

use crate::text::{
    append_str, chars_eq_str, chars_of, contains_char, contains_chars, contains_seq, ends_with,
    ends_with_chars, i64_text, int_text, is_alnum_ascii, join_parts, join_seq, lower_char,
    lower_chars, lower_seq, nonempty_parts, nonempty_parts_exec, owned, parts_view,
    replace_char, replace_char_seq, split_chars, split_seq, starts_with, starts_with_chars,
    string_from_chars, take_chars, take_seq, trim_seq, trim_str,
};
use crate::importer::opt_view;
use crate::models::{CodexSource, CodexSourceInput};

verus! {

// ---------------------------------------------------------------------------
// Remote shell commands
// ---------------------------------------------------------------------------

/// `value` in single quotes, each quote inside written as `'"'"'`.
pub open spec fn shell_quoted(value: Seq<char>) -> Seq<char> {
    seq!['\''] + replace_char_seq(value, '\'', "'\"'\"'"@) + seq!['\'']
}

/// Quotes a value for a POSIX shell.
pub fn shell_quote(value: &str) -> (r: String)
    ensures
        r@ == shell_quoted(value@),
{
    let v = chars_of(value);
    let rep = chars_of("'\"'\"'");
    let body = replace_char(&v, '\'', &rep);
    let mut out: Vec<char> = Vec::new();
    out.push('\'');
    crate::text::push_all(&mut out, &body);
    out.push('\'');
    assert(out@ =~= shell_quoted(value@));
    string_from_chars(&out)
}

/// How the remote shell names a Codex home: `~` and `~/...` through
/// `$HOME`, anything else quoted as it is.
pub open spec fn remote_path(remote_home: Seq<char>) -> Seq<char> {
    let t = trim_seq(remote_home);
    if t == seq!['~'] {
        "\"$HOME\""@
    } else if starts_with(t, "~/"@) {
        let rest = t.skip(2);
        if rest.len() == 0 {
            "\"$HOME\""@
        } else {
            "\"$HOME\"/"@ + shell_quoted(rest)
        }
    } else {
        shell_quoted(t)
    }
}

/// The remote shell expression for a Codex home.
pub fn remote_path_expr(remote_home: &str) -> (r: String)
    ensures
        r@ == remote_path(remote_home@),
{
    let t = trim_str(remote_home);
    proof {
        reveal_strlit("~/");
    }
    let tilde = vec!['~'];
    if crate::text::chars_eq(&t, &tilde) {
        assert(tilde@ =~= seq!['~']);
        return "\"$HOME\"".to_owned();
    }
    assert(tilde@ =~= seq!['~']);
    let prefix = chars_of("~/");
    if starts_with_chars(&t, &prefix) {
        let rest = crate::text::slice_chars(&t, 2, t.len());
        assert(rest@ =~= t@.skip(2));
        if rest.len() == 0 {
            "\"$HOME\"".to_owned()
        } else {
            let rest_text = string_from_chars(&rest);
            let quoted = shell_quote(rest_text.as_str());
            let mut out = owned("\"$HOME\"/");
            append_str(&mut out, quoted.as_str());
            out
        }
    } else {
        let text = string_from_chars(&t);
        shell_quote(text.as_str())
    }
}

/// The command that checks a Codex home on the remote host: exit code 2
/// when it cannot be entered, 3 when it holds no session data.
pub fn remote_probe_command(remote_home: &str) -> (r: String)
    ensures
        r@ == "cd "@ + remote_path(remote_home@)
            + " || exit 2; [ -f session_index.jsonl ] || [ -d sessions ] || [ -d archived_sessions ] || exit 3"@,
{
    let home = remote_path_expr(remote_home);
    let mut out = owned("cd ");
    append_str(&mut out, home.as_str());
    append_str(
        &mut out,
        " || exit 2; [ -f session_index.jsonl ] || [ -d sessions ] || [ -d archived_sessions ] || exit 3",
    );
    out
}

/// The `--rsync-path` that makes the remote rsync start in the Codex home.
pub fn remote_rsync_path(remote_home: &str) -> (r: String)
    ensures
        r@ == "cd "@ + remote_path(remote_home@) + " && rsync"@,
{
    let home = remote_path_expr(remote_home);
    let mut out = owned("cd ");
    append_str(&mut out, home.as_str());
    append_str(&mut out, " && rsync");
    out
}

/// The message shown when syncing a remote source failed.
pub open spec fn sync_error_text(
    raw_message: Seq<char>,
    probe_status: Option<i32>,
    rsync_status: Option<i32>,
    remote_home: Seq<char>,
) -> Seq<char> {
    if probe_status == Some(2i32) || contains_seq(raw_message, "cd:"@) {
        "远程 Codex 目录不存在："@ + remote_home
            + "。请确认这台服务器已运行过 Codex，或重新添加服务器时改成实际目录。"@
    } else if probe_status == Some(3i32) {
        "远程目录 "@ + remote_home
            + " 存在，但没有找到 Codex 会话缓存（session_index.jsonl / sessions / archived_sessions）。"@
    } else if raw_message.len() == 0 {
        match rsync_status {
            Some(code) => "同步远程 Codex 缓存失败，rsync 退出码 "@ + int_text(code as int) + "。"@,
            None => "同步远程 Codex 缓存失败。"@,
        }
    } else {
        raw_message
    }
}

/// The message shown when syncing a remote source failed, given what the
/// probe and rsync reported.
pub fn remote_sync_error_message(
    raw_message: &str,
    probe_status: Option<i32>,
    rsync_status: Option<i32>,
    remote_home: &str,
) -> (r: String)
    ensures
        r@ == sync_error_text(raw_message@, probe_status, rsync_status, remote_home@),
{
    let raw = chars_of(raw_message);
    let cd = chars_of("cd:");
    if probe_status == Some(2i32) || contains_chars(&raw, &cd) {
        let mut out = owned("远程 Codex 目录不存在：");
        append_str(&mut out, remote_home);
        append_str(&mut out, "。请确认这台服务器已运行过 Codex，或重新添加服务器时改成实际目录。");
        return out;
    }
    if probe_status == Some(3i32) {
        let mut out = owned("远程目录 ");
        append_str(&mut out, remote_home);
        append_str(
            &mut out,
            " 存在，但没有找到 Codex 会话缓存（session_index.jsonl / sessions / archived_sessions）。",
        );
        return out;
    }
    if raw.len() == 0 {
        match rsync_status {
            Some(code) => {
                let mut out = owned("同步远程 Codex 缓存失败，rsync 退出码 ");
                let digits = i64_text(code as i64);
                append_str(&mut out, digits.as_str());
                append_str(&mut out, "。");
                out
            },
            None => "同步远程 Codex 缓存失败。".to_owned(),
        }
    } else {
        owned(raw_message)
    }
}


// ---------------------------------------------------------------------------
// Which SSH hosts are offered
// ---------------------------------------------------------------------------

/// A host name that looks like a Git server.
pub open spec fn git_host_like(value: Seq<char>) -> bool {
    let n = crate::text::trim_char_seq(value, '.');
    ||| n == "git"@
    ||| starts_with(n, "git."@)
    ||| ends_with(n, ".git"@)
    ||| contains_seq(n, ".git."@)
    ||| starts_with(n, "git-"@)
    ||| contains_seq(n, "gitlab"@)
    ||| contains_seq(n, "github"@)
}

/// Whether a (lower-cased) host name looks like a Git server.
pub fn looks_like_git_host(value: &str) -> (r: bool)
    ensures
        r == git_host_like(value@),
{
    let v = chars_of(value);
    let n = crate::text::trim_char(&v, '.');
    crate::text::chars_eq_str(&n, "git") || starts_with_chars(&n, &chars_of("git."))
        || ends_with_chars(&n, &chars_of(".git")) || contains_chars(&n, &chars_of(".git."))
        || starts_with_chars(&n, &chars_of("git-")) || contains_chars(&n, &chars_of("gitlab"))
        || contains_chars(&n, &chars_of("github"))
}

/// A name that contains one of the well-known code hosting services.
pub open spec fn names_code_host(s: Seq<char>) -> bool {
    ||| contains_seq(s, "github.com"@)
    ||| contains_seq(s, "gitlab.com"@)
    ||| contains_seq(s, "bitbucket.org"@)
    ||| contains_seq(s, "ssh.dev.azure.com"@)
    ||| contains_seq(s, "gist.github.com"@)
    ||| contains_seq(s, "gitee.com"@)
    ||| contains_seq(s, "codeberg.org"@)
    ||| contains_seq(s, "sr.ht"@)
    ||| contains_seq(s, "sourcehut"@)
}

fn names_code_host_exec(s: &Vec<char>) -> (r: bool)
    ensures
        r == names_code_host(s@),
{
    contains_chars(s, &chars_of("github.com")) || contains_chars(s, &chars_of("gitlab.com"))
        || contains_chars(s, &chars_of("bitbucket.org")) || contains_chars(
        s,
        &chars_of("ssh.dev.azure.com"),
    ) || contains_chars(s, &chars_of("gist.github.com")) || contains_chars(
        s,
        &chars_of("gitee.com"),
    ) || contains_chars(s, &chars_of("codeberg.org")) || contains_chars(s, &chars_of("sr.ht"))
        || contains_chars(s, &chars_of("sourcehut"))
}

/// Why an SSH host is not offered as a source: `pattern` for a wildcard or
/// negated alias, `code-host` for Git servers; `None` when it is offered.
pub open spec fn ignored_reason(
    alias: Seq<char>,
    host_name: Option<Seq<char>>,
    user: Option<Seq<char>>,
) -> Option<Seq<char>> {
    let lower_alias = lower_seq(alias);
    let lower_host = lower_seq(
        match host_name {
            Some(h) => h,
            None => alias,
        },
    );
    let lower_user = lower_seq(
        match user {
            Some(u) => u,
            None => Seq::<char>::empty(),
        },
    );
    if alias.contains('*') || alias.contains('?') || (alias.len() > 0 && alias[0] == '!') {
        Some("pattern"@)
    } else if lower_user == "git"@ {
        Some("code-host"@)
    } else if names_code_host(lower_alias) || names_code_host(lower_host) {
        Some("code-host"@)
    } else if git_host_like(lower_alias) || git_host_like(lower_host) {
        Some("code-host"@)
    } else {
        None
    }
}

/// Why an SSH host is not offered as a source, if it is not.
pub fn ignored_host_reason(alias: &str, host_name: Option<&str>, user: Option<&str>) -> (r: Option<
    String,
>)
    ensures
        crate::importer::opt_view(r) == ignored_reason(
            alias@,
            crate::importer::opt_str_view(host_name),
            crate::importer::opt_str_view(user),
        ),
{
    let a = chars_of(alias);
    if contains_char(&a, '*') || contains_char(&a, '?') || (a.len() > 0 && a[0] == '!') {
        return Some("pattern".to_owned());
    }
    let lower_alias = lower_chars(&a);
    let host_chars = match host_name {
        Some(h) => chars_of(h),
        None => chars_of(alias),
    };
    let lower_host = lower_chars(&host_chars);
    let user_chars = match user {
        Some(u) => chars_of(u),
        None => Vec::new(),
    };
    let lower_user = lower_chars(&user_chars);
    if crate::text::chars_eq_str(&lower_user, "git") {
        return Some("code-host".to_owned());
    }
    if names_code_host_exec(&lower_alias) || names_code_host_exec(&lower_host) {
        return Some("code-host".to_owned());
    }
    let alias_text = string_from_chars(&lower_alias);
    let host_text = string_from_chars(&lower_host);
    if looks_like_git_host(alias_text.as_str()) || looks_like_git_host(host_text.as_str()) {
        return Some("code-host".to_owned());
    }
    None
}

// ---------------------------------------------------------------------------
// Source ids
// ---------------------------------------------------------------------------

/// `value` reduced to lower-case ASCII letters and digits, runs of anything
/// else becoming one `_`, with no `_` at either end.
pub open spec fn sanitized(value: Seq<char>) -> Seq<char> {
    join_seq(id_parts(value), "_"@)
}

/// A character of an id: an ASCII letter lower-cased, a digit, or `_` for
/// anything else.
pub open spec fn id_char(c: char) -> char {
    if is_alnum_ascii(c) {
        lower_char(c)
    } else {
        '_'
    }
}

pub open spec fn id_chars(value: Seq<char>) -> Seq<char> {
    value.map_values(|c: char| id_char(c))
}

/// The runs of letters and digits of a value, lower-cased.
pub open spec fn id_parts(value: Seq<char>) -> Seq<Seq<char>> {
    nonempty_parts(split_seq(id_chars(value), '_'))
}

/// Reduces a value to a safe file and id component.
pub fn sanitize_component(value: &str) -> (r: String)
    ensures
        r@ == sanitized(value@),
{
    let v = chars_of(value);
    let mut mapped: Vec<char> = Vec::new();
    let mut i: usize = 0;
    while i < v.len()
        invariant
            i <= v.len(),
            mapped@ == id_chars(v@.take(i as int)),
        decreases v.len() - i,
    {
        let c = v[i];
        let d = if ('a' <= c && c <= 'z') || ('0' <= c && c <= '9') {
            c
        } else if 'A' <= c && c <= 'Z' {
            ((c as u8) + 32) as char
        } else {
            '_'
        };
        assert(d == id_char(c)) by {
            if 'A' <= c && c <= 'Z' {
                assert((c as u8) as u32 == c as u32);
            }
        }
        mapped.push(d);
        i += 1;
        assert(mapped@ =~= id_chars(v@.take(i as int)));
    }
    assert(v@.take(v.len() as int) =~= v@);
    let parts = split_chars(&mapped, '_');
    assert(parts_view(parts@) =~= split_seq(mapped@, '_'));
    let kept = nonempty_parts_exec(&parts);
    let sep = vec!['_'];
    proof {
        reveal_strlit("_");
    }
    assert(sep@ =~= "_"@);
    let joined = join_parts(&kept, 0, kept.len(), &sep);
    assert(parts_view(kept@).subrange(0, kept@.len() as int) =~= parts_view(kept@));
    string_from_chars(&joined)
}

pub open spec fn hex_digit(d: nat) -> char {
    if d < 10 {
        ((d + 48) as u32) as char
    } else {
        ((d + 87) as u32) as char
    }
}

/// Lower-case hexadecimal digits of a number, without leading zeros.
pub open spec fn hex_digits(n: nat) -> Seq<char>
    decreases n,
{
    if n < 16 {
        seq![hex_digit(n)]
    } else {
        hex_digits(n / 16).push(hex_digit(n % 16))
    }
}

fn u64_hex(n: u64) -> (r: Vec<char>)
    ensures
        r@ == hex_digits(n as nat),
    decreases n,
{
    let d = (n % 16) as u8;
    let c = if d < 10 {
        (d + 48) as char
    } else {
        (d + 87) as char
    };
    assert(c == hex_digit((n % 16) as nat));
    if n < 16 {
        let mut r = Vec::new();
        r.push(c);
        r
    } else {
        let mut r = u64_hex(n / 16);
        r.push(c);
        r
    }
}

/// Feeds a string to a hasher with `<str as Hash>::hash`. Nothing is
/// claimed of what the hasher holds afterwards: the standard library leaves
/// it unspecified.
#[verifier::external_body]
fn hash_str(value: &str, hasher: &mut DefaultHasher) {
    Hash::hash(value, hasher);
}

/// The id of an SSH source: `ssh_` and the sanitized alias, or `ssh_` and
/// the hexadecimal hash of the alias when nothing of it survives sanitizing.
pub fn source_id_for_alias(alias: &str) -> (r: String)
    ensures
        sanitized(alias@).len() > 0 ==> r@ == "ssh_"@ + sanitized(alias@),
        sanitized(alias@).len() == 0 ==> exists|h: u64| r@ == "ssh_"@ + hex_digits(h as nat),
{
    let sanitized_alias = sanitize_component(alias);
    let mut out = owned("ssh_");
    if sanitized_alias.as_str().is_empty() {
        let mut hasher = DefaultHasher::new();
        hash_str(alias, &mut hasher);
        let h = hasher.finish();
        let digits = u64_hex(h);
        let text = string_from_chars(&digits);
        append_str(&mut out, text.as_str());
        assert(out@ == "ssh_"@ + hex_digits(h as nat));
    } else {
        append_str(&mut out, sanitized_alias.as_str());
    }
    out
}

/// The id an SSH source gets when the user adds it: `ssh_` and the
/// sanitized alias.
pub fn codex_source_id(ssh_alias: &str) -> (r: String)
    ensures
        r@ == "ssh_"@ + sanitized(ssh_alias@),
{
    let s = sanitize_component(ssh_alias);
    let mut out = owned("ssh_");
    append_str(&mut out, s.as_str());
    out
}

/// The part of an SSH config line before a `#`.
pub fn strip_comment(line: &str) -> (r: String)
    ensures
        r@ == split_seq(line@, '#')[0],
{
    let v = chars_of(line);
    let parts = split_chars(&v, '#');
    proof {
        crate::text::lemma_split_nonempty(v@, '#');
    }
    string_from_chars(&parts[0])
}

// ---------------------------------------------------------------------------
// Paths
// ---------------------------------------------------------------------------

/// `base` with `child` joined on as a path component.
pub uninterp spec fn joined_path(base: Seq<char>, child: Seq<char>) -> Seq<char>;

/// Joins a path and a component with `std::path::Path::join` and reads the
/// result back with `to_string_lossy`, which loses nothing for text that
/// came from a `&str`. Claimed: the result depends on the two texts alone;
/// it is named `joined_path`.
#[verifier::external_body]
pub(crate) fn join_path(base: &str, child: &str) -> (r: String)
    ensures
        r@ == joined_path(base@, child@),
{
    std::path::Path::new(base).join(child).to_string_lossy().to_string()
}

/// Where the copy of a remote source's Codex home is kept: under
/// `codex-sources`, in a directory named by the sanitized source id, in
/// `codex-cache`.
pub fn source_cache_codex_home(app_data_dir: &str, source_id: &str) -> (r: String)
    ensures
        r@ == joined_path(
            joined_path(joined_path(app_data_dir@, "codex-sources"@), sanitized(source_id@)),
            "codex-cache"@,
        ),
{
    let sources = join_path(app_data_dir, "codex-sources");
    let id = sanitize_component(source_id);
    let dir = join_path(sources.as_str(), id.as_str());
    join_path(dir.as_str(), "codex-cache")
}

/// The user's home directory, from `dirs::home_dir`, as text. Nothing is
/// claimed of it: it comes from the environment.
#[verifier::external_body]
fn home_dir_text() -> (r: Option<String>) {
    match dirs::home_dir() {
        Some(p) => Some(p.to_string_lossy().to_string()),
        None => None,
    }
}

/// `~` and `~/...` with the `~` replaced by the home directory, where there
/// is one; anything else as it is.
pub open spec fn tilde_expanded(value: Seq<char>, home: Option<Seq<char>>) -> Seq<char> {
    if (value == "~"@ || starts_with(value, "~/"@)) && home is Some {
        home->0 + value.skip(1)
    } else {
        value
    }
}

/// Expands a leading `~` with the given home directory.
pub fn expand_tilde_with(value: &str, home: Option<&str>) -> (r: String)
    ensures
        r@ == tilde_expanded(value@, crate::importer::opt_str_view(home)),
{
    let v = chars_of(value);
    let at_home = chars_eq_str(&v, "~") || starts_with_chars(&v, &chars_of("~/"));
    proof {
        reveal_strlit("~");
        reveal_strlit("~/");
    }
    match home {
        Some(h) => {
            if at_home {
                let mut out = owned(h);
                let tail = crate::text::slice_chars(&v, 1, v.len());
                let tail_text = string_from_chars(&tail);
                append_str(&mut out, tail_text.as_str());
                assert(tail@ =~= value@.skip(1));
                out
            } else {
                owned(value)
            }
        },
        None => owned(value),
    }
}

/// Expands a leading `~` with the user's home directory.
pub fn expand_tilde(value: &str) -> (r: String)
    ensures
        exists|home: Option<Seq<char>>| r@ == tilde_expanded(value@, home),
{
    let home = home_dir_text();
    match home {
        Some(h) => {
            let r = expand_tilde_with(value, Some(h.as_str()));
            assert(r@ == tilde_expanded(value@, Some(h@)));
            r
        },
        None => {
            let r = expand_tilde_with(value, None);
            assert(r@ == tilde_expanded(value@, None));
            r
        },
    }
}

// ---------------------------------------------------------------------------
// Source records
// ---------------------------------------------------------------------------

/// The trimmed label, or where it is blank the trimmed fallback, cut to 80
/// characters.
pub open spec fn label_normalized(label: Seq<char>, fallback: Seq<char>) -> Seq<char> {
    if trim_seq(label).len() == 0 {
        take_seq(trim_seq(fallback), 80)
    } else {
        take_seq(trim_seq(label), 80)
    }
}

/// The label a source is stored with.
pub fn normalize_label(label: &str, fallback: &str) -> (r: String)
    ensures
        r@ == label_normalized(label@, fallback@),
{
    let trimmed = trim_str(label);
    if trimmed.len() == 0 {
        let f = trim_str(fallback);
        string_from_chars(&take_chars(&f, 80))
    } else {
        string_from_chars(&take_chars(&trimmed, 80))
    }
}

/// The trimmed remote Codex home cut to 500 characters, or `~/.codex` where
/// it is blank.
pub open spec fn remote_home_normalized(value: Seq<char>) -> Seq<char> {
    if trim_seq(value).len() == 0 {
        "~/.codex"@
    } else {
        take_seq(trim_seq(value), 500)
    }
}

/// The remote Codex home a source is stored with.
pub fn normalize_remote_codex_home(value: &str) -> (r: String)
    ensures
        r@ == remote_home_normalized(value@),
{
    let trimmed = trim_str(value);
    if trimmed.len() == 0 {
        proof {
            reveal_strlit("~/.codex");
        }
        owned("~/.codex")
    } else {
        string_from_chars(&take_chars(&trimmed, 500))
    }
}

/// An optional text trimmed, absent where it is blank.
pub open spec fn trimmed_or_none(value: Option<Seq<char>>) -> Option<Seq<char>> {
    match value {
        Some(v) => if trim_seq(v).len() == 0 {
            None
        } else {
            Some(trim_seq(v))
        },
        None => None,
    }
}

fn trimmed_or_none_exec(value: &Option<String>) -> (r: Option<String>)
    ensures
        opt_view(r) == trimmed_or_none(opt_view(*value)),
{
    match value {
        Some(v) => {
            let t = trim_str(v.as_str());
            if t.len() == 0 {
                None
            } else {
                Some(string_from_chars(&t))
            }
        },
        None => None,
    }
}

/// The values an SSH source is stored with.
#[derive(Debug, Clone)]
pub struct SshSourceFields {
    pub label: String,
    pub ssh_alias: String,
    pub host_name: Option<String>,
    pub user: Option<String>,
    pub port: Option<i64>,
    pub remote_codex_home: String,
    pub selected: i64,
}

/// What an SSH source entered by the user is stored as: its label
/// normalized (falling back to the alias), its alias, host name and user
/// trimmed (blank ones absent), its port, its remote home normalized, and its
/// selection as 0 or 1.
pub fn ssh_source_fields(input: &CodexSourceInput) -> (r: SshSourceFields)
    ensures
        r.label@ == label_normalized(input.label@, input.ssh_alias@),
        r.ssh_alias@ == trim_seq(input.ssh_alias@),
        opt_view(r.host_name) == trimmed_or_none(opt_view(input.host_name)),
        opt_view(r.user) == trimmed_or_none(opt_view(input.user)),
        r.port == input.port,
        r.remote_codex_home@ == remote_home_normalized(input.remote_codex_home@),
        r.selected == (if input.selected {
            1i64
        } else {
            0i64
        }),
{
    SshSourceFields {
        label: normalize_label(input.label.as_str(), input.ssh_alias.as_str()),
        ssh_alias: string_from_chars(&trim_str(input.ssh_alias.as_str())),
        host_name: trimmed_or_none_exec(&input.host_name),
        user: trimmed_or_none_exec(&input.user),
        port: input.port,
        remote_codex_home: normalize_remote_codex_home(input.remote_codex_home.as_str()),
        selected: crate::bool_to_i64(input.selected),
    }
}

// ---------------------------------------------------------------------------
// Syncing a remote source
// ---------------------------------------------------------------------------

/// What a sync of a remote source runs with.
#[derive(Debug, Clone)]
pub struct SourceSyncPlan {
    pub ssh_alias: String,
    pub remote_home: String,
    pub probe_command: String,
    pub rsync_path: String,
}

/// Why a source cannot be synced, or with what: only SSH sources with a
/// non-blank alias are; their remote home is `~/.codex` where it is blank.
pub fn source_sync_plan(source: &CodexSource) -> (r: Result<SourceSyncPlan, String>)
    ensures
        source.kind@ != "ssh"@ ==> (r matches Err(e) && e@ == "Only SSH sources can be downloaded."@),
        source.kind@ == "ssh"@ && (source.ssh_alias is None || trim_seq(source.ssh_alias->0@).len()
            == 0) ==> (r matches Err(e) && e@ == "SSH source is missing an alias."@),
        r matches Ok(plan) ==> {
            let home = match source.remote_codex_home {
                Some(h) => if trim_seq(h@).len() == 0 {
                    "~/.codex"@
                } else {
                    h@
                },
                None => "~/.codex"@,
            };
            &&& source.kind@ == "ssh"@
            &&& source.ssh_alias is Some
            &&& trim_seq(source.ssh_alias->0@).len() > 0
            &&& plan.ssh_alias@ == source.ssh_alias->0@
            &&& plan.remote_home@ == home
            &&& plan.probe_command@ == "cd "@ + remote_path(home)
                + " || exit 2; [ -f session_index.jsonl ] || [ -d sessions ] || [ -d archived_sessions ] || exit 3"@
            &&& plan.rsync_path@ == "cd "@ + remote_path(home) + " && rsync"@
        },
        r is Ok <==> (source.kind@ == "ssh"@ && source.ssh_alias is Some && trim_seq(
            source.ssh_alias->0@,
        ).len() > 0),
{
    if !str_is(source.kind.as_str(), "ssh") {
        proof {
            reveal_strlit("Only SSH sources can be downloaded.");
        }
        return Err("Only SSH sources can be downloaded.".to_owned());
    }
    let alias = match &source.ssh_alias {
        Some(a) => {
            if trim_str(a.as_str()).len() == 0 {
                None
            } else {
                Some(a)
            }
        },
        None => None,
    };
    let alias = match alias {
        Some(a) => a,
        None => {
            proof {
                reveal_strlit("SSH source is missing an alias.");
            }
            return Err("SSH source is missing an alias.".to_owned());
        },
    };
    let remote_home: String = match &source.remote_codex_home {
        Some(h) => if trim_str(h.as_str()).len() == 0 {
            owned("~/.codex")
        } else {
            h.clone()
        },
        None => owned("~/.codex"),
    };
    proof {
        reveal_strlit("~/.codex");
    }
    let probe_command = remote_probe_command(remote_home.as_str());
    let rsync_path = remote_rsync_path(remote_home.as_str());
    Ok(SourceSyncPlan { ssh_alias: alias.clone(), remote_home, probe_command, rsync_path })
}

fn str_is(a: &str, b: &str) -> (r: bool)
    ensures
        r == (a@ == b@),
{
    crate::text::str_eq(a, b)
}

/// The arguments of the `ssh` command that probes the remote Codex home.
pub fn ssh_probe_arguments(plan: &SourceSyncPlan) -> (r: Vec<String>)
    ensures
        crate::ssh_config::strings_view(r@) == seq![
            "-o"@,
            "BatchMode=yes"@,
            "-o"@,
            "ConnectTimeout=10"@,
            plan.ssh_alias@,
            plan.probe_command@,
        ],
{
    let mut r: Vec<String> = Vec::new();
    r.push(owned("-o"));
    r.push(owned("BatchMode=yes"));
    r.push(owned("-o"));
    r.push(owned("ConnectTimeout=10"));
    r.push(plan.ssh_alias.clone());
    r.push(plan.probe_command.clone());
    assert(crate::ssh_config::strings_view(r@) =~= seq![
        "-o"@,
        "BatchMode=yes"@,
        "-o"@,
        "ConnectTimeout=10"@,
        plan.ssh_alias@,
        plan.probe_command@,
    ]);
    r
}

/// The arguments of the `rsync` command that copies the session data of the
/// remote Codex home into `cache_dir`: the session index and the two session
/// directories, nothing else, deleting what is gone.
pub fn rsync_arguments(plan: &SourceSyncPlan, cache_dir: &str) -> (r: Vec<String>)
    ensures
        crate::ssh_config::strings_view(r@) == seq![
            "-az"@,
            "--delete"@,
            "--delete-excluded"@,
            "--delay-updates"@,
            "--rsync-path"@,
            plan.rsync_path@,
            "-e"@,
            "ssh -o BatchMode=yes -o ConnectTimeout=10"@,
            "--include=/session_index.jsonl"@,
            "--include=/sessions/"@,
            "--include=/sessions/**"@,
            "--include=/archived_sessions/"@,
            "--include=/archived_sessions/**"@,
            "--exclude=*"@,
            plan.ssh_alias@ + ":./"@,
            cache_dir@ + "/"@,
        ],
{
    let mut r: Vec<String> = Vec::new();
    r.push(owned("-az"));
    r.push(owned("--delete"));
    r.push(owned("--delete-excluded"));
    r.push(owned("--delay-updates"));
    r.push(owned("--rsync-path"));
    r.push(plan.rsync_path.clone());
    r.push(owned("-e"));
    r.push(owned("ssh -o BatchMode=yes -o ConnectTimeout=10"));
    r.push(owned("--include=/session_index.jsonl"));
    r.push(owned("--include=/sessions/"));
    r.push(owned("--include=/sessions/**"));
    r.push(owned("--include=/archived_sessions/"));
    r.push(owned("--include=/archived_sessions/**"));
    r.push(owned("--exclude=*"));
    let mut remote = plan.ssh_alias.clone();
    append_str(&mut remote, ":./");
    r.push(remote);
    let mut local = owned(cache_dir);
    append_str(&mut local, "/");
    r.push(local);
    assert(crate::ssh_config::strings_view(r@) =~= seq![
        "-az"@,
        "--delete"@,
        "--delete-excluded"@,
        "--delay-updates"@,
        "--rsync-path"@,
        plan.rsync_path@,
        "-e"@,
        "ssh -o BatchMode=yes -o ConnectTimeout=10"@,
        "--include=/session_index.jsonl"@,
        "--include=/sessions/"@,
        "--include=/sessions/**"@,
        "--include=/archived_sessions/"@,
        "--include=/archived_sessions/**"@,
        "--exclude=*"@,
        plan.ssh_alias@ + ":./"@,
        cache_dir@ + "/"@,
    ]);
    r
}

// ---------------------------------------------------------------------------
// Laws
// ---------------------------------------------------------------------------

/// A character a sanitized value can hold: a lower-case ASCII letter, a
/// digit, or `_`.
pub open spec fn sanitized_char(c: char) -> bool {
    c == '_' || (is_alnum_ascii(c) && lower_char(c) == c)
}

proof fn lemma_sanitized_chars(value: Seq<char>)
    ensures
        forall|i: int| 0 <= i < sanitized(value).len() ==> sanitized_char(#[trigger] sanitized(value)[i]),
        forall|k: int|
            0 <= k < id_parts(value).len() ==> !(#[trigger] id_parts(value)[k]).contains('_')
                && id_parts(value)[k].len() > 0,
{
    let mapped = id_chars(value);
    let pieces = split_seq(mapped, '_');
    let parts = id_parts(value);
    let clean = |c: char| is_alnum_ascii(c) && lower_char(c) == c;
    assert forall|j: int| 0 <= j < mapped.len() && mapped[j] != '_' implies clean(#[trigger] mapped[j]) by {
        let c = value[j];
        if crate::text::is_upper_ascii(c) {
            assert(((c as u32) + 32) as char as u32 == (c as u32) + 32);
        }
    }
    crate::text::lemma_split_pieces_chars(mapped, '_', clean);
    crate::text::lemma_nonempty_parts_from(pieces);
    assert forall|k: int, i: int| 0 <= k < parts.len() && 0 <= i < parts[k].len() implies sanitized_char(
        #[trigger] parts[k][i],
    ) by {
        let j = choose|j: int| 0 <= j < pieces.len() && pieces[j] == parts[k];
        assert(clean(pieces[j][i]));
    }
    reveal_strlit("_");
    crate::text::lemma_join_chars(parts, "_"@, |c: char| sanitized_char(c));
    assert forall|k: int| 0 <= k < parts.len() implies !(#[trigger] parts[k]).contains('_') by {
        assert(parts[k].len() > 0);
        let j = choose|j: int| 0 <= j < pieces.len() && pieces[j] == parts[k];
        crate::text::lemma_split_nonempty(mapped, '_');
        crate::text::lemma_piece_lacks_sep(mapped, '_', j);
    }
}

/// Sanitizing a sanitized value changes nothing: ids and cache directories
/// made from it stay the same.
pub proof fn law_sanitize_is_stable(value: Seq<char>)
    ensures
        sanitized(sanitized(value)) == sanitized(value),
        forall|i: int| 0 <= i < sanitized(value).len() ==> sanitized_char(#[trigger] sanitized(value)[i]),
{
    lemma_sanitized_chars(value);
    let parts = id_parts(value);
    let s = sanitized(value);
    reveal_strlit("_");
    assert("_"@ =~= seq!['_']);
    let remapped = id_chars(s);
    assert forall|i: int| 0 <= i < s.len() implies #[trigger] remapped[i] == s[i] by {
        assert(sanitized_char(s[i]));
    }
    assert(remapped =~= s);
    if parts.len() == 0 {
        assert(s =~= Seq::<char>::empty());
        let one = seq![Seq::<char>::empty()];
        assert(split_seq(s, '_') =~= one);
        assert(one.last().len() == 0);
        assert(one.drop_last() =~= Seq::<Seq<char>>::empty());
        assert(nonempty_parts(one) == nonempty_parts(one.drop_last()));
    } else {
        crate::text::lemma_split_join(parts, '_');
        crate::text::lemma_nonempty_parts_from(parts);
    }
}

/// The id a source gets when it is added by hand is the id the same host
/// gets when it is found in the SSH configuration, wherever its alias has
/// something left after sanitizing.
pub proof fn law_added_and_discovered_ids_agree(alias: Seq<char>)
    requires
        sanitized(alias).len() > 0,
    ensures
        crate::ssh_config::id_for_alias("ssh_"@ + sanitized(alias), alias),
{
}


/// Law: a host logged into as the user `git`, in any case, is a Git server
/// and is never offered: unless its alias is a pattern, it is ignored as a
/// code host, whatever its alias and host name. A pattern alias is always
/// ignored as a pattern, and every reason is one of the two.
pub proof fn law_git_user_hosts_are_code_hosts(
    alias: Seq<char>,
    host_name: Option<Seq<char>>,
    user: Seq<char>,
)
    ensures
        !(alias.contains('*') || alias.contains('?') || (alias.len() > 0 && alias[0] == '!'))
            && lower_seq(user) == "git"@ ==> ignored_reason(alias, host_name, Some(user)) == Some(
            "code-host"@,
        ),
        (alias.contains('*') || alias.contains('?') || (alias.len() > 0 && alias[0] == '!'))
            ==> ignored_reason(alias, host_name, Some(user)) == Some("pattern"@),
        ignored_reason(alias, host_name, Some(user)) is None || ignored_reason(
            alias,
            host_name,
            Some(user),
        ) == Some("pattern"@) || ignored_reason(alias, host_name, Some(user)) == Some(
            "code-host"@,
        ),
{
}

} // verus!
