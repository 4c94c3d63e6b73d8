//! The records that the importer, the settings store and the menu bar share.
use vstd::prelude::*;

verus! {

/// Cumulative token counters, as a session log reports them.
#[derive(Debug, Clone, Copy, PartialEq, Eq, Structural, Default)]
pub struct TokenUsage {
    pub input_tokens: i64,
    pub cached_input_tokens: i64,
    pub output_tokens: i64,
    pub reasoning_output_tokens: i64,
    pub total_tokens: i64,
}

/// One imported session, before it is written to the database.
#[derive(Debug, Clone)]
pub struct RawSession {
    pub session_id: String,
    pub parent_session_id: Option<String>,
    pub root_session_id: String,
    pub title: Option<String>,
    pub source_state: String,
    pub source_path: Option<String>,
    pub started_at: Option<String>,
    pub updated_at: Option<String>,
    pub model_ids: Vec<String>,
    pub contains_subagents: bool,
    pub agent_nickname: Option<String>,
    pub agent_role: Option<String>,
}

/// A cumulative usage reading taken from one `token_count` event.
#[derive(Debug, Clone)]
pub struct UsageSnapshot {
    pub timestamp: String,
    pub model_id: String,
    pub usage: TokenUsage,
    pub plan_type: Option<String>,
    pub limit_id: Option<String>,
    pub limit_name: Option<String>,
    pub explicit_fast_mode: Option<bool>,
}

/// The user's synchronisation and menu bar preferences.
#[derive(Debug, Clone)]
pub struct SyncSettings {
    pub codex_home: Option<String>,
    pub auto_scan_enabled: bool,
    pub auto_scan_interval_minutes: i64,
    pub remote_auto_update_enabled: bool,
    pub remote_auto_update_interval_minutes: i64,
    pub live_quota_refresh_interval_seconds: i64,
    pub hide_dock_icon_when_menu_bar_visible: bool,
    pub show_menu_bar_logo: bool,
    pub show_menu_bar_daily_api_value: bool,
    pub show_menu_bar_live_quota_percent: bool,
    pub menu_bar_live_quota_metric: String,
    pub menu_bar_live_quota_bucket: String,
    pub menu_bar_bucket: String,
    pub menu_bar_speed_show_emoji: bool,
    pub menu_bar_speed_fast_threshold_percent: i64,
    pub menu_bar_speed_slow_threshold_percent: i64,
    pub menu_bar_speed_healthy_emoji: String,
    pub menu_bar_speed_fast_emoji: String,
    pub menu_bar_speed_slow_emoji: String,
    pub menu_bar_popup_enabled: bool,
    pub menu_bar_popup_modules: Vec<String>,
    pub menu_bar_popup_show_reset_timeline: bool,
    pub menu_bar_popup_show_actions: bool,
    pub last_scan_started_at: Option<String>,
    pub last_scan_completed_at: Option<String>,
    pub updated_at: String,
}

impl Default for SyncSettings {
    fn default() -> (r: Self)
        ensures
            r.codex_home is None,
            r.auto_scan_enabled,
            r.auto_scan_interval_minutes == 5,
            !r.remote_auto_update_enabled,
            r.remote_auto_update_interval_minutes == 30,
            r.live_quota_refresh_interval_seconds == 300,
            !r.hide_dock_icon_when_menu_bar_visible,
            r.show_menu_bar_logo,
            r.show_menu_bar_daily_api_value,
            !r.show_menu_bar_live_quota_percent,
            r.menu_bar_live_quota_metric@ == "remaining_percent"@,
            r.menu_bar_live_quota_bucket@ == "five_hour"@,
            r.menu_bar_bucket@ == "day"@,
            r.menu_bar_speed_show_emoji,
            r.menu_bar_speed_fast_threshold_percent == 85,
            r.menu_bar_speed_slow_threshold_percent == 115,
            r.menu_bar_speed_healthy_emoji@ == "🟢"@,
            r.menu_bar_speed_fast_emoji@ == "🔥"@,
            r.menu_bar_speed_slow_emoji@ == "🐢"@,
            r.menu_bar_popup_enabled,
            r.menu_bar_popup_modules@.len() == 2,
            r.menu_bar_popup_modules@[0]@ == "api_value"@,
            r.menu_bar_popup_modules@[1]@ == "scan_freshness"@,
            r.menu_bar_popup_show_reset_timeline,
            r.menu_bar_popup_show_actions,
            r.last_scan_started_at is None,
            r.last_scan_completed_at is None,
            r.updated_at@ == Seq::<char>::empty(),
    {
        let mut modules: Vec<String> = Vec::new();
        modules.push("api_value".to_owned());
        modules.push("scan_freshness".to_owned());
        SyncSettings {
            codex_home: None,
            auto_scan_enabled: true,
            auto_scan_interval_minutes: 5,
            remote_auto_update_enabled: false,
            remote_auto_update_interval_minutes: 30,
            live_quota_refresh_interval_seconds: 300,
            hide_dock_icon_when_menu_bar_visible: false,
            show_menu_bar_logo: true,
            show_menu_bar_daily_api_value: true,
            show_menu_bar_live_quota_percent: false,
            menu_bar_live_quota_metric: "remaining_percent".to_owned(),
            menu_bar_live_quota_bucket: "five_hour".to_owned(),
            menu_bar_bucket: "day".to_owned(),
            menu_bar_speed_show_emoji: true,
            menu_bar_speed_fast_threshold_percent: 85,
            menu_bar_speed_slow_threshold_percent: 115,
            menu_bar_speed_healthy_emoji: "🟢".to_owned(),
            menu_bar_speed_fast_emoji: "🔥".to_owned(),
            menu_bar_speed_slow_emoji: "🐢".to_owned(),
            menu_bar_popup_enabled: true,
            menu_bar_popup_modules: modules,
            menu_bar_popup_show_reset_timeline: true,
            menu_bar_popup_show_actions: true,
            last_scan_started_at: None,
            last_scan_completed_at: None,
            updated_at: String::new(),
        }
    }
}

/// A place Codex usage is read from: this machine or an SSH host.
#[derive(Debug, Clone)]
pub struct CodexSource {
    pub id: String,
    pub kind: String,
    pub label: String,
    pub ssh_alias: Option<String>,
    pub host_name: Option<String>,
    pub user: Option<String>,
    pub port: Option<i64>,
    pub remote_codex_home: Option<String>,
    pub local_codex_home: Option<String>,
    pub selected: bool,
    pub display_selected: bool,
    pub update_selected: bool,
    pub status: String,
    pub last_discovered_at: Option<String>,
    pub last_downloaded_at: Option<String>,
    pub last_scanned_at: Option<String>,
    pub last_error: Option<String>,
    pub created_at: String,
    pub updated_at: String,
}

/// An SSH host offered as a possible source.
#[derive(Debug, Clone)]
pub struct CodexSourceCandidate {
    pub id: String,
    pub label: String,
    pub ssh_alias: String,
    pub host_name: Option<String>,
    pub user: Option<String>,
    pub port: Option<i64>,
    pub remote_codex_home: String,
    pub ignored_reason: Option<String>,
}

/// What the user submits to add or edit an SSH source.
#[derive(Debug, Clone)]
pub struct CodexSourceInput {
    pub label: String,
    pub ssh_alias: String,
    pub host_name: Option<String>,
    pub user: Option<String>,
    pub port: Option<i64>,
    pub remote_codex_home: String,
    pub selected: bool,
}

/// The outcome of one scan.
#[derive(Debug, Clone)]
pub struct ScanResult {
    pub codex_home: String,
    pub scanned_files: usize,
    pub imported_sessions: usize,
    pub updated_sessions: usize,
    pub missing_sessions: usize,
    pub last_completed_at: String,
}

/// A source after its cache was downloaded and imported.
#[derive(Debug, Clone)]
pub struct CodexSourceDownloadResult {
    pub source: CodexSource,
    pub scan_result: ScanResult,
}

/// One source that could not be downloaded in a batch.
#[derive(Debug, Clone)]
pub struct CodexSourceDownloadFailure {
    pub source_id: String,
    pub error: String,
}

/// The outcome of downloading several sources.
#[derive(Debug, Clone)]
pub struct CodexSourceBatchDownloadResult {
    pub results: Vec<CodexSourceDownloadResult>,
    pub failures: Vec<CodexSourceDownloadFailure>,
}

/// The signed-in Codex account, as far as it is known.
#[derive(Debug, Clone)]
pub struct CodexAccountStatus {
    pub available: bool,
    pub requires_openai_auth: bool,
    pub auth_mode: Option<String>,
    pub account_type: Option<String>,
    pub email: Option<String>,
    pub plan_type: Option<String>,
    pub error: Option<String>,
    pub fetched_at: String,
}

impl CodexAccountStatus {
    /// The status reported when the account could not be queried.
    pub fn unavailable(error: String, fetched_at: String) -> (r: Self)
        ensures
            !r.available,
            !r.requires_openai_auth,
            r.auth_mode is None,
            r.account_type is None,
            r.email is None,
            r.plan_type is None,
            r.error == Some(error),
            r.fetched_at == fetched_at,
    {
        CodexAccountStatus {
            available: false,
            requires_openai_auth: false,
            auth_mode: None,
            account_type: None,
            email: None,
            plan_type: None,
            error: Some(error),
            fetched_at,
        }
    }
}

/// The dashboard's filters.
#[derive(Debug, Clone, Default)]
pub struct ConversationFilters {
    pub bucket: Option<String>,
    pub anchor: Option<String>,
    pub custom_start: Option<String>,
    pub custom_end: Option<String>,
    pub search: Option<String>,
    pub live_window_offset: Option<i64>,
    pub source_ids: Option<Vec<String>>,
}

/// One observation of a rate-limit window.
#[derive(Debug, Clone)]
pub struct RateLimitSampleRecord {
    pub source_kind: String,
    pub source_session_id: Option<String>,
    pub bucket: String,
    pub sample_timestamp: String,
    pub limit_id: Option<String>,
    pub limit_name: Option<String>,
    pub plan_type: Option<String>,
    pub window_start: String,
    pub resets_at: String,
    pub used_percent: i64,
    pub remaining_percent: i64,
}

/// Credits attached to a rate-limit reading.
#[derive(Debug, Clone)]
pub struct RateLimitCreditsSnapshot {
    pub has_credits: Option<bool>,
    pub unlimited: Option<bool>,
    pub balance: Option<String>,
}

/// The account-level part of a rate-limit reading.
#[derive(Debug, Clone)]
pub struct RateLimitMetadataSampleRecord {
    pub source_kind: String,
    pub source_session_id: Option<String>,
    pub sample_timestamp: String,
    pub limit_id: Option<String>,
    pub limit_name: Option<String>,
    pub plan_type: Option<String>,
    pub credits: Option<RateLimitCreditsSnapshot>,
    pub rate_limit_reached_type: Option<String>,
    pub raw_rate_limits_json: Option<String>,
}

/// One rate-limit window as shown to the user.
#[derive(Debug, Clone)]
pub struct RateLimitWindowSnapshot {
    pub used_percent: i64,
    pub remaining_percent: i64,
    pub window_duration_mins: Option<i64>,
    pub resets_at: Option<String>,
    pub window_start: Option<String>,
}

/// The latest known state of both rate-limit windows.
#[derive(Debug, Clone)]
pub struct LiveRateLimitSnapshot {
    pub limit_id: Option<String>,
    pub limit_name: Option<String>,
    pub plan_type: Option<String>,
    pub credits: Option<RateLimitCreditsSnapshot>,
    pub rate_limit_reached_type: Option<String>,
    pub primary: Option<RateLimitWindowSnapshot>,
    pub secondary: Option<RateLimitWindowSnapshot>,
    pub fetched_at: String,
}

/// A quota window as the menu bar popup shows it.
#[derive(Debug, Clone)]
pub struct MenuBarPopupQuotaSnapshot {
    pub used_percent: i64,
    pub remaining_percent: i64,
    pub window_duration_mins: Option<i64>,
    pub resets_at: Option<String>,
    pub window_start: Option<String>,
}

/// An owned copy of an optional string.
pub fn copy_opt_string(value: &Option<String>) -> (r: Option<String>)
    ensures
        r == *value,
{
    match value {
        Some(text) => Some(text.clone()),
        None => None,
    }
}

/// An owned copy of optional credits.
pub fn copy_credits(value: &Option<RateLimitCreditsSnapshot>) -> (r: Option<RateLimitCreditsSnapshot>)
    ensures
        r == *value,
{
    match value {
        Some(c) => Some(
            RateLimitCreditsSnapshot {
                has_credits: c.has_credits,
                unlimited: c.unlimited,
                balance: copy_opt_string(&c.balance),
            },
        ),
        None => None,
    }
}

/// An owned copy of a rate-limit window.
pub fn copy_window(w: &RateLimitWindowSnapshot) -> (r: RateLimitWindowSnapshot)
    ensures
        r == *w,
{
    RateLimitWindowSnapshot {
        used_percent: w.used_percent,
        remaining_percent: w.remaining_percent,
        window_duration_mins: w.window_duration_mins,
        resets_at: copy_opt_string(&w.resets_at),
        window_start: copy_opt_string(&w.window_start),
    }
}

} // verus!
