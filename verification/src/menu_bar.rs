//! What the menu bar shows: which buckets and metrics are valid, the title
//! and tooltip texts, and when the Dock icon hides.
use vstd::prelude::*;

use crate::importer::{opt_str_view, opt_view};
use crate::models::{
    copy_opt_string, LiveRateLimitSnapshot, MenuBarPopupQuotaSnapshot, RateLimitWindowSnapshot,
    SyncSettings,
};
use crate::text::{
    append_str, chars_eq_str, chars_of, i64_text, int_text, owned, str_eq, string_from_chars,
    take_chars, take_seq, trim_seq, trim_str,
};

verus! {

/// The menu bar shows something: the logo, the API value or a live metric.
pub open spec fn has_visible_content(s: SyncSettings) -> bool {
    s.show_menu_bar_logo || s.show_menu_bar_daily_api_value || s.show_menu_bar_live_quota_percent
}

pub fn menu_bar_has_visible_content(settings: &SyncSettings) -> (r: bool)
    ensures
        r == has_visible_content(*settings),
{
    settings.show_menu_bar_logo || settings.show_menu_bar_daily_api_value
        || settings.show_menu_bar_live_quota_percent
}

/// The Dock icon hides only when the user asked for it and the menu bar
/// has something to show.
pub fn should_hide_dock_icon(settings: &SyncSettings) -> (r: bool)
    ensures
        r == (settings.hide_dock_icon_when_menu_bar_visible && has_visible_content(*settings)),
{
    settings.hide_dock_icon_when_menu_bar_visible && menu_bar_has_visible_content(settings)
}

/// The title segments that have something besides whitespace, joined by one
/// space; `None` when there are none.
pub open spec fn title_text(api: Option<Seq<char>>, live: Option<Seq<char>>) -> Option<Seq<char>> {
    let a = match api {
        Some(v) => if trim_seq(v).len() > 0 { Some(v) } else { None },
        None => None,
    };
    let l = match live {
        Some(v) => if trim_seq(v).len() > 0 { Some(v) } else { None },
        None => None,
    };
    match (a, l) {
        (Some(x), Some(y)) => Some(x + " "@ + y),
        (Some(x), None) => Some(x),
        (None, Some(y)) => Some(y),
        (None, None) => None,
    }
}

fn visible_segment(v: Option<&str>) -> (r: Option<&str>)
    ensures
        opt_str_view(r) == match opt_str_view(v) {
            Some(x) => if trim_seq(x).len() > 0 { Some(x) } else { None },
            None => None,
        },
{
    match v {
        Some(x) => {
            let t = trim_str(x);
            if t.len() > 0 {
                Some(x)
            } else {
                None
            }
        },
        None => None,
    }
}

/// The menu bar title from its API-value and live-metric segments.
pub fn menu_bar_title(api_value_title: Option<&str>, live_metric_title: Option<&str>) -> (r: Option<String>)
    ensures
        opt_view(r) == title_text(opt_str_view(api_value_title), opt_str_view(live_metric_title)),
{
    let a = visible_segment(api_value_title);
    let l = visible_segment(live_metric_title);
    match (a, l) {
        (Some(x), Some(y)) => {
            let mut out = owned(x);
            append_str(&mut out, " ");
            append_str(&mut out, y);
            Some(out)
        },
        (Some(x), None) => Some(owned(x)),
        (None, Some(y)) => Some(owned(y)),
        (None, None) => None,
    }
}

/// The buckets the menu bar can total over.
pub open spec fn is_menu_bar_bucket(b: Seq<char>) -> bool {
    b == "day"@ || b == "week"@ || b == "five_hour"@ || b == "seven_day"@ || b == "month"@ || b
        == "year"@ || b == "total"@
}

pub open spec fn menu_bar_bucket_of(b: Seq<char>) -> Seq<char> {
    if is_menu_bar_bucket(b) {
        b
    } else {
        "day"@
    }
}

/// A valid menu bar bucket: the given one, or `day`.
pub fn normalize_menu_bar_bucket(bucket: &str) -> (r: String)
    ensures
        r@ == menu_bar_bucket_of(bucket@),
{
    if str_eq(bucket, "day") || str_eq(bucket, "week") || str_eq(bucket, "five_hour") || str_eq(
        bucket,
        "seven_day",
    ) || str_eq(bucket, "month") || str_eq(bucket, "year") || str_eq(bucket, "total") {
        owned(bucket)
    } else {
        "day".to_owned()
    }
}

pub open spec fn live_quota_bucket_of(b: Seq<char>) -> Seq<char> {
    if b == "five_hour"@ || b == "seven_day"@ {
        b
    } else {
        "five_hour"@
    }
}

/// A valid live-quota window: the given one, or `five_hour`.
pub fn normalize_menu_bar_live_quota_bucket(bucket: &str) -> (r: String)
    ensures
        r@ == live_quota_bucket_of(bucket@),
{
    if str_eq(bucket, "five_hour") || str_eq(bucket, "seven_day") {
        owned(bucket)
    } else {
        "five_hour".to_owned()
    }
}

pub open spec fn live_quota_metric_of(m: Seq<char>) -> Seq<char> {
    if m == "remaining_percent"@ || m == "used_percent"@ || m == "suggested_usage_speed"@ {
        m
    } else {
        "remaining_percent"@
    }
}

/// A valid live-quota metric: the given one, or `remaining_percent`.
pub fn normalize_menu_bar_live_quota_metric(metric: &str) -> (r: String)
    ensures
        r@ == live_quota_metric_of(metric@),
{
    if str_eq(metric, "remaining_percent") || str_eq(metric, "used_percent") || str_eq(
        metric,
        "suggested_usage_speed",
    ) {
        owned(metric)
    } else {
        "remaining_percent".to_owned()
    }
}

pub open spec fn speed_emoji_of(value: Seq<char>, fallback: Seq<char>) -> Seq<char> {
    let t = trim_seq(value);
    if t.len() == 0 {
        fallback
    } else {
        take_seq(t, 4)
    }
}

/// A pace emoji: the trimmed value cut to four characters, or the fallback
/// when nothing is left.
pub fn normalize_menu_bar_speed_emoji(value: &str, fallback: &str) -> (r: String)
    ensures
        r@ == speed_emoji_of(value@, fallback@),
{
    let t = trim_str(value);
    if t.len() == 0 {
        owned(fallback)
    } else {
        let cut = take_chars(&t, 4);
        string_from_chars(&cut)
    }
}

/// The popup modules the menu bar knows.
pub open spec fn is_popup_module(m: Seq<char>) -> bool {
    m == "api_value"@ || m == "token_count"@ || m == "scan_freshness"@ || m
        == "live_quota_freshness"@ || m == "payoff_ratio"@ || m == "conversation_count"@
}

/// Whether the menu bar knows a popup module.
pub fn is_supported_menu_bar_popup_module(module: &str) -> (r: bool)
    ensures
        r == is_popup_module(module@),
{
    str_eq(module, "api_value") || str_eq(module, "token_count") || str_eq(module, "scan_freshness")
        || str_eq(module, "live_quota_freshness") || str_eq(module, "payoff_ratio") || str_eq(
        module,
        "conversation_count",
    )
}

/// The known modules of `modules`, each once, in the order of their first
/// occurrence.
pub open spec fn popup_modules_of(modules: Seq<Seq<char>>) -> Seq<Seq<char>>
    decreases modules.len(),
{
    if modules.len() == 0 {
        modules
    } else {
        let before = popup_modules_of(modules.drop_last());
        let m = modules.last();
        if is_popup_module(m) && !before.contains(m) {
            before.push(m)
        } else {
            before
        }
    }
}

/// The known popup modules, without repeats.
pub fn normalize_menu_bar_popup_modules(modules: &Vec<String>) -> (r: Vec<String>)
    ensures
        r@.map_values(|s: String| s@) == popup_modules_of(modules@.map_values(|s: String| s@)),
{
    let ghost mv = modules@.map_values(|s: String| s@);
    let mut out: Vec<String> = Vec::new();
    let mut i: usize = 0;
    while i < modules.len()
        invariant
            i <= modules.len(),
            mv == modules@.map_values(|s: String| s@),
            out@.map_values(|s: String| s@) == popup_modules_of(mv.take(i as int)),
        decreases modules.len() - i,
    {
        assert(mv.take(i as int + 1).drop_last() =~= mv.take(i as int));
        assert(mv.take(i as int + 1).last() == modules@[i as int]@);
        if is_supported_menu_bar_popup_module(modules[i].as_str()) {
            crate::session_log::insert_model_exec(&mut out, modules[i].clone());
        }
        i += 1;
    }
    assert(mv.take(modules.len() as int) =~= mv);
    out
}

/// How a bucket is named in the tooltip.
pub open spec fn bucket_label(bucket: Seq<char>) -> Seq<char> {
    if bucket == "week"@ { "本周"@ }
    else if bucket == "five_hour"@ { "近 5 小时"@ }
    else if bucket == "seven_day"@ { "近 7 天"@ }
    else if bucket == "month"@ { "本月"@ }
    else if bucket == "year"@ { "本年"@ }
    else if bucket == "total"@ { "总计"@ }
    else { "今日"@ }
}

pub fn menu_bar_bucket_label(bucket: &str) -> (r: &'static str)
    ensures
        r@ == bucket_label(bucket@),
{
    if str_eq(bucket, "week") { "本周" }
    else if str_eq(bucket, "five_hour") { "近 5 小时" }
    else if str_eq(bucket, "seven_day") { "近 7 天" }
    else if str_eq(bucket, "month") { "本月" }
    else if str_eq(bucket, "year") { "本年" }
    else if str_eq(bucket, "total") { "总计" }
    else { "今日" }
}

/// The buckets whose totals follow the live rate-limit windows.
pub fn bucket_uses_live_rate_limits(bucket: &str) -> (r: bool)
    ensures
        r == (bucket@ == "five_hour"@ || bucket@ == "seven_day"@),
{
    str_eq(bucket, "five_hour") || str_eq(bucket, "seven_day")
}

/// Whether a view needs the live rate limits: it names a bucket that
/// follows them, and looks at the current window, not an earlier one.
pub fn live_rate_limits_wanted(bucket: Option<&str>, live_window_offset: Option<i64>) -> (r: bool)
    ensures
        r == (bucket matches Some(b) && (b@ == "five_hour"@ || b@ == "seven_day"@) && match live_window_offset {
            Some(o) => o <= 0,
            None => true,
        }),
{
    match bucket {
        None => false,
        Some(b) => {
            if !bucket_uses_live_rate_limits(b) {
                return false;
            }
            match live_window_offset {
                Some(o) => o <= 0,
                None => true,
            }
        },
    }
}

/// Whether the menu bar title needs the live rate limits: it shows a live
/// metric, or an API value over a bucket that follows them.
pub fn menu_bar_needs_live_rate_limits(settings: &SyncSettings, bucket: &str) -> (r: bool)
    ensures
        r == (settings.show_menu_bar_live_quota_percent || (settings.show_menu_bar_daily_api_value
            && (bucket@ == "five_hour"@ || bucket@ == "seven_day"@))),
{
    settings.show_menu_bar_live_quota_percent || (settings.show_menu_bar_daily_api_value
        && bucket_uses_live_rate_limits(bucket))
}

/// The buckets that are anchored at a calendar date.
pub fn bucket_uses_anchor(bucket: &str) -> (r: bool)
    ensures
        r == !(bucket@ == "total"@ || bucket@ == "five_hour"@ || bucket@ == "seven_day"@),
{
    !(str_eq(bucket, "total") || str_eq(bucket, "five_hour") || str_eq(bucket, "seven_day"))
}

/// The live window the menu bar follows, with its short label.
pub fn selected_menu_bar_live_quota_window<'a>(
    snapshot: &'a LiveRateLimitSnapshot,
    bucket: &str,
) -> (r: Option<(&'static str, &'a RateLimitWindowSnapshot)>)
    ensures
        live_quota_bucket_of(bucket@) == "seven_day"@ ==> match r {
            Some((label, w)) => label@ == "7天"@ && snapshot.secondary == Some(*w),
            None => snapshot.secondary is None,
        },
        live_quota_bucket_of(bucket@) != "seven_day"@ ==> match r {
            Some((label, w)) => label@ == "5小时"@ && snapshot.primary == Some(*w),
            None => snapshot.primary is None,
        },
{
    let normalized = normalize_menu_bar_live_quota_bucket(bucket);
    if str_eq(normalized.as_str(), "seven_day") {
        match &snapshot.secondary {
            Some(w) => Some(("7天", w)),
            None => None,
        }
    } else {
        match &snapshot.primary {
            Some(w) => Some(("5小时", w)),
            None => None,
        }
    }
}

/// The short label of a live metric, such as `7d Rest`.
pub open spec fn status_label(bucket: Seq<char>, metric: Seq<char>) -> Seq<char> {
    let prefix = if live_quota_bucket_of(bucket) == "seven_day"@ {
        "7d"@
    } else {
        "5h"@
    };
    let m = live_quota_metric_of(metric);
    let suffix = if m == "used_percent"@ {
        "Cost"@
    } else if m == "suggested_usage_speed"@ {
        "Pace"@
    } else {
        "Rest"@
    };
    prefix + " "@ + suffix
}

pub fn menu_bar_live_quota_status_label(bucket: &str, metric: &str) -> (r: String)
    ensures
        r@ == status_label(bucket@, metric@),
{
    let b = normalize_menu_bar_live_quota_bucket(bucket);
    let m = normalize_menu_bar_live_quota_metric(metric);
    let mut out = if str_eq(b.as_str(), "seven_day") {
        owned("7d")
    } else {
        owned("5h")
    };
    append_str(&mut out, " ");
    if str_eq(m.as_str(), "used_percent") {
        append_str(&mut out, "Cost");
    } else if str_eq(m.as_str(), "suggested_usage_speed") {
        append_str(&mut out, "Pace");
    } else {
        append_str(&mut out, "Rest");
    }
    out
}

pub open spec fn clamp_0_100(v: i64) -> int {
    if v < 0 {
        0
    } else if v > 100 {
        100
    } else {
        v as int
    }
}

fn clamp_0_100_exec(v: i64) -> (r: i64)
    ensures
        r == clamp_0_100(v),
{
    if v < 0 {
        0
    } else if v > 100 {
        100
    } else {
        v
    }
}

/// A percentage as the menu bar writes it, such as `42%`.
pub open spec fn percent_text(v: i64) -> Seq<char> {
    int_text(clamp_0_100(v)) + "%"@
}

fn percent_text_exec(v: i64) -> (r: String)
    ensures
        r@ == percent_text(v),
{
    let mut out = i64_text(clamp_0_100_exec(v));
    append_str(&mut out, "%");
    out
}

/// The pace shown for a window: the emoji, a space and the value, or only
/// the value when there is no emoji.
pub open spec fn pace_text(emoji: Seq<char>, display_value: Seq<char>) -> Seq<char> {
    if emoji.len() == 0 {
        display_value
    } else {
        emoji + " "@ + display_value
    }
}

pub fn rendered_pace(emoji: &str, display_value: &str) -> (r: String)
    ensures
        r@ == pace_text(emoji@, display_value@),
{
    if emoji.is_empty() {
        owned(display_value)
    } else {
        let mut out = owned(emoji);
        append_str(&mut out, " ");
        append_str(&mut out, display_value);
        out
    }
}

/// The live metric of the menu bar: its label and its value. `pace` is the
/// rendered pace of the selected window, when one could be computed.
pub open spec fn live_title(
    snapshot: LiveRateLimitSnapshot,
    bucket: Seq<char>,
    metric: Seq<char>,
    pace: Option<Seq<char>>,
) -> Option<(Seq<char>, Seq<char>)> {
    let b = live_quota_bucket_of(bucket);
    let w = if b == "seven_day"@ {
        snapshot.secondary
    } else {
        snapshot.primary
    };
    let m = live_quota_metric_of(metric);
    match w {
        None => None,
        Some(w) => if m == "used_percent"@ {
            Some((status_label(b, "used_percent"@), percent_text(w.used_percent)))
        } else if m == "suggested_usage_speed"@ {
            match pace {
                Some(p) => Some((status_label(b, "suggested_usage_speed"@), p)),
                None => None,
            }
        } else {
            Some((status_label(b, "remaining_percent"@), percent_text(w.remaining_percent)))
        },
    }
}

/// The live metric of the menu bar, as a label and a value.
pub fn menu_bar_live_quota_title(
    snapshot: &LiveRateLimitSnapshot,
    bucket: &str,
    metric: &str,
    pace: Option<&str>,
) -> (r: Option<(String, String)>)
    ensures
        match r {
            Some((label, value)) => live_title(*snapshot, bucket@, metric@, opt_str_view(pace))
                == Some((label@, value@)),
            None => live_title(*snapshot, bucket@, metric@, opt_str_view(pace)) is None,
        },
{
    let window = match selected_menu_bar_live_quota_window(snapshot, bucket) {
        Some((_, w)) => w,
        None => {
            return None;
        },
    };
    let b = normalize_menu_bar_live_quota_bucket(bucket);
    let m = normalize_menu_bar_live_quota_metric(metric);
    if str_eq(m.as_str(), "used_percent") {
        Some(
            (
                menu_bar_live_quota_status_label(b.as_str(), "used_percent"),
                percent_text_exec(window.used_percent),
            ),
        )
    } else if str_eq(m.as_str(), "suggested_usage_speed") {
        match pace {
            Some(p) => Some(
                (menu_bar_live_quota_status_label(b.as_str(), "suggested_usage_speed"), owned(p)),
            ),
            None => None,
        }
    } else {
        Some(
            (
                menu_bar_live_quota_status_label(b.as_str(), "remaining_percent"),
                percent_text_exec(window.remaining_percent),
            ),
        )
    }
}

/// A window as the popup shows it.
pub fn menu_bar_popup_quota_snapshot(window: &RateLimitWindowSnapshot) -> (r: MenuBarPopupQuotaSnapshot)
    ensures
        r.used_percent == window.used_percent,
        r.remaining_percent == window.remaining_percent,
        r.window_duration_mins == window.window_duration_mins,
        r.resets_at == window.resets_at,
        r.window_start == window.window_start,
{
    MenuBarPopupQuotaSnapshot {
        used_percent: window.used_percent,
        remaining_percent: window.remaining_percent,
        window_duration_mins: window.window_duration_mins,
        resets_at: copy_opt_string(&window.resets_at),
        window_start: copy_opt_string(&window.window_start),
    }
}

/// How long live rate limits are reused, in seconds: the configured refresh
/// interval within one minute and one hour, five minutes when unknown.
pub fn live_rate_limit_cache_ttl_seconds(refresh_interval_seconds: Option<i64>) -> (r: u64)
    ensures
        r == live_rate_limit_cache_ttl_seconds_spec(refresh_interval_seconds),
{
    match refresh_interval_seconds {
        Some(v) => if v < 60 {
            60
        } else if v > 3600 {
            3600
        } else {
            v as u64
        },
        None => 300,
    }
}

/// Whether cached live rate limits are answered without asking the Codex
/// app-server again: only when no refresh is forced and the cache, `age`
/// old (whole seconds and nanoseconds), is at most the cache lifetime old.
pub fn live_rate_limits_cache_fresh(
    force_refresh: bool,
    age: Option<(u64, u32)>,
    refresh_interval_seconds: Option<i64>,
) -> (r: bool)
    requires
        age matches Some((_, nanos)) ==> nanos < 1_000_000_000,
    ensures
        r == (!force_refresh && match age {
            Some((secs, nanos)) => secs as int * 1_000_000_000 + nanos as int
                <= live_rate_limit_cache_ttl_seconds_spec(refresh_interval_seconds) * 1_000_000_000,
            None => false,
        }),
{
    if force_refresh {
        return false;
    }
    let ttl = live_rate_limit_cache_ttl_seconds(refresh_interval_seconds);
    match age {
        Some((secs, nanos)) => secs < ttl || (secs == ttl && nanos == 0),
        None => false,
    }
}

/// The cache lifetime of live rate limits, in seconds.
pub open spec fn live_rate_limit_cache_ttl_seconds_spec(refresh_interval_seconds: Option<i64>) -> int {
    match refresh_interval_seconds {
        Some(v) => if v < 60 { 60 } else if v > 3600 { 3600 } else { v as int },
        None => 300,
    }
}


/// The pace of a window, rendered by the caller: the emoji, the value and
/// the remaining time with one decimal.
#[derive(Debug, Clone)]
pub struct PaceDetail {
    pub emoji: String,
    pub display_value: String,
    pub remaining_time_text: String,
}

/// The tooltip line of the live metric.
pub open spec fn live_tooltip(
    snapshot: LiveRateLimitSnapshot,
    bucket: Seq<char>,
    metric: Seq<char>,
    pace: Option<PaceDetail>,
) -> Option<Seq<char>> {
    let seven = live_quota_bucket_of(bucket) == "seven_day"@;
    let w = if seven {
        snapshot.secondary
    } else {
        snapshot.primary
    };
    let label = if seven {
        "7天"@
    } else {
        "5小时"@
    };
    let m = live_quota_metric_of(metric);
    match w {
        None => None,
        Some(w) => if m == "used_percent"@ {
            Some(label + "已用 "@ + percent_text(w.used_percent))
        } else if m == "suggested_usage_speed"@ {
            match pace {
                Some(p) => Some(
                    label + "建议使用速度 "@ + p.emoji@ + " "@ + p.display_value@ + " · 剩余额度 "@
                        + percent_text(w.remaining_percent) + " / 剩余时间 "@ + p.remaining_time_text@
                        + "%"@,
                ),
                None => None,
            }
        } else {
            Some(label + "剩余 "@ + percent_text(w.remaining_percent))
        },
    }
}

/// The tooltip line of the live metric.
pub fn menu_bar_live_quota_tooltip(
    snapshot: &LiveRateLimitSnapshot,
    bucket: &str,
    metric: &str,
    pace: Option<&PaceDetail>,
) -> (r: Option<String>)
    ensures
        opt_view(r) == live_tooltip(
            *snapshot,
            bucket@,
            metric@,
            match pace {
                Some(p) => Some(*p),
                None => None,
            },
        ),
{
    let (label, window) = match selected_menu_bar_live_quota_window(snapshot, bucket) {
        Some(pair) => pair,
        None => {
            return None;
        },
    };
    let m = normalize_menu_bar_live_quota_metric(metric);
    let mut out = owned(label);
    if str_eq(m.as_str(), "used_percent") {
        append_str(&mut out, "已用 ");
        append_str(&mut out, percent_text_exec(window.used_percent).as_str());
        Some(out)
    } else if str_eq(m.as_str(), "suggested_usage_speed") {
        match pace {
            Some(p) => {
                append_str(&mut out, "建议使用速度 ");
                append_str(&mut out, p.emoji.as_str());
                append_str(&mut out, " ");
                append_str(&mut out, p.display_value.as_str());
                append_str(&mut out, " · 剩余额度 ");
                append_str(&mut out, percent_text_exec(window.remaining_percent).as_str());
                append_str(&mut out, " / 剩余时间 ");
                append_str(&mut out, p.remaining_time_text.as_str());
                append_str(&mut out, "%");
                Some(out)
            },
            None => None,
        }
    } else {
        append_str(&mut out, "剩余 ");
        append_str(&mut out, percent_text_exec(window.remaining_percent).as_str());
        Some(out)
    }
}

/// The menu bar tooltip: the API value line and the live metric line, or
/// the app's name when there is neither.
pub open spec fn tooltip_text(
    settings: SyncSettings,
    api_value_title: Option<Seq<char>>,
    live_fragment: Option<Seq<char>>,
) -> Seq<char> {
    let api = match api_value_title {
        Some(t) => if trim_seq(t).len() > 0 {
            Some(bucket_label(menu_bar_bucket_of(settings.menu_bar_bucket@)) + "累计 API 价值："@ + t)
        } else {
            None
        },
        None => None,
    };
    let live = if settings.show_menu_bar_live_quota_percent {
        live_fragment
    } else {
        None
    };
    match (api, live) {
        (Some(a), Some(l)) => a + " · "@ + l,
        (Some(a), None) => a,
        (None, Some(l)) => l,
        (None, None) => "Codex Pacer"@,
    }
}

/// The menu bar tooltip.
pub fn menu_bar_tooltip(
    settings: &SyncSettings,
    api_value_title: Option<&str>,
    live_fragment: Option<&str>,
) -> (r: String)
    ensures
        r@ == tooltip_text(*settings, opt_str_view(api_value_title), opt_str_view(live_fragment)),
{
    let bucket = normalize_menu_bar_bucket(settings.menu_bar_bucket.as_str());
    let api: Option<String> = match visible_segment(api_value_title) {
        Some(t) => {
            let mut line = owned(menu_bar_bucket_label(bucket.as_str()));
            append_str(&mut line, "累计 API 价值：");
            append_str(&mut line, t);
            Some(line)
        },
        None => None,
    };
    let live: Option<&str> = if settings.show_menu_bar_live_quota_percent {
        live_fragment
    } else {
        None
    };
    match (api, live) {
        (Some(a), Some(l)) => {
            let mut out = a;
            append_str(&mut out, " · ");
            append_str(&mut out, l);
            out
        },
        (Some(a), None) => a,
        (None, Some(l)) => owned(l),
        (None, None) => "Codex Pacer".to_owned(),
    }
}

// ---------------------------------------------------------------------------
// Laws
// ---------------------------------------------------------------------------

/// Each menu bar choice normalizes to an allowed value, and an allowed value
/// normalizes to itself, so normalizing twice changes nothing.
pub proof fn law_menu_bar_choices_are_stable(bucket: Seq<char>, live_bucket: Seq<char>, metric: Seq<char>)
    ensures
        is_menu_bar_bucket(menu_bar_bucket_of(bucket)),
        menu_bar_bucket_of(menu_bar_bucket_of(bucket)) == menu_bar_bucket_of(bucket),
        live_quota_bucket_of(live_bucket) == "five_hour"@ || live_quota_bucket_of(live_bucket)
            == "seven_day"@,
        live_quota_bucket_of(live_quota_bucket_of(live_bucket)) == live_quota_bucket_of(live_bucket),
        live_quota_metric_of(metric) == "remaining_percent"@ || live_quota_metric_of(metric)
            == "used_percent"@ || live_quota_metric_of(metric) == "suggested_usage_speed"@,
        live_quota_metric_of(live_quota_metric_of(metric)) == live_quota_metric_of(metric),
{
}

/// A pace emoji that normalization leaves trimmed, not empty and at most
/// four characters long normalizes to itself again. A value whose cut ends
/// in a space, such as `"abc de"` cut to `"abc "`, is changed by a second
/// pass, which trims it to `"abc"`.
pub proof fn law_speed_emoji_is_stable(value: Seq<char>, fallback: Seq<char>)
    requires
        trim_seq(speed_emoji_of(value, fallback)) == speed_emoji_of(value, fallback),
        0 < speed_emoji_of(value, fallback).len() <= 4,
    ensures
        speed_emoji_of(speed_emoji_of(value, fallback), fallback) == speed_emoji_of(value, fallback),
{
}

/// The normalized popup modules are all known modules, none twice, and
/// normalizing them again changes nothing.
pub proof fn law_popup_modules_are_stable(modules: Seq<Seq<char>>)
    ensures
        forall|i: int|
            0 <= i < popup_modules_of(modules).len() ==> is_popup_module(
                #[trigger] popup_modules_of(modules)[i],
            ),
        forall|i: int, j: int|
            0 <= i < j < popup_modules_of(modules).len() ==> popup_modules_of(modules)[i]
                != popup_modules_of(modules)[j],
        popup_modules_of(popup_modules_of(modules)) == popup_modules_of(modules),
{
    lemma_popup_modules_clean(modules);
    lemma_popup_modules_fixed(popup_modules_of(modules));
}

proof fn lemma_popup_modules_clean(modules: Seq<Seq<char>>)
    ensures
        forall|i: int|
            0 <= i < popup_modules_of(modules).len() ==> is_popup_module(
                #[trigger] popup_modules_of(modules)[i],
            ),
        forall|i: int, j: int|
            0 <= i < j < popup_modules_of(modules).len() ==> popup_modules_of(modules)[i]
                != popup_modules_of(modules)[j],
    decreases modules.len(),
{
    if modules.len() > 0 {
        lemma_popup_modules_clean(modules.drop_last());
        let before = popup_modules_of(modules.drop_last());
        let m = modules.last();
        if is_popup_module(m) && !before.contains(m) {
            let after = before.push(m);
            assert forall|i: int, j: int| 0 <= i < j < after.len() implies after[i] != after[j] by {
                if j == after.len() - 1 {
                    assert(before[i] == after[i]);
                    if after[i] == m {
                        assert(before.contains(m));
                    }
                }
            }
        }
    }
}

proof fn lemma_popup_modules_fixed(modules: Seq<Seq<char>>)
    requires
        forall|i: int| 0 <= i < modules.len() ==> is_popup_module(#[trigger] modules[i]),
        forall|i: int, j: int| 0 <= i < j < modules.len() ==> modules[i] != modules[j],
    ensures
        popup_modules_of(modules) == modules,
    decreases modules.len(),
{
    if modules.len() > 0 {
        let init = modules.drop_last();
        lemma_popup_modules_fixed(init);
        assert(is_popup_module(modules[modules.len() - 1]));
        if init.contains(modules.last()) {
            let k = choose|k: int| 0 <= k < init.len() && init[k] == modules.last();
            assert(modules[k] == modules[modules.len() - 1]);
        }
        assert(init.push(modules.last()) =~= modules);
    }
}

/// The Dock icon is hidden only while the menu bar shows something.
pub proof fn law_dock_hidden_only_with_menu_bar_content(settings: SyncSettings)
    ensures
        (settings.hide_dock_icon_when_menu_bar_visible && has_visible_content(settings))
            ==> has_visible_content(settings),
        !has_visible_content(settings) ==> !(settings.hide_dock_icon_when_menu_bar_visible
            && has_visible_content(settings)),
{
}

} // verus!
