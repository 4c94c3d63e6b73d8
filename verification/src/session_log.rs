//! Reading one Codex session log: which session it is, its parent, the
//! models it used, its cumulative usage readings and its rate-limit samples.
use vstd::prelude::*;

use crate::importer::opt_view;
use crate::models::{copy_opt_string, RateLimitSampleRecord, RawSession, TokenUsage, UsageSnapshot};
use crate::pricing::{normalize_model_id, normalized_model_id};
use crate::text::{append_str, chars_of, contains_chars, contains_seq, owned, str_eq};

verus! {

// ---------------------------------------------------------------------------
// The lines of a log, as plain values
// ---------------------------------------------------------------------------

/// The fields of a `session_meta` record that identify the session.
#[derive(Debug, Clone)]
pub struct SessionMetaRecord {
    pub id: Option<String>,
    pub forked_from_id: Option<String>,
    pub spawn_parent_thread_id: Option<String>,
    pub agent_nickname: Option<String>,
    pub spawn_agent_nickname: Option<String>,
    pub agent_role: Option<String>,
    pub spawn_agent_role: Option<String>,
}

/// The counters of a `total_token_usage` object; absent ones are `None`.
#[derive(Debug, Clone)]
pub struct TokenCountRecord {
    pub input_tokens: Option<i64>,
    pub cached_input_tokens: Option<i64>,
    pub output_tokens: Option<i64>,
    pub reasoning_output_tokens: Option<i64>,
    pub total_tokens: Option<i64>,
}

/// One window of a `rate_limits` object.
#[derive(Debug, Clone)]
pub struct RateWindowRecord {
    pub used_percent: Option<i64>,
    pub window_duration_mins: Option<i64>,
    pub window_minutes: Option<i64>,
    pub resets_at: Option<i64>,
    pub limit_id: Option<String>,
    pub limit_name: Option<String>,
}

/// The `rate_limits` object of a `token_count` event.
#[derive(Debug, Clone)]
pub struct RateLimitsRecord {
    pub plan_type: Option<String>,
    pub limit_id: Option<String>,
    pub limit_name: Option<String>,
    pub primary: Option<RateWindowRecord>,
    pub secondary: Option<RateWindowRecord>,
}

/// What a log record says, by its `type`.
#[derive(Debug, Clone)]
pub enum SessionLogEvent {
    SessionMeta(SessionMetaRecord),
    TurnContext(Option<String>),
    TokenCount(Option<TokenCountRecord>, Option<RateLimitsRecord>),
    Other,
}

/// One JSON record of a session log.
#[derive(Debug, Clone)]
pub struct SessionLogRecord {
    pub id: Option<String>,
    pub timestamp: Option<String>,
    pub event: SessionLogEvent,
}

/// One line of a session log: its text, and its record when it is JSON.
#[derive(Debug, Clone)]
pub struct SessionLogLine {
    pub text: String,
    pub record: Option<SessionLogRecord>,
}

// ---------------------------------------------------------------------------
// A line's text, read as JSON
// ---------------------------------------------------------------------------

/// Whether `serde_json` reads `text` as a JSON value.
pub uninterp spec fn json_parses(text: Seq<char>) -> bool;

/// The string that the JSON pointer `pointer` names in the JSON value of
/// `text`; none where the text is no JSON, the pointer names nothing, or
/// what it names is no string.
pub uninterp spec fn json_str_at(text: Seq<char>, pointer: Seq<char>) -> Option<Seq<char>>;

/// The number that `pointer` names in the JSON value of `text`, where it is
/// an integer that fits in an `i64`.
pub uninterp spec fn json_i64_at(text: Seq<char>, pointer: Seq<char>) -> Option<i64>;

/// Whether `pointer` names anything in the JSON value of `text`.
pub uninterp spec fn json_present_at(text: Seq<char>, pointer: Seq<char>) -> bool;

/// Whether `pointer` names a JSON `null` in the JSON value of `text`.
pub uninterp spec fn json_null_at(text: Seq<char>, pointer: Seq<char>) -> bool;

/// Reads `text` with `serde_json::from_str::<Value>`; whether that
/// succeeds is named `json_parses`.
#[verifier::external_body]
fn json_text_parses(text: &str) -> (r: bool)
    ensures
        r == json_parses(text@),
{
    serde_json::from_str::<serde_json::Value>(text).is_ok()
}

/// Reads `text` with `serde_json::from_str::<Value>`, then what
/// `Value::pointer` finds at `pointer`, with `Value::as_str`; the result is
/// named `json_str_at`.
#[verifier::external_body]
fn json_str_of(text: &str, pointer: &str) -> (r: Option<String>)
    ensures
        opt_view(r) == json_str_at(text@, pointer@),
{
    match serde_json::from_str::<serde_json::Value>(text) {
        Ok(value) => value.pointer(pointer).and_then(serde_json::Value::as_str).map(str::to_owned),
        Err(_) => None,
    }
}

/// Reads `text` with `serde_json::from_str::<Value>`, then what
/// `Value::pointer` finds at `pointer`, with `Value::as_i64`; the result is
/// named `json_i64_at`.
#[verifier::external_body]
fn json_i64_of(text: &str, pointer: &str) -> (r: Option<i64>)
    ensures
        r == json_i64_at(text@, pointer@),
{
    match serde_json::from_str::<serde_json::Value>(text) {
        Ok(value) => value.pointer(pointer).and_then(serde_json::Value::as_i64),
        Err(_) => None,
    }
}

/// Reads `text` with `serde_json::from_str::<Value>`, then whether
/// `Value::pointer` finds anything at `pointer`; the result is named
/// `json_present_at`.
#[verifier::external_body]
fn json_present_of(text: &str, pointer: &str) -> (r: bool)
    ensures
        r == json_present_at(text@, pointer@),
{
    match serde_json::from_str::<serde_json::Value>(text) {
        Ok(value) => value.pointer(pointer).is_some(),
        Err(_) => false,
    }
}

/// Reads `text` with `serde_json::from_str::<Value>`, then whether what
/// `Value::pointer` finds at `pointer` is `null` (`Value::is_null`); the
/// result is named `json_null_at`.
#[verifier::external_body]
fn json_null_of(text: &str, pointer: &str) -> (r: bool)
    ensures
        r == json_null_at(text@, pointer@),
{
    match serde_json::from_str::<serde_json::Value>(text) {
        Ok(value) => value.pointer(pointer).is_some_and(serde_json::Value::is_null),
        Err(_) => false,
    }
}

/// Something that `pointer` names and that is not `null`.
pub open spec fn json_value_at(text: Seq<char>, pointer: Seq<char>) -> bool {
    json_present_at(text, pointer) && !json_null_at(text, pointer)
}

/// The fields of a `session_meta` record read from its line.
pub open spec fn meta_read(t: Seq<char>, m: SessionMetaRecord) -> bool {
    &&& opt_view(m.id) == json_str_at(t, "/payload/id"@)
    &&& opt_view(m.forked_from_id) == json_str_at(t, "/payload/forked_from_id"@)
    &&& opt_view(m.spawn_parent_thread_id) == json_str_at(
        t,
        "/payload/source/subagent/thread_spawn/parent_thread_id"@,
    )
    &&& opt_view(m.agent_nickname) == json_str_at(t, "/payload/agent_nickname"@)
    &&& opt_view(m.spawn_agent_nickname) == json_str_at(
        t,
        "/payload/source/subagent/thread_spawn/agent_nickname"@,
    )
    &&& opt_view(m.agent_role) == json_str_at(t, "/payload/agent_role"@)
    &&& opt_view(m.spawn_agent_role) == json_str_at(
        t,
        "/payload/source/subagent/thread_spawn/agent_role"@,
    )
}

/// The counters of a `total_token_usage` object read from its line.
pub open spec fn counts_read(t: Seq<char>, c: TokenCountRecord) -> bool {
    let base = "/payload/info/total_token_usage"@;
    &&& c.input_tokens == json_i64_at(t, base + "/input_tokens"@)
    &&& c.cached_input_tokens == json_i64_at(t, base + "/cached_input_tokens"@)
    &&& c.output_tokens == json_i64_at(t, base + "/output_tokens"@)
    &&& c.reasoning_output_tokens == json_i64_at(t, base + "/reasoning_output_tokens"@)
    &&& c.total_tokens == json_i64_at(t, base + "/total_tokens"@)
}

/// A window of a `rate_limits` object read from its line: there is one
/// wherever the key is there, `null` included. Its used percentage is the
/// integer written, else `rounded`, the written number rounded.
pub open spec fn window_read(
    t: Seq<char>,
    base: Seq<char>,
    w: Option<RateWindowRecord>,
    rounded: Option<i64>,
) -> bool {
    if json_present_at(t, base) {
        &&& w is Some
        &&& w->0.used_percent == (match json_i64_at(t, base + "/used_percent"@) {
            Some(v) => Some(v),
            None => rounded,
        })
        &&& w->0.window_duration_mins == json_i64_at(t, base + "/window_duration_mins"@)
        &&& w->0.window_minutes == json_i64_at(t, base + "/window_minutes"@)
        &&& w->0.resets_at == json_i64_at(t, base + "/resets_at"@)
        &&& opt_view(w->0.limit_id) == json_str_at(t, base + "/limit_id"@)
        &&& opt_view(w->0.limit_name) == json_str_at(t, base + "/limit_name"@)
    } else {
        w is None
    }
}

/// The `rate_limits` object of a `token_count` event read from its line:
/// there is one where the key holds something other than `null`.
pub open spec fn rate_limits_read(
    t: Seq<char>,
    r: Option<RateLimitsRecord>,
    primary_rounded: Option<i64>,
    secondary_rounded: Option<i64>,
) -> bool {
    let base = "/payload/rate_limits"@;
    if json_value_at(t, base) {
        &&& r is Some
        &&& opt_view(r->0.plan_type) == json_str_at(t, base + "/plan_type"@)
        &&& opt_view(r->0.limit_id) == json_str_at(t, base + "/limit_id"@)
        &&& opt_view(r->0.limit_name) == json_str_at(t, base + "/limit_name"@)
        &&& window_read(t, base + "/primary"@, r->0.primary, primary_rounded)
        &&& window_read(t, base + "/secondary"@, r->0.secondary, secondary_rounded)
    } else {
        r is None
    }
}

/// The event of a line, by its `type`: a `session_meta` record, the model
/// of a `turn_context`, a `token_count` event message with a total usage
/// object that is not `null`, or something else.
pub open spec fn event_read(
    t: Seq<char>,
    e: SessionLogEvent,
    primary_rounded: Option<i64>,
    secondary_rounded: Option<i64>,
) -> bool {
    let kind = json_str_at(t, "/type"@);
    if kind == Some("session_meta"@) {
        e is SessionMeta && meta_read(t, e->SessionMeta_0)
    } else if kind == Some("turn_context"@) {
        e is TurnContext && opt_view(e->TurnContext_0) == json_str_at(t, "/payload/model"@)
    } else if kind == Some("event_msg"@) && json_str_at(t, "/payload/type"@) == Some(
        "token_count"@,
    ) && json_value_at(t, "/payload/info/total_token_usage"@) {
        &&& e is TokenCount
        &&& e->TokenCount_0 is Some
        &&& counts_read(t, e->TokenCount_0->0)
        &&& rate_limits_read(t, e->TokenCount_1, primary_rounded, secondary_rounded)
    } else {
        e is Other
    }
}

/// The record of a line: where its text is JSON, its `id`, its `timestamp`
/// and its event.
pub open spec fn record_read(
    t: Seq<char>,
    r: Option<SessionLogRecord>,
    primary_rounded: Option<i64>,
    secondary_rounded: Option<i64>,
) -> bool {
    if json_parses(t) {
        &&& r is Some
        &&& opt_view(r->0.id) == json_str_at(t, "/id"@)
        &&& opt_view(r->0.timestamp) == json_str_at(t, "/timestamp"@)
        &&& event_read(t, r->0.event, primary_rounded, secondary_rounded)
    } else {
        r is None
    }
}

fn pointer_to(base: &str, key: &str) -> (r: String)
    ensures
        r@ == base@ + key@,
{
    let mut p = owned(base);
    append_str(&mut p, key);
    p
}

fn meta_of(text: &str) -> (r: SessionMetaRecord)
    ensures
        meta_read(text@, r),
{
    SessionMetaRecord {
        id: json_str_of(text, "/payload/id"),
        forked_from_id: json_str_of(text, "/payload/forked_from_id"),
        spawn_parent_thread_id: json_str_of(
            text,
            "/payload/source/subagent/thread_spawn/parent_thread_id",
        ),
        agent_nickname: json_str_of(text, "/payload/agent_nickname"),
        spawn_agent_nickname: json_str_of(text, "/payload/source/subagent/thread_spawn/agent_nickname"),
        agent_role: json_str_of(text, "/payload/agent_role"),
        spawn_agent_role: json_str_of(text, "/payload/source/subagent/thread_spawn/agent_role"),
    }
}

fn counts_of(text: &str) -> (r: TokenCountRecord)
    ensures
        counts_read(text@, r),
{
    let base = "/payload/info/total_token_usage";
    TokenCountRecord {
        input_tokens: json_i64_of(text, pointer_to(base, "/input_tokens").as_str()),
        cached_input_tokens: json_i64_of(text, pointer_to(base, "/cached_input_tokens").as_str()),
        output_tokens: json_i64_of(text, pointer_to(base, "/output_tokens").as_str()),
        reasoning_output_tokens: json_i64_of(
            text,
            pointer_to(base, "/reasoning_output_tokens").as_str(),
        ),
        total_tokens: json_i64_of(text, pointer_to(base, "/total_tokens").as_str()),
    }
}

fn window_of(text: &str, base: &str, rounded: Option<i64>) -> (r: Option<RateWindowRecord>)
    ensures
        window_read(text@, base@, r, rounded),
{
    if !json_present_of(text, base) {
        return None;
    }
    let used_percent = match json_i64_of(text, pointer_to(base, "/used_percent").as_str()) {
        Some(v) => Some(v),
        None => rounded,
    };
    Some(
        RateWindowRecord {
            used_percent,
            window_duration_mins: json_i64_of(text, pointer_to(base, "/window_duration_mins").as_str()),
            window_minutes: json_i64_of(text, pointer_to(base, "/window_minutes").as_str()),
            resets_at: json_i64_of(text, pointer_to(base, "/resets_at").as_str()),
            limit_id: json_str_of(text, pointer_to(base, "/limit_id").as_str()),
            limit_name: json_str_of(text, pointer_to(base, "/limit_name").as_str()),
        },
    )
}

fn rate_limits_of(text: &str, primary_rounded: Option<i64>, secondary_rounded: Option<i64>) -> (r:
    Option<RateLimitsRecord>)
    ensures
        rate_limits_read(text@, r, primary_rounded, secondary_rounded),
{
    let base = "/payload/rate_limits";
    if !json_present_of(text, base) || json_null_of(text, base) {
        return None;
    }
    Some(
        RateLimitsRecord {
            plan_type: json_str_of(text, pointer_to(base, "/plan_type").as_str()),
            limit_id: json_str_of(text, pointer_to(base, "/limit_id").as_str()),
            limit_name: json_str_of(text, pointer_to(base, "/limit_name").as_str()),
            primary: window_of(text, pointer_to(base, "/primary").as_str(), primary_rounded),
            secondary: window_of(text, pointer_to(base, "/secondary").as_str(), secondary_rounded),
        },
    )
}

fn text_is(value: &Option<String>, name: &str) -> (r: bool)
    ensures
        r == (opt_view(*value) == Some(name@)),
{
    match value {
        Some(v) => str_eq(v.as_str(), name),
        None => false,
    }
}

fn event_of(text: &str, primary_rounded: Option<i64>, secondary_rounded: Option<i64>) -> (r:
    SessionLogEvent)
    ensures
        event_read(text@, r, primary_rounded, secondary_rounded),
{
    proof {
        reveal_strlit("session_meta");
        reveal_strlit("turn_context");
        reveal_strlit("event_msg");
        reveal_strlit("token_count");
    }
    let kind = json_str_of(text, "/type");
    if text_is(&kind, "session_meta") {
        return SessionLogEvent::SessionMeta(meta_of(text));
    }
    if text_is(&kind, "turn_context") {
        return SessionLogEvent::TurnContext(json_str_of(text, "/payload/model"));
    }
    if !text_is(&kind, "event_msg") {
        return SessionLogEvent::Other;
    }
    let is_token_count = text_is(&json_str_of(text, "/payload/type"), "token_count");
    let total = "/payload/info/total_token_usage";
    if !is_token_count || !json_present_of(text, total) || json_null_of(text, total) {
        return SessionLogEvent::Other;
    }
    SessionLogEvent::TokenCount(
        Some(counts_of(text)),
        rate_limits_of(text, primary_rounded, secondary_rounded),
    )
}

/// One line of a session log: its text, and, where the text is JSON, its
/// record. `primary_rounded` and `secondary_rounded` are the used
/// percentages of the two rate-limit windows rounded from the numbers
/// written, which stand where a percentage is not written as an integer.
pub fn session_log_line(text: String, primary_rounded: Option<i64>, secondary_rounded: Option<i64>) -> (r:
    SessionLogLine)
    ensures
        r.text@ == text@,
        record_read(text@, r.record, primary_rounded, secondary_rounded),
{
    let record = if json_text_parses(text.as_str()) {
        Some(
            SessionLogRecord {
                id: json_str_of(text.as_str(), "/id"),
                timestamp: json_str_of(text.as_str(), "/timestamp"),
                event: event_of(text.as_str(), primary_rounded, secondary_rounded),
            },
        )
    } else {
        None
    };
    SessionLogLine { text, record }
}

/// The title an entry of the session index gives, read from its line: its
/// `id` and its `thread_name` (none counting as empty), as
/// `session_index_title` keeps them.
pub fn session_index_entry(text: &str) -> (r: Option<(String, String)>)
    ensures
        match json_str_at(text@, "/id"@) {
            None => r is None,
            Some(id) => {
                let name = match json_str_at(text@, "/thread_name"@) {
                    Some(n) => n,
                    None => Seq::<char>::empty(),
                };
                &&& (r is Some <==> crate::text::trim_seq(name).len() > 0)
                &&& (r matches Some(t) ==> t.0@ == id && t.1@ == crate::text::trim_seq(name))
            },
        },
{
    let id = match json_str_of(text, "/id") {
        Some(id) => id,
        None => {
            return None;
        },
    };
    let name = match json_str_of(text, "/thread_name") {
        Some(n) => n,
        None => String::new(),
    };
    crate::importer::session_index_title(id.as_str(), Some(name.as_str()))
}

// ---------------------------------------------------------------------------
// What a log yields
// ---------------------------------------------------------------------------

/// A `session_meta` record that named a session.
#[derive(Debug, Clone)]
pub struct MetaCandidate {
    pub session_id: String,
    pub parent_session_id: Option<String>,
    pub agent_nickname: Option<String>,
    pub agent_role: Option<String>,
}

#[verifier::ext_equal]
pub struct MetaView {
    pub session_id: Seq<char>,
    pub parent_session_id: Option<Seq<char>>,
    pub agent_nickname: Option<Seq<char>>,
    pub agent_role: Option<Seq<char>>,
}

impl View for MetaCandidate {
    type V = MetaView;

    open spec fn view(&self) -> MetaView {
        MetaView {
            session_id: self.session_id@,
            parent_session_id: opt_view(self.parent_session_id),
            agent_nickname: opt_view(self.agent_nickname),
            agent_role: opt_view(self.agent_role),
        }
    }
}

/// A rate-limit window read from a log, with its times still in Unix
/// seconds.
#[derive(Debug, Clone)]
pub struct SessionRateLimitSample {
    pub bucket: String,
    pub sample_timestamp: String,
    pub limit_id: Option<String>,
    pub limit_name: Option<String>,
    pub plan_type: Option<String>,
    pub window_start_seconds: i64,
    pub resets_at_seconds: i64,
    pub used_percent: i64,
    pub remaining_percent: i64,
}

#[verifier::ext_equal]
pub struct SampleView {
    pub bucket: Seq<char>,
    pub sample_timestamp: Seq<char>,
    pub limit_id: Option<Seq<char>>,
    pub limit_name: Option<Seq<char>>,
    pub plan_type: Option<Seq<char>>,
    pub window_start_seconds: i64,
    pub resets_at_seconds: i64,
    pub used_percent: i64,
    pub remaining_percent: i64,
}

impl View for SessionRateLimitSample {
    type V = SampleView;

    open spec fn view(&self) -> SampleView {
        SampleView {
            bucket: self.bucket@,
            sample_timestamp: self.sample_timestamp@,
            limit_id: opt_view(self.limit_id),
            limit_name: opt_view(self.limit_name),
            plan_type: opt_view(self.plan_type),
            window_start_seconds: self.window_start_seconds,
            resets_at_seconds: self.resets_at_seconds,
            used_percent: self.used_percent,
            remaining_percent: self.remaining_percent,
        }
    }
}

#[verifier::ext_equal]
pub struct SnapshotView {
    pub timestamp: Seq<char>,
    pub model_id: Seq<char>,
    pub usage: TokenUsage,
    pub plan_type: Option<Seq<char>>,
    pub limit_id: Option<Seq<char>>,
    pub limit_name: Option<Seq<char>>,
    pub explicit_fast_mode: Option<bool>,
}

pub open spec fn snapshot_view(s: UsageSnapshot) -> SnapshotView {
    SnapshotView {
        timestamp: s.timestamp@,
        model_id: s.model_id@,
        usage: s.usage,
        plan_type: opt_view(s.plan_type),
        limit_id: opt_view(s.limit_id),
        limit_name: opt_view(s.limit_name),
        explicit_fast_mode: s.explicit_fast_mode,
    }
}

/// A session log, read.
#[derive(Debug, Clone)]
pub struct ParsedSession {
    pub raw_session: RawSession,
    pub snapshots: Vec<UsageSnapshot>,
    pub rate_limit_samples: Vec<SessionRateLimitSample>,
    pub explicit_fast_mode: Option<bool>,
    pub latest_plan_type: Option<String>,
    pub last_model_id: Option<String>,
}

// ---------------------------------------------------------------------------
// The reading, line by line
// ---------------------------------------------------------------------------

/// What has been learnt from the lines read so far.
#[verifier::ext_equal]
pub struct LogScan {
    pub session_id: Seq<char>,
    pub started_at: Option<Seq<char>>,
    pub updated_at: Option<Seq<char>>,
    pub fast_mode: Option<bool>,
    pub current_model: Option<Seq<char>>,
    pub seen_models: Seq<Seq<char>>,
    pub first_meta: Option<MetaView>,
    pub matching_meta: Option<MetaView>,
    pub snapshots: Seq<SnapshotView>,
    pub samples: Seq<SampleView>,
    pub latest_plan_type: Option<Seq<char>>,
}

pub open spec fn empty_scan() -> LogScan {
    LogScan {
        session_id: Seq::<char>::empty(),
        started_at: None,
        updated_at: None,
        fast_mode: None,
        current_model: None,
        seen_models: Seq::<Seq<char>>::empty(),
        first_meta: None,
        matching_meta: None,
        snapshots: Seq::<SnapshotView>::empty(),
        samples: Seq::<SampleView>::empty(),
        latest_plan_type: None,
    }
}

pub open spec fn or_else<T>(a: Option<T>, b: Option<T>) -> Option<T> {
    if a is Some {
        a
    } else {
        b
    }
}

/// A line's text switches fast mode on or off; `false` wins when both occur.
pub open spec fn fast_mode_after(previous: Option<bool>, text: Seq<char>) -> Option<bool> {
    if contains_seq(text, "\"fast_mode\":false"@) || contains_seq(text, "\"quick_mode\":false"@) {
        Some(false)
    } else if contains_seq(text, "\"fast_mode\":true"@) || contains_seq(
        text,
        "\"quick_mode\":true"@,
    ) {
        Some(true)
    } else {
        previous
    }
}

/// `models` with `m` added at the end unless it is already there.
pub open spec fn insert_model(models: Seq<Seq<char>>, m: Seq<char>) -> Seq<Seq<char>> {
    if models.contains(m) {
        models
    } else {
        models.push(m)
    }
}

pub open spec fn meta_candidate(m: SessionMetaRecord, id: Seq<char>) -> MetaView {
    MetaView {
        session_id: id,
        parent_session_id: or_else(opt_view(m.forked_from_id), opt_view(m.spawn_parent_thread_id)),
        agent_nickname: or_else(opt_view(m.agent_nickname), opt_view(m.spawn_agent_nickname)),
        agent_role: or_else(opt_view(m.agent_role), opt_view(m.spawn_agent_role)),
    }
}

pub open spec fn count_or_zero(c: Option<i64>) -> i64 {
    match c {
        Some(v) => v,
        None => 0,
    }
}

/// The cumulative usage a `token_count` event reports; a missing total is
/// input plus output.
pub open spec fn usage_of(u: TokenCountRecord) -> TokenUsage {
    TokenUsage {
        input_tokens: count_or_zero(u.input_tokens),
        cached_input_tokens: count_or_zero(u.cached_input_tokens),
        output_tokens: count_or_zero(u.output_tokens),
        reasoning_output_tokens: count_or_zero(u.reasoning_output_tokens),
        total_tokens: match u.total_tokens {
            Some(t) => t,
            None => (count_or_zero(u.input_tokens) + count_or_zero(u.output_tokens)) as i64,
        },
    }
}

pub open spec fn clamp_percent(v: int) -> i64 {
    if v < 0 {
        0
    } else if v > 100 {
        100
    } else {
        v as i64
    }
}

/// The window's length in minutes, under either of its two names.
pub open spec fn window_length(w: RateWindowRecord) -> Option<i64> {
    or_else(w.window_duration_mins, w.window_minutes)
}

/// The sample a rate-limit window yields, when it has a used percentage, a
/// length and a reset time.
pub open spec fn window_sample(
    bucket: Seq<char>,
    w: Option<RateWindowRecord>,
    rl: RateLimitsRecord,
    timestamp: Seq<char>,
) -> Option<SampleView> {
    match w {
        Some(w) => if w.used_percent is Some && window_length(w) is Some && w.resets_at is Some {
            let used = w.used_percent->0;
            let resets = w.resets_at->0;
            Some(
                SampleView {
                    bucket,
                    sample_timestamp: timestamp,
                    limit_id: or_else(opt_view(rl.limit_id), opt_view(w.limit_id)),
                    limit_name: or_else(opt_view(rl.limit_name), opt_view(w.limit_name)),
                    plan_type: opt_view(rl.plan_type),
                    window_start_seconds: (resets - window_length(w)->0 * 60) as i64,
                    resets_at_seconds: resets,
                    used_percent: clamp_percent(used as int),
                    remaining_percent: clamp_percent(100 - used),
                },
            )
        } else {
            None
        },
        None => None,
    }
}

pub open spec fn opt_seq<T>(o: Option<T>) -> Seq<T> {
    match o {
        Some(v) => seq![v],
        None => Seq::<T>::empty(),
    }
}

/// The samples of a `rate_limits` object: the five-hour window, then the
/// seven-day one.
pub open spec fn samples_of(rl: Option<RateLimitsRecord>, timestamp: Seq<char>) -> Seq<SampleView> {
    match rl {
        Some(r) => opt_seq(window_sample("five_hour"@, r.primary, r, timestamp)) + opt_seq(
            window_sample("seven_day"@, r.secondary, r, timestamp),
        ),
        None => Seq::<SampleView>::empty(),
    }
}

pub open spec fn rl_plan(rl: Option<RateLimitsRecord>) -> Option<Seq<char>> {
    match rl {
        Some(r) => opt_view(r.plan_type),
        None => None,
    }
}

pub open spec fn rl_limit_id(rl: Option<RateLimitsRecord>) -> Option<Seq<char>> {
    match rl {
        Some(r) => or_else(
            opt_view(r.limit_id),
            match r.primary {
                Some(p) => opt_view(p.limit_id),
                None => None,
            },
        ),
        None => None,
    }
}

pub open spec fn rl_limit_name(rl: Option<RateLimitsRecord>) -> Option<Seq<char>> {
    match rl {
        Some(r) => or_else(
            opt_view(r.limit_name),
            match r.primary {
                Some(p) => opt_view(p.limit_name),
                None => None,
            },
        ),
        None => None,
    }
}

/// A `token_count` event with usage: one more reading, and its samples.
pub open spec fn token_count_step(
    st: LogScan,
    u: TokenCountRecord,
    rl: Option<RateLimitsRecord>,
    timestamp: Option<Seq<char>>,
    fallback_timestamp: Seq<char>,
) -> LogScan {
    let ts = match timestamp {
        Some(t) => t,
        None => fallback_timestamp,
    };
    let plan = rl_plan(rl);
    let model = match st.current_model {
        Some(m) => m,
        None => "unknown"@,
    };
    LogScan {
        latest_plan_type: or_else(plan, st.latest_plan_type),
        samples: st.samples + samples_of(rl, ts),
        seen_models: insert_model(st.seen_models, model),
        snapshots: st.snapshots.push(
            SnapshotView {
                timestamp: ts,
                model_id: model,
                usage: usage_of(u),
                plan_type: plan,
                limit_id: rl_limit_id(rl),
                limit_name: rl_limit_name(rl),
                explicit_fast_mode: st.fast_mode,
            },
        ),
        ..st
    }
}

/// Law: reading a `token_count` record adds one usage reading after those
/// before, and that reading carries each counter from the record's field
/// of the same name (0 where the field is absent), whatever the other
/// counters hold; a written total is carried as it is.
pub proof fn law_token_reading_carries_each_counter(
    st: LogScan,
    u: TokenCountRecord,
    rl: Option<RateLimitsRecord>,
    timestamp: Option<Seq<char>>,
    fallback_timestamp: Seq<char>,
)
    ensures
        ({
            let after = token_count_step(st, u, rl, timestamp, fallback_timestamp).snapshots;
            let reading = after.last().usage;
            &&& after.len() == st.snapshots.len() + 1
            &&& after.drop_last() == st.snapshots
            &&& reading.input_tokens == (match u.input_tokens {
                Some(v) => v,
                None => 0,
            })
            &&& reading.cached_input_tokens == (match u.cached_input_tokens {
                Some(v) => v,
                None => 0,
            })
            &&& reading.output_tokens == (match u.output_tokens {
                Some(v) => v,
                None => 0,
            })
            &&& reading.reasoning_output_tokens == (match u.reasoning_output_tokens {
                Some(v) => v,
                None => 0,
            })
            &&& (u.total_tokens matches Some(t) ==> reading.total_tokens == t)
            &&& (u.total_tokens is None ==> reading.total_tokens == (reading.input_tokens
                + reading.output_tokens) as i64)
        }),
{
    let after = token_count_step(st, u, rl, timestamp, fallback_timestamp).snapshots;
    assert(after.drop_last() =~= st.snapshots);
}

/// What a JSON record adds to what was learnt before it.
pub open spec fn record_step(
    st0: LogScan,
    rec: SessionLogRecord,
    expected_session_id: Option<Seq<char>>,
    fallback_timestamp: Seq<char>,
) -> LogScan {
    let ts = opt_view(rec.timestamp);
    let st = LogScan {
        session_id: if st0.session_id.len() == 0 && rec.id is Some {
            rec.id->0@
        } else {
            st0.session_id
        },
        started_at: if st0.started_at is None {
            ts
        } else {
            st0.started_at
        },
        updated_at: if ts is Some {
            ts
        } else {
            st0.updated_at
        },
        ..st0
    };
    match rec.event {
        SessionLogEvent::SessionMeta(m) => match m.id {
            Some(id) => LogScan {
                first_meta: if st.first_meta is None {
                    Some(meta_candidate(m, id@))
                } else {
                    st.first_meta
                },
                matching_meta: if expected_session_id == Some(id@) {
                    Some(meta_candidate(m, id@))
                } else {
                    st.matching_meta
                },
                ..st
            },
            None => st,
        },
        SessionLogEvent::TurnContext(Some(model)) => {
            let m = normalized_model_id(model@);
            LogScan { seen_models: insert_model(st.seen_models, m), current_model: Some(m), ..st }
        },
        SessionLogEvent::TokenCount(Some(u), rl) => token_count_step(
            st,
            u,
            rl,
            ts,
            fallback_timestamp,
        ),
        _ => st,
    }
}

/// What a line adds to what was learnt before it.
pub open spec fn line_step(
    st: LogScan,
    line: SessionLogLine,
    expected_session_id: Option<Seq<char>>,
    fallback_timestamp: Seq<char>,
) -> LogScan {
    let st = LogScan { fast_mode: fast_mode_after(st.fast_mode, line.text@), ..st };
    match line.record {
        Some(rec) => record_step(st, rec, expected_session_id, fallback_timestamp),
        None => st,
    }
}

/// What the lines teach, read in order.
pub open spec fn scan_lines(
    lines: Seq<SessionLogLine>,
    expected_session_id: Option<Seq<char>>,
    fallback_timestamp: Seq<char>,
) -> LogScan
    decreases lines.len(),
{
    if lines.len() == 0 {
        empty_scan()
    } else {
        line_step(
            scan_lines(lines.drop_last(), expected_session_id, fallback_timestamp),
            lines.last(),
            expected_session_id,
            fallback_timestamp,
        )
    }
}

/// The arithmetic of a window's sample fits in 64 bits.
pub open spec fn window_fits(w: Option<RateWindowRecord>) -> bool {
    match w {
        Some(w) => {
            &&& (w.used_percent is Some ==> i64::MIN <= 100 - w.used_percent->0 <= i64::MAX)
            &&& (w.used_percent is Some && window_length(w) is Some && w.resets_at is Some
                ==> i64::MIN <= window_length(w)->0 * 60 <= i64::MAX && i64::MIN <= w.resets_at->0
                - window_length(w)->0 * 60 <= i64::MAX)
        },
        None => true,
    }
}

/// The arithmetic that reading a record performs fits in 64 bits.
pub open spec fn record_fits(rec: SessionLogRecord) -> bool {
    match rec.event {
        SessionLogEvent::TokenCount(Some(u), rl) => {
            &&& (u.total_tokens is None ==> i64::MIN <= count_or_zero(u.input_tokens)
                + count_or_zero(u.output_tokens) <= i64::MAX)
            &&& match rl {
                Some(r) => window_fits(r.primary) && window_fits(r.secondary),
                None => true,
            }
        },
        _ => true,
    }
}

/// The arithmetic that reading a line performs fits in 64 bits.
pub open spec fn line_fits(line: SessionLogLine) -> bool {
    match line.record {
        Some(rec) => record_fits(rec),
        None => true,
    }
}

// ---------------------------------------------------------------------------
// Executable reading
// ---------------------------------------------------------------------------

pub open spec fn opt_meta_view(o: Option<MetaCandidate>) -> Option<MetaView> {
    match o {
        Some(m) => Some(m@),
        None => None,
    }
}

/// The reader's state while it goes through a log.
pub struct LogScanState {
    pub session_id: String,
    pub started_at: Option<String>,
    pub updated_at: Option<String>,
    pub fast_mode: Option<bool>,
    pub current_model: Option<String>,
    pub seen_models: Vec<String>,
    pub first_meta: Option<MetaCandidate>,
    pub matching_meta: Option<MetaCandidate>,
    pub snapshots: Vec<UsageSnapshot>,
    pub samples: Vec<SessionRateLimitSample>,
    pub latest_plan_type: Option<String>,
}

impl View for LogScanState {
    type V = LogScan;

    open spec fn view(&self) -> LogScan {
        LogScan {
            session_id: self.session_id@,
            started_at: opt_view(self.started_at),
            updated_at: opt_view(self.updated_at),
            fast_mode: self.fast_mode,
            current_model: opt_view(self.current_model),
            seen_models: self.seen_models@.map_values(|m: String| m@),
            first_meta: opt_meta_view(self.first_meta),
            matching_meta: opt_meta_view(self.matching_meta),
            snapshots: self.snapshots@.map_values(|s: UsageSnapshot| snapshot_view(s)),
            samples: self.samples@.map_values(|s: SessionRateLimitSample| s@),
            latest_plan_type: opt_view(self.latest_plan_type),
        }
    }
}

fn or_else_string(a: &Option<String>, b: &Option<String>) -> (r: Option<String>)
    ensures
        opt_view(r) == or_else(opt_view(*a), opt_view(*b)),
{
    match a {
        Some(_) => copy_opt_string(a),
        None => copy_opt_string(b),
    }
}

fn fast_mode_after_exec(previous: Option<bool>, text: &str) -> (r: Option<bool>)
    ensures
        r == fast_mode_after(previous, text@),
{
    let t = chars_of(text);
    let fast_off = chars_of("\"fast_mode\":false");
    let quick_off = chars_of("\"quick_mode\":false");
    let fast_on = chars_of("\"fast_mode\":true");
    let quick_on = chars_of("\"quick_mode\":true");
    if contains_chars(&t, &fast_off) || contains_chars(&t, &quick_off) {
        Some(false)
    } else if contains_chars(&t, &fast_on) || contains_chars(&t, &quick_on) {
        Some(true)
    } else {
        previous
    }
}

pub(crate) fn insert_model_exec(models: &mut Vec<String>, m: String)
    ensures
        final(models)@.map_values(|x: String| x@) == insert_model(
            old(models)@.map_values(|x: String| x@),
            m@,
        ),
{
    let ghost before = models@.map_values(|x: String| x@);
    let mut i: usize = 0;
    while i < models.len()
        invariant
            i <= models.len(),
            before == models@.map_values(|x: String| x@),
            forall|k: int| 0 <= k < i ==> before[k] != m@,
        decreases models.len() - i,
    {
        if str_eq(models[i].as_str(), m.as_str()) {
            assert(before[i as int] == m@);
            return;
        }
        i += 1;
    }
    assert(!before.contains(m@));
    models.push(m);
    assert(models@.map_values(|x: String| x@) =~= before.push(m@));
}

fn meta_candidate_exec(m: &SessionMetaRecord, id: &String) -> (r: MetaCandidate)
    ensures
        r@ == meta_candidate(*m, id@),
{
    MetaCandidate {
        session_id: id.clone(),
        parent_session_id: or_else_string(&m.forked_from_id, &m.spawn_parent_thread_id),
        agent_nickname: or_else_string(&m.agent_nickname, &m.spawn_agent_nickname),
        agent_role: or_else_string(&m.agent_role, &m.spawn_agent_role),
    }
}

fn count_or_zero_exec(c: Option<i64>) -> (r: i64)
    ensures
        r == count_or_zero(c),
{
    match c {
        Some(v) => v,
        None => 0,
    }
}

fn usage_of_exec(u: &TokenCountRecord) -> (r: TokenUsage)
    requires
        u.total_tokens is None ==> i64::MIN <= count_or_zero(u.input_tokens) + count_or_zero(
            u.output_tokens,
        ) <= i64::MAX,
    ensures
        r == usage_of(*u),
{
    let input = count_or_zero_exec(u.input_tokens);
    let output = count_or_zero_exec(u.output_tokens);
    TokenUsage {
        input_tokens: input,
        cached_input_tokens: count_or_zero_exec(u.cached_input_tokens),
        output_tokens: output,
        reasoning_output_tokens: count_or_zero_exec(u.reasoning_output_tokens),
        total_tokens: match u.total_tokens {
            Some(t) => t,
            None => input + output,
        },
    }
}

fn clamp_percent_exec(v: i64) -> (r: i64)
    ensures
        r == clamp_percent(v as int),
{
    if v < 0 {
        0
    } else if v > 100 {
        100
    } else {
        v
    }
}

fn window_sample_exec(
    bucket: &str,
    w: &Option<RateWindowRecord>,
    rl: &RateLimitsRecord,
    timestamp: &String,
) -> (r: Option<SessionRateLimitSample>)
    requires
        window_fits(*w),
    ensures
        match r {
            Some(s) => window_sample(bucket@, *w, *rl, timestamp@) == Some(s@),
            None => window_sample(bucket@, *w, *rl, timestamp@) is None,
        },
{
    match w {
        Some(win) => {
            let length = match win.window_duration_mins {
                Some(m) => Some(m),
                None => win.window_minutes,
            };
            match (win.used_percent, length, win.resets_at) {
                (Some(used), Some(minutes), Some(resets)) => {
                    let sample = SessionRateLimitSample {
                        bucket: owned(bucket),
                        sample_timestamp: timestamp.clone(),
                        limit_id: or_else_string(&rl.limit_id, &win.limit_id),
                        limit_name: or_else_string(&rl.limit_name, &win.limit_name),
                        plan_type: copy_opt_string(&rl.plan_type),
                        window_start_seconds: resets - minutes * 60,
                        resets_at_seconds: resets,
                        used_percent: clamp_percent_exec(used),
                        remaining_percent: clamp_percent_exec(100 - used),
                    };
                    Some(sample)
                },
                _ => None,
            }
        },
        None => None,
    }
}

fn push_samples(
    samples: &mut Vec<SessionRateLimitSample>,
    rl: &Option<RateLimitsRecord>,
    timestamp: &String,
)
    requires
        match *rl {
            Some(r) => window_fits(r.primary) && window_fits(r.secondary),
            None => true,
        },
    ensures
        final(samples)@.map_values(|s: SessionRateLimitSample| s@) == old(samples)@.map_values(
            |s: SessionRateLimitSample| s@,
        ) + samples_of(*rl, timestamp@),
{
    let ghost before = samples@.map_values(|s: SessionRateLimitSample| s@);
    match rl {
        Some(r) => {
            let first = window_sample_exec("five_hour", &r.primary, r, timestamp);
            let ghost mid = before + opt_seq(window_sample("five_hour"@, r.primary, *r, timestamp@));
            match first {
                Some(s) => {
                    samples.push(s);
                },
                None => {},
            }
            assert(samples@.map_values(|s: SessionRateLimitSample| s@) =~= mid);
            let second = window_sample_exec("seven_day", &r.secondary, r, timestamp);
            match second {
                Some(s) => {
                    samples.push(s);
                },
                None => {},
            }
            assert(samples@.map_values(|s: SessionRateLimitSample| s@) =~= mid + opt_seq(
                window_sample("seven_day"@, r.secondary, *r, timestamp@),
            ));
            assert(samples_of(*rl, timestamp@) =~= opt_seq(
                window_sample("five_hour"@, r.primary, *r, timestamp@),
            ) + opt_seq(window_sample("seven_day"@, r.secondary, *r, timestamp@)));
        },
        None => {
            assert(before + samples_of(*rl, timestamp@) =~= before);
        },
    }
}

fn limit_field_exec(top: &Option<String>, primary: &Option<RateWindowRecord>, name: bool) -> (r: Option<String>)
    ensures
        opt_view(r) == or_else(
            opt_view(*top),
            match *primary {
                Some(p) => if name { opt_view(p.limit_name) } else { opt_view(p.limit_id) },
                None => None,
            },
        ),
{
    match top {
        Some(_) => copy_opt_string(top),
        None => match primary {
            Some(p) => if name {
                copy_opt_string(&p.limit_name)
            } else {
                copy_opt_string(&p.limit_id)
            },
            None => None,
        },
    }
}

fn record_step_exec(
    st: &mut LogScanState,
    rec: &SessionLogRecord,
    expected: &Option<String>,
    fallback: &String,
)
    requires
        record_fits(*rec),
    ensures
        final(st)@ == record_step(old(st)@, *rec, opt_view(*expected), fallback@),
{
    let ghost st0 = st@;
    match &rec.id {
        Some(id) => {
            if st.session_id.as_str().is_empty() {
                st.session_id = id.clone();
            }
        },
        None => {},
    }
    if st.started_at.is_none() {
        st.started_at = copy_opt_string(&rec.timestamp);
    }
    if rec.timestamp.is_some() {
        st.updated_at = copy_opt_string(&rec.timestamp);
    }
    let ghost st1 = st@;
    assert(st1 == LogScan {
        session_id: if st0.session_id.len() == 0 && rec.id is Some {
            rec.id->0@
        } else {
            st0.session_id
        },
        started_at: if st0.started_at is None {
            opt_view(rec.timestamp)
        } else {
            st0.started_at
        },
        updated_at: if opt_view(rec.timestamp) is Some {
            opt_view(rec.timestamp)
        } else {
            st0.updated_at
        },
        ..st0
    });
    match &rec.event {
        SessionLogEvent::SessionMeta(m) => match &m.id {
            Some(id) => {
                if st.first_meta.is_none() {
                    st.first_meta = Some(meta_candidate_exec(m, id));
                }
                let matches = match expected {
                    Some(e) => str_eq(e.as_str(), id.as_str()),
                    None => false,
                };
                if matches {
                    st.matching_meta = Some(meta_candidate_exec(m, id));
                }
            },
            None => {},
        },
        SessionLogEvent::TurnContext(Some(model)) => {
            let m = normalize_model_id(model.as_str());
            insert_model_exec(&mut st.seen_models, m.clone());
            st.current_model = Some(m);
        },
        SessionLogEvent::TokenCount(Some(u), rl) => {
            let ts: String = match &rec.timestamp {
                Some(t) => t.clone(),
                None => fallback.clone(),
            };
            let plan = match rl {
                Some(r) => copy_opt_string(&r.plan_type),
                None => None,
            };
            if plan.is_some() {
                st.latest_plan_type = copy_opt_string(&plan);
            }
            let limit_id = match rl {
                Some(r) => limit_field_exec(&r.limit_id, &r.primary, false),
                None => None,
            };
            let limit_name = match rl {
                Some(r) => limit_field_exec(&r.limit_name, &r.primary, true),
                None => None,
            };
            push_samples(&mut st.samples, rl, &ts);
            let model: String = match &st.current_model {
                Some(m) => m.clone(),
                None => "unknown".to_owned(),
            };
            insert_model_exec(&mut st.seen_models, model.clone());
            let usage = usage_of_exec(u);
            let snapshot = UsageSnapshot {
                timestamp: ts,
                model_id: model,
                usage,
                plan_type: plan,
                limit_id,
                limit_name,
                explicit_fast_mode: st.fast_mode,
            };
            st.snapshots.push(snapshot);
            assert(st@.snapshots =~= st1.snapshots.push(snapshot_view(snapshot)));
        },
        _ => {},
    }
}

fn line_step_exec(
    st: &mut LogScanState,
    line: &SessionLogLine,
    expected: &Option<String>,
    fallback: &String,
)
    requires
        line_fits(*line),
    ensures
        final(st)@ == line_step(old(st)@, *line, opt_view(*expected), fallback@),
{
    st.fast_mode = fast_mode_after_exec(st.fast_mode, line.text.as_str());
    match &line.record {
        Some(rec) => record_step_exec(st, rec, expected, fallback),
        None => {},
    }
}

/// The title the session index gives `id`; a later entry overrides an
/// earlier one.
pub open spec fn title_for(titles: Seq<(String, String)>, id: Seq<char>) -> Option<Seq<char>>
    decreases titles.len(),
{
    if titles.len() == 0 {
        None
    } else if titles.last().0@ == id {
        Some(titles.last().1@)
    } else {
        title_for(titles.drop_last(), id)
    }
}

/// The `session_meta` record that names the session: the one whose id the
/// file name carries, else the first.
pub open spec fn chosen_meta(st: LogScan) -> Option<MetaView> {
    or_else(st.matching_meta, st.first_meta)
}

/// The session's id: the chosen meta record's, else the first top-level id,
/// else the one in the file name.
pub open spec fn final_session_id(st: LogScan, expected_session_id: Option<Seq<char>>) -> Seq<char> {
    let id = match chosen_meta(st) {
        Some(c) => c.session_id,
        None => st.session_id,
    };
    if id.len() == 0 {
        match expected_session_id {
            Some(e) => e,
            None => id,
        }
    } else {
        id
    }
}

pub open spec fn chosen_parent(st: LogScan) -> Option<Seq<char>> {
    match chosen_meta(st) {
        Some(c) => c.parent_session_id,
        None => None,
    }
}

pub open spec fn chosen_nickname(st: LogScan) -> Option<Seq<char>> {
    match chosen_meta(st) {
        Some(c) => c.agent_nickname,
        None => None,
    }
}

pub open spec fn chosen_role(st: LogScan) -> Option<Seq<char>> {
    match chosen_meta(st) {
        Some(c) => c.agent_role,
        None => None,
    }
}

fn title_for_exec(titles: &Vec<(String, String)>, id: &String) -> (r: Option<String>)
    ensures
        opt_view(r) == title_for(titles@, id@),
{
    let mut i = titles.len();
    assert(titles@.take(i as int) =~= titles@);
    while i > 0
        invariant
            i <= titles.len(),
            title_for(titles@, id@) == title_for(titles@.take(i as int), id@),
        decreases i,
    {
        let ghost pre = titles@.take(i as int);
        assert(pre.drop_last() =~= titles@.take(i - 1));
        if str_eq(titles[i - 1].0.as_str(), id.as_str()) {
            return Some(titles[i - 1].1.clone());
        }
        i -= 1;
    }
    None
}

fn window_fits_exec(w: &Option<RateWindowRecord>) -> (r: bool)
    ensures
        r == window_fits(*w),
{
    match w {
        None => true,
        Some(w) => {
            if let Some(used) = w.used_percent {
                if 100i64.checked_sub(used).is_none() {
                    return false;
                }
            }
            let length = match w.window_duration_mins {
                Some(m) => Some(m),
                None => w.window_minutes,
            };
            match (w.used_percent, length, w.resets_at) {
                (Some(_), Some(m), Some(resets)) => match m.checked_mul(60) {
                    Some(span) => resets.checked_sub(span).is_some(),
                    None => false,
                },
                _ => true,
            }
        },
    }
}

/// Whether the arithmetic that reading a line performs fits in 64 bits, as
/// `parse_session_lines` asks of every line.
pub fn line_fits_exec(line: &SessionLogLine) -> (r: bool)
    ensures
        r == line_fits(*line),
{
    match &line.record {
        None => true,
        Some(rec) => match &rec.event {
            SessionLogEvent::TokenCount(Some(u), rl) => {
                if u.total_tokens.is_none() {
                    let input = match u.input_tokens {
                        Some(v) => v,
                        None => 0,
                    };
                    let output = match u.output_tokens {
                        Some(v) => v,
                        None => 0,
                    };
                    if input.checked_add(output).is_none() {
                        return false;
                    }
                }
                match rl {
                    Some(r) => window_fits_exec(&r.primary) && window_fits_exec(&r.secondary),
                    None => true,
                }
            },
            _ => true,
        },
    }
}

/// Reads the lines of a session log.
///
/// `expected_session_id` is the id that the file's name carries, and
/// `fallback_timestamp` stands for readings that carry no timestamp.
pub fn parse_session_lines(
    lines: &Vec<SessionLogLine>,
    expected_session_id: &Option<String>,
    source_state: &str,
    source_path: &str,
    titles: &Vec<(String, String)>,
    fallback_timestamp: &String,
) -> (r: Result<ParsedSession, String>)
    requires
        forall|i: int| 0 <= i < lines@.len() ==> line_fits(#[trigger] lines@[i]),
    ensures
        ({
            let st = scan_lines(lines@, opt_view(*expected_session_id), fallback_timestamp@);
            let id = final_session_id(st, opt_view(*expected_session_id));
            &&& (r is Err <==> id.len() == 0)
            &&& (r matches Err(e) ==> e@ == "Could not determine session id for "@ + source_path@)
            &&& (r matches Ok(p) ==> {
                &&& p.raw_session.session_id@ == id
                &&& p.raw_session.root_session_id@ == id
                &&& opt_view(p.raw_session.parent_session_id) == chosen_parent(st)
                &&& opt_view(p.raw_session.title) == title_for(titles@, id)
                &&& p.raw_session.source_state@ == source_state@
                &&& opt_view(p.raw_session.source_path) == Some(source_path@)
                &&& opt_view(p.raw_session.started_at) == st.started_at
                &&& opt_view(p.raw_session.updated_at) == st.updated_at
                &&& p.raw_session.model_ids@.map_values(|m: String| m@) == st.seen_models
                &&& !p.raw_session.contains_subagents
                &&& opt_view(p.raw_session.agent_nickname) == chosen_nickname(st)
                &&& opt_view(p.raw_session.agent_role) == chosen_role(st)
                &&& p.snapshots@.map_values(|s: UsageSnapshot| snapshot_view(s)) == st.snapshots
                &&& p.rate_limit_samples@.map_values(|s: SessionRateLimitSample| s@) == st.samples
                &&& p.explicit_fast_mode == st.fast_mode
                &&& opt_view(p.latest_plan_type) == st.latest_plan_type
                &&& opt_view(p.last_model_id) == Some(
                    match st.current_model {
                        Some(m) => m,
                        None => "unknown"@,
                    },
                )
            })
        }),
{
    let mut st = LogScanState {
        session_id: String::new(),
        started_at: None,
        updated_at: None,
        fast_mode: None,
        current_model: None,
        seen_models: Vec::new(),
        first_meta: None,
        matching_meta: None,
        snapshots: Vec::new(),
        samples: Vec::new(),
        latest_plan_type: None,
    };
    assert(st@ =~= empty_scan());
    let mut i: usize = 0;
    while i < lines.len()
        invariant
            i <= lines.len(),
            forall|k: int| 0 <= k < lines@.len() ==> line_fits(#[trigger] lines@[k]),
            st@ == scan_lines(
                lines@.take(i as int),
                opt_view(*expected_session_id),
                fallback_timestamp@,
            ),
        decreases lines.len() - i,
    {
        assert(lines@.take(i as int + 1).drop_last() =~= lines@.take(i as int));
        assert(line_fits(lines@[i as int]));
        line_step_exec(&mut st, &lines[i], expected_session_id, fallback_timestamp);
        i += 1;
    }
    assert(lines@.take(lines.len() as int) =~= lines@);
    let ghost spec_st = st@;
    let LogScanState {
        session_id,
        started_at,
        updated_at,
        fast_mode,
        current_model,
        seen_models,
        first_meta,
        matching_meta,
        snapshots,
        samples,
        latest_plan_type,
    } = st;
    let chosen = match matching_meta {
        Some(m) => Some(m),
        None => first_meta,
    };
    let (mut id, parent, nickname, role) = match chosen {
        Some(c) => (c.session_id, c.parent_session_id, c.agent_nickname, c.agent_role),
        None => (session_id, None, None, None),
    };
    if id.as_str().is_empty() {
        match expected_session_id {
            Some(e) => {
                id = e.clone();
            },
            None => {},
        }
    }
    if id.as_str().is_empty() {
        let mut message = owned("Could not determine session id for ");
        append_str(&mut message, source_path);
        return Err(message);
    }
    let title = title_for_exec(titles, &id);
    let last_model_id = match current_model {
        Some(m) => Some(m),
        None => Some("unknown".to_owned()),
    };
    let raw_session = RawSession {
        session_id: id.clone(),
        parent_session_id: parent,
        root_session_id: id,
        title,
        source_state: owned(source_state),
        source_path: Some(owned(source_path)),
        started_at,
        updated_at,
        model_ids: seen_models,
        contains_subagents: false,
        agent_nickname: nickname,
        agent_role: role,
    };
    Ok(
        ParsedSession {
            raw_session,
            snapshots,
            rate_limit_samples: samples,
            explicit_fast_mode: fast_mode,
            latest_plan_type,
            last_model_id,
        },
    )
}

} // verus!
