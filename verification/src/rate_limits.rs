//! Rate-limit readings: the rows they are stored as, what is read back, and
//! how the stored windows and metadata make up a snapshot again.
use chrono::{Local, LocalResult, Offset, TimeZone};
use vstd::prelude::*;

use crate::importer::opt_view;
use crate::{bool_to_i64, i64_to_bool};
use crate::models::{
    copy_credits, copy_opt_string, copy_window, LiveRateLimitSnapshot, RateLimitCreditsSnapshot,
    RateLimitMetadataSampleRecord, RateLimitSampleRecord, RateLimitWindowSnapshot,
};
use crate::session_log::SessionRateLimitSample;
use crate::text::{append_str, owned};
use crate::timestamps::{latest_of, latest_rate_limit_timestamp, window_minutes, window_minutes_between};

verus! {

// ---------------------------------------------------------------------------
// Small helpers
// ---------------------------------------------------------------------------

/// A stored text column read back: the empty string stands for no value.
pub open spec fn non_empty_view(value: Seq<char>) -> Option<Seq<char>> {
    if value.len() == 0 {
        None
    } else {
        Some(value)
    }
}

/// `None` for the empty string, else the string.
pub fn non_empty(value: String) -> (r: Option<String>)
    ensures
        opt_view(r) == non_empty_view(value@),
        r matches Some(v) ==> v == value,
{
    if value.as_str().is_empty() {
        None
    } else {
        Some(value)
    }
}

/// An optional text written to a column that holds the empty string for
/// no value.
pub open spec fn or_empty(value: Option<String>) -> Seq<char> {
    match value {
        Some(v) => v@,
        None => Seq::empty(),
    }
}

fn or_empty_exec(value: &Option<String>) -> (r: String)
    ensures
        r@ == or_empty(*value),
{
    match value {
        Some(v) => v.clone(),
        None => String::new(),
    }
}

/// A percentage stored within 0..=100.
pub open spec fn clamp_percent(value: i64) -> i64 {
    if value < 0 {
        0
    } else if value > 100 {
        100
    } else {
        value
    }
}

fn clamp_percent_exec(value: i64) -> (r: i64)
    ensures
        r == clamp_percent(value),
{
    if value < 0 {
        0
    } else if value > 100 {
        100
    } else {
        value
    }
}

// ---------------------------------------------------------------------------
// Stored window samples
// ---------------------------------------------------------------------------

/// The columns of one stored window sample.
#[derive(Debug, Clone)]
pub struct RateLimitSampleRow {
    pub source_kind: String,
    pub source_session_id: String,
    pub bucket: String,
    pub sample_timestamp: String,
    pub limit_id: String,
    pub limit_name: String,
    pub plan_type: String,
    pub window_start: String,
    pub resets_at: String,
    pub used_percent: i64,
    pub remaining_percent: i64,
}

/// The row a window sample is stored as: absent texts as empty strings,
/// percentages clamped to 0..=100.
pub open spec fn sample_row_matches(row: RateLimitSampleRow, s: RateLimitSampleRecord) -> bool {
    &&& row.source_kind@ == s.source_kind@
    &&& row.source_session_id@ == or_empty(s.source_session_id)
    &&& row.bucket@ == s.bucket@
    &&& row.sample_timestamp@ == s.sample_timestamp@
    &&& row.limit_id@ == or_empty(s.limit_id)
    &&& row.limit_name@ == or_empty(s.limit_name)
    &&& row.plan_type@ == or_empty(s.plan_type)
    &&& row.window_start@ == s.window_start@
    &&& row.resets_at@ == s.resets_at@
    &&& row.used_percent == clamp_percent(s.used_percent)
    &&& row.remaining_percent == clamp_percent(s.remaining_percent)
}

/// The row a window sample is stored as.
pub fn rate_limit_sample_row(sample: &RateLimitSampleRecord) -> (r: RateLimitSampleRow)
    ensures
        sample_row_matches(r, *sample),
{
    RateLimitSampleRow {
        source_kind: sample.source_kind.clone(),
        source_session_id: or_empty_exec(&sample.source_session_id),
        bucket: sample.bucket.clone(),
        sample_timestamp: sample.sample_timestamp.clone(),
        limit_id: or_empty_exec(&sample.limit_id),
        limit_name: or_empty_exec(&sample.limit_name),
        plan_type: or_empty_exec(&sample.plan_type),
        window_start: sample.window_start.clone(),
        resets_at: sample.resets_at.clone(),
        used_percent: clamp_percent_exec(sample.used_percent),
        remaining_percent: clamp_percent_exec(sample.remaining_percent),
    }
}

/// The latest stored window of one bucket, read back.
#[derive(Debug, Clone)]
pub struct PersistedRateLimitWindow {
    pub snapshot: RateLimitWindowSnapshot,
    pub fetched_at: String,
    pub limit_id: Option<String>,
    pub limit_name: Option<String>,
    pub plan_type: Option<String>,
}

/// What a stored window row reads back as: its texts with the empty ones
/// absent, and the window's length from its two ends.
pub open spec fn window_read_back(w: PersistedRateLimitWindow, row: RateLimitSampleRow) -> bool {
    &&& w.fetched_at@ == row.sample_timestamp@
    &&& opt_view(w.limit_id) == non_empty_view(row.limit_id@)
    &&& opt_view(w.limit_name) == non_empty_view(row.limit_name@)
    &&& opt_view(w.plan_type) == non_empty_view(row.plan_type@)
    &&& w.snapshot.used_percent == row.used_percent
    &&& w.snapshot.remaining_percent == row.remaining_percent
    &&& w.snapshot.window_duration_mins == window_minutes(row.window_start@, row.resets_at@)
    &&& opt_view(w.snapshot.resets_at) == Some(row.resets_at@)
    &&& opt_view(w.snapshot.window_start) == Some(row.window_start@)
}

/// Reads a stored window row back.
pub fn persisted_window_from_row(row: &RateLimitSampleRow) -> (r: PersistedRateLimitWindow)
    ensures
        window_read_back(r, *row),
{
    let window_duration_mins = window_minutes_between(
        row.window_start.as_str(),
        row.resets_at.as_str(),
    );
    PersistedRateLimitWindow {
        snapshot: RateLimitWindowSnapshot {
            used_percent: row.used_percent,
            remaining_percent: row.remaining_percent,
            window_duration_mins,
            resets_at: Some(row.resets_at.clone()),
            window_start: Some(row.window_start.clone()),
        },
        fetched_at: row.sample_timestamp.clone(),
        limit_id: non_empty(row.limit_id.clone()),
        limit_name: non_empty(row.limit_name.clone()),
        plan_type: non_empty(row.plan_type.clone()),
    }
}

/// A window sample, stored and read back, keeps its times, its clamped
/// percentages and its non-empty identity texts, and gets the length its
/// two ends span.
pub proof fn law_window_sample_round_trip(
    sample: RateLimitSampleRecord,
    row: RateLimitSampleRow,
    read: PersistedRateLimitWindow,
)
    requires
        sample_row_matches(row, sample),
        window_read_back(read, row),
    ensures
        read.fetched_at@ == sample.sample_timestamp@,
        opt_view(read.snapshot.window_start) == Some(sample.window_start@),
        opt_view(read.snapshot.resets_at) == Some(sample.resets_at@),
        read.snapshot.used_percent == clamp_percent(sample.used_percent),
        read.snapshot.remaining_percent == clamp_percent(sample.remaining_percent),
        read.snapshot.window_duration_mins == window_minutes(sample.window_start@, sample.resets_at@),
        sample.limit_id matches Some(v) ==> (v@.len() > 0 ==> opt_view(read.limit_id) == Some(v@)),
        sample.limit_id is None ==> read.limit_id is None,
        sample.plan_type matches Some(v) ==> (v@.len() > 0 ==> opt_view(read.plan_type) == Some(v@)),
        sample.plan_type is None ==> read.plan_type is None,
{
}

// ---------------------------------------------------------------------------
// Stored metadata samples
// ---------------------------------------------------------------------------

/// The columns of one stored metadata sample.
#[derive(Debug, Clone)]
pub struct RateLimitMetadataRow {
    pub source_kind: String,
    pub source_session_id: String,
    pub sample_timestamp: String,
    pub limit_id: String,
    pub limit_name: String,
    pub plan_type: String,
    pub credits_has_credits: Option<i64>,
    pub credits_unlimited: Option<i64>,
    pub credits_balance: Option<String>,
    pub rate_limit_reached_type: String,
    pub raw_rate_limits_json: Option<String>,
}

pub open spec fn flag_column(value: Option<bool>) -> Option<i64> {
    match value {
        Some(b) => Some(if b {
            1i64
        } else {
            0i64
        }),
        None => None,
    }
}

pub open spec fn credits_has_credits(c: Option<RateLimitCreditsSnapshot>) -> Option<bool> {
    match c {
        Some(c) => c.has_credits,
        None => None,
    }
}

pub open spec fn credits_unlimited(c: Option<RateLimitCreditsSnapshot>) -> Option<bool> {
    match c {
        Some(c) => c.unlimited,
        None => None,
    }
}

pub open spec fn credits_balance(c: Option<RateLimitCreditsSnapshot>) -> Option<Seq<char>> {
    match c {
        Some(c) => opt_view(c.balance),
        None => None,
    }
}

/// The row a metadata sample is stored as: absent texts as empty strings,
/// the credit flags as 0 or 1.
pub open spec fn metadata_row_matches(row: RateLimitMetadataRow, s: RateLimitMetadataSampleRecord) -> bool {
    &&& row.source_kind@ == s.source_kind@
    &&& row.source_session_id@ == or_empty(s.source_session_id)
    &&& row.sample_timestamp@ == s.sample_timestamp@
    &&& row.limit_id@ == or_empty(s.limit_id)
    &&& row.limit_name@ == or_empty(s.limit_name)
    &&& row.plan_type@ == or_empty(s.plan_type)
    &&& row.credits_has_credits == flag_column(credits_has_credits(s.credits))
    &&& row.credits_unlimited == flag_column(credits_unlimited(s.credits))
    &&& opt_view(row.credits_balance) == credits_balance(s.credits)
    &&& row.rate_limit_reached_type@ == or_empty(s.rate_limit_reached_type)
    &&& opt_view(row.raw_rate_limits_json) == opt_view(s.raw_rate_limits_json)
}

fn flag_column_exec(value: Option<bool>) -> (r: Option<i64>)
    ensures
        r == flag_column(value),
{
    match value {
        Some(b) => Some(bool_to_i64(b)),
        None => None,
    }
}

/// The row a metadata sample is stored as.
pub fn rate_limit_metadata_row(sample: &RateLimitMetadataSampleRecord) -> (r: RateLimitMetadataRow)
    ensures
        metadata_row_matches(r, *sample),
{
    let (has_credits, unlimited, balance) = match &sample.credits {
        Some(c) => (c.has_credits, c.unlimited, copy_opt_string(&c.balance)),
        None => (None, None, None),
    };
    RateLimitMetadataRow {
        source_kind: sample.source_kind.clone(),
        source_session_id: or_empty_exec(&sample.source_session_id),
        sample_timestamp: sample.sample_timestamp.clone(),
        limit_id: or_empty_exec(&sample.limit_id),
        limit_name: or_empty_exec(&sample.limit_name),
        plan_type: or_empty_exec(&sample.plan_type),
        credits_has_credits: flag_column_exec(has_credits),
        credits_unlimited: flag_column_exec(unlimited),
        credits_balance: balance,
        rate_limit_reached_type: or_empty_exec(&sample.rate_limit_reached_type),
        raw_rate_limits_json: copy_opt_string(&sample.raw_rate_limits_json),
    }
}

/// The latest stored account metadata, read back.
#[derive(Debug, Clone)]
pub struct PersistedRateLimitMetadata {
    pub sample_timestamp: String,
    pub limit_id: Option<String>,
    pub limit_name: Option<String>,
    pub plan_type: Option<String>,
    pub credits: Option<RateLimitCreditsSnapshot>,
    pub rate_limit_reached_type: Option<String>,
}

pub open spec fn flag_read(value: Option<i64>) -> Option<bool> {
    match value {
        Some(v) => Some(v != 0),
        None => None,
    }
}

/// What a stored metadata row reads back as: empty texts absent, and
/// credits only where one of their three columns holds a value.
pub open spec fn metadata_read_back(m: PersistedRateLimitMetadata, row: RateLimitMetadataRow) -> bool {
    &&& m.sample_timestamp@ == row.sample_timestamp@
    &&& opt_view(m.limit_id) == non_empty_view(row.limit_id@)
    &&& opt_view(m.limit_name) == non_empty_view(row.limit_name@)
    &&& opt_view(m.plan_type) == non_empty_view(row.plan_type@)
    &&& opt_view(m.rate_limit_reached_type) == non_empty_view(row.rate_limit_reached_type@)
    &&& if row.credits_has_credits is Some || row.credits_unlimited is Some
        || row.credits_balance is Some {
        &&& m.credits is Some
        &&& m.credits->0.has_credits == flag_read(row.credits_has_credits)
        &&& m.credits->0.unlimited == flag_read(row.credits_unlimited)
        &&& opt_view(m.credits->0.balance) == opt_view(row.credits_balance)
    } else {
        m.credits is None
    }
}

fn flag_read_exec(value: Option<i64>) -> (r: Option<bool>)
    ensures
        r == flag_read(value),
{
    match value {
        Some(v) => Some(i64_to_bool(v)),
        None => None,
    }
}

/// Reads a stored metadata row back.
pub fn persisted_metadata_from_row(row: &RateLimitMetadataRow) -> (r: PersistedRateLimitMetadata)
    ensures
        metadata_read_back(r, *row),
{
    let has_credits = flag_read_exec(row.credits_has_credits);
    let unlimited = flag_read_exec(row.credits_unlimited);
    let balance = copy_opt_string(&row.credits_balance);
    let credits = if has_credits.is_some() || unlimited.is_some() || balance.is_some() {
        Some(RateLimitCreditsSnapshot { has_credits, unlimited, balance })
    } else {
        None
    };
    PersistedRateLimitMetadata {
        sample_timestamp: row.sample_timestamp.clone(),
        limit_id: non_empty(row.limit_id.clone()),
        limit_name: non_empty(row.limit_name.clone()),
        plan_type: non_empty(row.plan_type.clone()),
        credits,
        rate_limit_reached_type: non_empty(row.rate_limit_reached_type.clone()),
    }
}

/// The credits a reading carries that can be told from none.
pub open spec fn credits_kept(c: Option<RateLimitCreditsSnapshot>) -> bool {
    match c {
        Some(c) => c.has_credits is Some || c.unlimited is Some || c.balance is Some,
        None => false,
    }
}

/// A metadata sample, stored and read back, keeps its timestamp, its
/// non-empty texts and its credits; credits with no field set read back as
/// none.
pub proof fn law_metadata_round_trip(
    sample: RateLimitMetadataSampleRecord,
    row: RateLimitMetadataRow,
    read: PersistedRateLimitMetadata,
)
    requires
        metadata_row_matches(row, sample),
        metadata_read_back(read, row),
    ensures
        read.sample_timestamp@ == sample.sample_timestamp@,
        opt_view(read.limit_id) == non_empty_view(or_empty(sample.limit_id)),
        opt_view(read.limit_name) == non_empty_view(or_empty(sample.limit_name)),
        opt_view(read.plan_type) == non_empty_view(or_empty(sample.plan_type)),
        opt_view(read.rate_limit_reached_type) == non_empty_view(
            or_empty(sample.rate_limit_reached_type),
        ),
        credits_kept(sample.credits) ==> read.credits is Some && read.credits->0.has_credits
            == sample.credits->0.has_credits && read.credits->0.unlimited
            == sample.credits->0.unlimited && opt_view(read.credits->0.balance) == opt_view(
            sample.credits->0.balance,
        ),
        !credits_kept(sample.credits) ==> read.credits is None,
{
}

// ---------------------------------------------------------------------------
// A live reading
// ---------------------------------------------------------------------------

/// A live reading carries account metadata when it names its limit or plan,
/// has credits, or says which limit was reached.
pub open spec fn has_metadata(s: LiveRateLimitSnapshot) -> bool {
    s.limit_id is Some || s.limit_name is Some || s.plan_type is Some || s.credits is Some
        || s.rate_limit_reached_type is Some
}

/// The metadata sample a live reading is stored as, when it has any.
pub fn rate_limit_metadata_from_live_snapshot(snapshot: &LiveRateLimitSnapshot) -> (r: Option<
    RateLimitMetadataSampleRecord,
>)
    ensures
        r is Some == has_metadata(*snapshot),
        r matches Some(m) ==> {
            &&& m.source_kind@ == "live"@
            &&& m.source_session_id is None
            &&& m.sample_timestamp@ == snapshot.fetched_at@
            &&& m.limit_id == snapshot.limit_id
            &&& m.limit_name == snapshot.limit_name
            &&& m.plan_type == snapshot.plan_type
            &&& m.credits == snapshot.credits
            &&& m.rate_limit_reached_type == snapshot.rate_limit_reached_type
            &&& m.raw_rate_limits_json is None
        },
{
    let carries = snapshot.limit_id.is_some() || snapshot.limit_name.is_some()
        || snapshot.plan_type.is_some() || snapshot.credits.is_some()
        || snapshot.rate_limit_reached_type.is_some();
    if !carries {
        return None;
    }
    Some(
        RateLimitMetadataSampleRecord {
            source_kind: "live".to_owned(),
            source_session_id: None,
            sample_timestamp: snapshot.fetched_at.clone(),
            limit_id: copy_opt_string(&snapshot.limit_id),
            limit_name: copy_opt_string(&snapshot.limit_name),
            plan_type: copy_opt_string(&snapshot.plan_type),
            credits: copy_credits(&snapshot.credits),
            rate_limit_reached_type: copy_opt_string(&snapshot.rate_limit_reached_type),
            raw_rate_limits_json: None,
        },
    )
}

/// A window of a live reading is stored when it knows both its ends.
pub open spec fn window_storable(w: Option<RateLimitWindowSnapshot>) -> bool {
    w matches Some(w) && w.window_start is Some && w.resets_at is Some
}

/// The sample a stored window of a live reading becomes.
pub open spec fn live_sample_matches(
    r: RateLimitSampleRecord,
    snapshot: LiveRateLimitSnapshot,
    bucket: Seq<char>,
    w: RateLimitWindowSnapshot,
) -> bool {
    &&& r.source_kind@ == "live"@
    &&& r.source_session_id is None
    &&& r.bucket@ == bucket
    &&& r.sample_timestamp@ == snapshot.fetched_at@
    &&& r.limit_id == snapshot.limit_id
    &&& r.limit_name == snapshot.limit_name
    &&& r.plan_type == snapshot.plan_type
    &&& r.window_start@ == w.window_start->0@
    &&& r.resets_at@ == w.resets_at->0@
    &&& r.used_percent == w.used_percent
    &&& r.remaining_percent == w.remaining_percent
}

fn live_window_sample(
    snapshot: &LiveRateLimitSnapshot,
    bucket: &str,
    window: &Option<RateLimitWindowSnapshot>,
) -> (r: Option<RateLimitSampleRecord>)
    ensures
        r is Some == window_storable(*window),
        r matches Some(s) ==> live_sample_matches(s, *snapshot, bucket@, window->0),
{
    match window {
        Some(w) => match (&w.window_start, &w.resets_at) {
            (Some(start), Some(resets)) => Some(
                RateLimitSampleRecord {
                    source_kind: "live".to_owned(),
                    source_session_id: None,
                    bucket: bucket.to_owned(),
                    sample_timestamp: snapshot.fetched_at.clone(),
                    limit_id: copy_opt_string(&snapshot.limit_id),
                    limit_name: copy_opt_string(&snapshot.limit_name),
                    plan_type: copy_opt_string(&snapshot.plan_type),
                    window_start: start.clone(),
                    resets_at: resets.clone(),
                    used_percent: w.used_percent,
                    remaining_percent: w.remaining_percent,
                },
            ),
            _ => None,
        },
        None => None,
    }
}

/// The window samples a live reading is stored as: its five-hour window,
/// then its seven-day window, each only where it knows both its ends.
pub fn live_snapshot_samples(snapshot: &LiveRateLimitSnapshot) -> (r: Vec<RateLimitSampleRecord>)
    ensures
        r@.len() == (if window_storable(snapshot.primary) {
            1int
        } else {
            0int
        }) + (if window_storable(snapshot.secondary) {
            1int
        } else {
            0int
        }),
        window_storable(snapshot.primary) ==> live_sample_matches(
            r@[0],
            *snapshot,
            "five_hour"@,
            snapshot.primary->0,
        ),
        window_storable(snapshot.secondary) ==> live_sample_matches(
            r@[r@.len() - 1],
            *snapshot,
            "seven_day"@,
            snapshot.secondary->0,
        ),
{
    let mut samples: Vec<RateLimitSampleRecord> = Vec::new();
    match live_window_sample(snapshot, "five_hour", &snapshot.primary) {
        Some(s) => samples.push(s),
        None => {},
    }
    match live_window_sample(snapshot, "seven_day", &snapshot.secondary) {
        Some(s) => samples.push(s),
        None => {},
    }
    proof {
        reveal_strlit("five_hour");
        reveal_strlit("seven_day");
    }
    samples
}

// ---------------------------------------------------------------------------
// A snapshot from what is stored
// ---------------------------------------------------------------------------

pub open spec fn first_some<T>(a: Option<T>, b: Option<T>, c: Option<T>) -> Option<T> {
    if a is Some {
        a
    } else if b is Some {
        b
    } else {
        c
    }
}

pub open spec fn window_field_id(w: Option<PersistedRateLimitWindow>) -> Option<Seq<char>> {
    match w {
        Some(w) => opt_view(w.limit_id),
        None => None,
    }
}

pub open spec fn window_field_name(w: Option<PersistedRateLimitWindow>) -> Option<Seq<char>> {
    match w {
        Some(w) => opt_view(w.limit_name),
        None => None,
    }
}

pub open spec fn window_field_plan(w: Option<PersistedRateLimitWindow>) -> Option<Seq<char>> {
    match w {
        Some(w) => opt_view(w.plan_type),
        None => None,
    }
}

pub open spec fn window_stamp(w: Option<PersistedRateLimitWindow>) -> Option<String> {
    match w {
        Some(w) => Some(w.fetched_at),
        None => None,
    }
}

pub open spec fn metadata_stamp(m: Option<PersistedRateLimitMetadata>) -> Option<String> {
    match m {
        Some(m) => Some(m.sample_timestamp),
        None => None,
    }
}

/// The three timestamps a stored snapshot is dated by.
pub open spec fn stored_stamps(
    primary: Option<PersistedRateLimitWindow>,
    secondary: Option<PersistedRateLimitWindow>,
    metadata: Option<PersistedRateLimitMetadata>,
) -> Seq<Option<String>> {
    seq![window_stamp(primary), window_stamp(secondary), metadata_stamp(metadata)]
}

/// The snapshot the stored windows and metadata make up: identity texts from
/// the metadata first, then from the five-hour and seven-day windows; credits
/// and the reached limit from the metadata; dated by the latest of the three.
pub open spec fn stored_snapshot_matches(
    s: LiveRateLimitSnapshot,
    primary: Option<PersistedRateLimitWindow>,
    secondary: Option<PersistedRateLimitWindow>,
    metadata: Option<PersistedRateLimitMetadata>,
) -> bool {
    &&& opt_view(s.limit_id) == first_some(
        match metadata {
            Some(m) => opt_view(m.limit_id),
            None => None,
        },
        window_field_id(primary),
        window_field_id(secondary),
    )
    &&& opt_view(s.limit_name) == first_some(
        match metadata {
            Some(m) => opt_view(m.limit_name),
            None => None,
        },
        window_field_name(primary),
        window_field_name(secondary),
    )
    &&& opt_view(s.plan_type) == first_some(
        match metadata {
            Some(m) => opt_view(m.plan_type),
            None => None,
        },
        window_field_plan(primary),
        window_field_plan(secondary),
    )
    &&& s.credits == (match metadata {
        Some(m) => m.credits,
        None => None,
    })
    &&& s.rate_limit_reached_type == (match metadata {
        Some(m) => m.rate_limit_reached_type,
        None => None,
    })
    &&& s.primary == (match primary {
        Some(w) => Some(w.snapshot),
        None => None,
    })
    &&& s.secondary == (match secondary {
        Some(w) => Some(w.snapshot),
        None => None,
    })
    &&& latest_of(stored_stamps(primary, secondary, metadata)) == Some(s.fetched_at@)
}

proof fn lemma_latest_of_present(values: Seq<Option<String>>)
    ensures
        latest_of(values) is Some <==> exists|i: int| 0 <= i < values.len() && #[trigger] values[i] is Some,
    decreases values.len(),
{
    if values.len() > 0 {
        let init = values.drop_last();
        lemma_latest_of_present(init);
        if latest_of(init) is Some {
            let i = choose|i: int| 0 <= i < init.len() && #[trigger] init[i] is Some;
            assert(values[i] is Some);
        } else {
            assert forall|i: int| 0 <= i < values.len() - 1 implies !(#[trigger] values[i] is Some) by {
                assert(init[i] == values[i]);
            }
        }
    }
}

fn opt_or(a: Option<String>, b: Option<String>, c: Option<String>) -> (r: Option<String>)
    ensures
        opt_view(r) == first_some(opt_view(a), opt_view(b), opt_view(c)),
{
    if a.is_some() {
        a
    } else if b.is_some() {
        b
    } else {
        c
    }
}

/// The snapshot made up from the latest stored five-hour window, seven-day
/// window and metadata, or `None` where none of them is stored.
pub fn persisted_live_snapshot(
    primary: Option<PersistedRateLimitWindow>,
    secondary: Option<PersistedRateLimitWindow>,
    metadata: Option<PersistedRateLimitMetadata>,
) -> (r: Option<LiveRateLimitSnapshot>)
    ensures
        r is None <==> (primary is None && secondary is None && metadata is None),
        r matches Some(s) ==> stored_snapshot_matches(s, primary, secondary, metadata),
{
    if primary.is_none() && secondary.is_none() && metadata.is_none() {
        return None;
    }
    let mut stamps: Vec<Option<String>> = Vec::new();
    stamps.push(
        match &primary {
            Some(w) => Some(w.fetched_at.clone()),
            None => None,
        },
    );
    stamps.push(
        match &secondary {
            Some(w) => Some(w.fetched_at.clone()),
            None => None,
        },
    );
    stamps.push(
        match &metadata {
            Some(m) => Some(m.sample_timestamp.clone()),
            None => None,
        },
    );
    proof {
        assert(stamps@ =~= stored_stamps(primary, secondary, metadata));
        lemma_latest_of_present(stamps@);
        if primary is Some {
            assert(stamps@[0] is Some);
        } else if secondary is Some {
            assert(stamps@[1] is Some);
        } else {
            assert(stamps@[2] is Some);
        }
    }
    let fetched_at = match latest_rate_limit_timestamp(&stamps) {
        Some(t) => t,
        None => {
            proof {
                assert(false);
            }
            String::new()
        },
    };
    let (m_id, m_name, m_plan, credits, reached) = match &metadata {
        Some(m) => (
            copy_opt_string(&m.limit_id),
            copy_opt_string(&m.limit_name),
            copy_opt_string(&m.plan_type),
            copy_credits(&m.credits),
            copy_opt_string(&m.rate_limit_reached_type),
        ),
        None => (None, None, None, None, None),
    };
    let (p_id, p_name, p_plan, p_window) = match &primary {
        Some(w) => (
            copy_opt_string(&w.limit_id),
            copy_opt_string(&w.limit_name),
            copy_opt_string(&w.plan_type),
            Some(copy_window(&w.snapshot)),
        ),
        None => (None, None, None, None),
    };
    let (s_id, s_name, s_plan, s_window) = match &secondary {
        Some(w) => (
            copy_opt_string(&w.limit_id),
            copy_opt_string(&w.limit_name),
            copy_opt_string(&w.plan_type),
            Some(copy_window(&w.snapshot)),
        ),
        None => (None, None, None, None),
    };
    Some(
        LiveRateLimitSnapshot {
            limit_id: opt_or(m_id, p_id, s_id),
            limit_name: opt_or(m_name, p_name, s_name),
            plan_type: opt_or(m_plan, p_plan, s_plan),
            credits,
            rate_limit_reached_type: reached,
            primary: p_window,
            secondary: s_window,
            fetched_at,
        },
    )
}

// ---------------------------------------------------------------------------
// Samples read from a session log
// ---------------------------------------------------------------------------

/// The RFC 3339 text that chrono's `DateTime::to_rfc3339` writes for the
/// instant `utc_seconds` (whole seconds since the Unix epoch, no fraction)
/// shown at the UTC offset `offset_seconds`: the local date and time, then
/// the offset rounded to the minute.
pub uninterp spec fn rfc3339_text(utc_seconds: int, offset_seconds: int) -> Seq<char>;

/// A UTC offset that chrono's `FixedOffset` holds: less than a day either way.
pub open spec fn offset_in_range(offset_seconds: int) -> bool {
    -86_400 < offset_seconds < 86_400
}

/// The start of the minute of a clock reading given in seconds.
pub open spec fn minute_floor(clock_seconds: int) -> int {
    clock_seconds - clock_seconds % 60
}

/// An instant from the year 0 to the year 9999, in seconds since the Unix
/// epoch.
pub open spec fn four_digit_year_seconds(seconds: int) -> bool {
    -62_167_219_200 <= seconds <= 253_402_300_799
}

/// An instant chrono's `DateTime` holds: from January 1 of the year -262143
/// to the end of December 31 of the year 262142, in seconds since the Unix
/// epoch.
pub open spec fn chrono_seconds(seconds: int) -> bool {
    -8_334_601_315_200 <= seconds <= 8_210_266_876_799
}

/// `text` renders `seconds` in local time: with `o1` the machine's UTC offset
/// at that instant, either the instant itself at `o1`, or the start of its
/// local minute (the local clock `seconds + o1` with the seconds set to 0) at
/// the offset `o2` that holds at that local time.
pub open spec fn local_minute_text(seconds: int, text: Seq<char>) -> bool {
    exists|o1: int, o2: int|
        #![trigger offset_in_range(o1), offset_in_range(o2)]
        offset_in_range(o1) && offset_in_range(o2) && (text == rfc3339_text(seconds, o1) || text
            == rfc3339_text(minute_floor(seconds + o1) - o2, o2))
}

/// The machine's UTC offset at a UTC instant, in seconds east, from
/// `chrono::Local.timestamp_opt` and the offset's `local_minus_utc`.
/// Claimed: there is one exactly for the instants chrono holds, and it is
/// less than a day. Which offset it is depends on the machine's time zone
/// and is left unsaid.
#[verifier::external_body]
fn local_offset_at(utc_seconds: i64) -> (r: Option<i32>)
    ensures
        r is Some <==> chrono_seconds(utc_seconds as int),
        r matches Some(o) ==> offset_in_range(o as int),
{
    match Local.timestamp_opt(utc_seconds, 0) {
        LocalResult::Single(t) => Some(t.offset().fix().local_minus_utc()),
        LocalResult::Ambiguous(t, _) => Some(t.offset().fix().local_minus_utc()),
        LocalResult::None => None,
    }
}

/// What the local clock reading `clock_seconds` (seconds since the epoch of
/// the local calendar) is in the machine's time zone: no instant, one, or
/// two, each given by its UTC offset.
#[derive(Debug, Clone, Copy)]
pub enum LocalClockOffsets {
    NoInstant,
    One(i32),
    Two(i32, i32),
}

/// Looks a local clock reading up with `chrono::Local.from_local_datetime`,
/// the reading made a `NaiveDateTime` with `DateTime::from_timestamp` (no
/// instant where chrono cannot hold it). Claimed: every offset reported is
/// less than a day. Which readings have none, one or two instants depends
/// on the machine's time zone and is left unsaid.
#[verifier::external_body]
fn local_clock_offsets(clock_seconds: i64) -> (r: LocalClockOffsets)
    ensures
        r matches LocalClockOffsets::One(o) ==> offset_in_range(o as int),
        r matches LocalClockOffsets::Two(a, b) ==> offset_in_range(a as int) && offset_in_range(
            b as int,
        ),
{
    let naive = match chrono::DateTime::from_timestamp(clock_seconds, 0) {
        Some(d) => d.naive_utc(),
        None => return LocalClockOffsets::NoInstant,
    };
    match Local.from_local_datetime(&naive) {
        LocalResult::Single(d) => LocalClockOffsets::One(d.offset().fix().local_minus_utc()),
        LocalResult::Ambiguous(a, b) => LocalClockOffsets::Two(
            a.offset().fix().local_minus_utc(),
            b.offset().fix().local_minus_utc(),
        ),
        LocalResult::None => LocalClockOffsets::NoInstant,
    }
}

/// Writes the instant `utc_seconds` at the UTC offset `offset_seconds` with
/// `DateTime::to_rfc3339` (the instant from `DateTime::from_timestamp`, the
/// offset from `FixedOffset::east_opt`). Claimed: there is a text exactly
/// when chrono holds the instant and the offset is less than a day; it is
/// `rfc3339_text` of the two; and at a whole-minute offset, with a local
/// time from the year 0 to 9999, `parse_from_rfc3339` reads it back as the
/// instant.
#[verifier::external_body]
fn rfc3339_of(utc_seconds: i64, offset_seconds: i32) -> (r: Option<String>)
    ensures
        r is Some <==> (chrono_seconds(utc_seconds as int) && offset_in_range(offset_seconds as int)),
        r matches Some(t) ==> t@ == rfc3339_text(utc_seconds as int, offset_seconds as int),
        r matches Some(t) ==> (offset_seconds % 60 == 0 && four_digit_year_seconds(
            utc_seconds + offset_seconds,
        ) ==> crate::timestamps::rfc3339_instant(t@) == Some((utc_seconds, 0u32))),
{
    let offset = match chrono::FixedOffset::east_opt(offset_seconds) {
        Some(o) => o,
        None => return None,
    };
    match chrono::DateTime::from_timestamp(utc_seconds, 0) {
        Some(t) => Some(t.with_timezone(&offset).to_rfc3339()),
        None => None,
    }
}

/// Renders Unix seconds as local time to the minute, in RFC 3339: the start
/// of the instant's local minute where that local time names exactly one
/// instant that chrono holds, else the instant itself (as in the first
/// minute after clocks go back); `None` for an instant chrono cannot hold.
fn local_minute_rfc3339(seconds: i64) -> (r: Option<String>)
    ensures
        r is Some <==> chrono_seconds(seconds as int),
        r matches Some(t) ==> local_minute_text(seconds as int, t@),
{
    let o1 = match local_offset_at(seconds) {
        Some(o) => o,
        None => {
            return None;
        },
    };
    let clock: i64 = seconds + o1 as i64;
    let within: i64 = if clock % 60 < 0 {
        clock % 60 + 60
    } else {
        clock % 60
    };
    let minute: i64 = clock - within;
    assert(minute == minute_floor(seconds + o1)) by {
        assert(clock as int == seconds + o1);
    }
    match local_clock_offsets(minute) {
        LocalClockOffsets::One(o2) => {
            match rfc3339_of(minute - o2 as i64, o2) {
                Some(t) => {
                    assert(offset_in_range(o1 as int) && offset_in_range(o2 as int));
                    return Some(t);
                },
                None => {},
            }
        },
        _ => {},
    }
    let r = rfc3339_of(seconds, o1);
    assert(r is Some);
    assert(offset_in_range(o1 as int) && offset_in_range(o1 as int));
    r
}

/// The record a sample from a session log is stored as, for the session it
/// came from, once both its times have been rendered; `None` where either
/// could not be.
pub open spec fn session_record_matches(
    r: RateLimitSampleRecord,
    s: SessionRateLimitSample,
    session_id: Seq<char>,
    window_start: Seq<char>,
    resets_at: Seq<char>,
) -> bool {
    &&& r.source_kind@ == "session"@
    &&& opt_view(r.source_session_id) == Some(session_id)
    &&& r.bucket@ == s.bucket@
    &&& r.sample_timestamp@ == s.sample_timestamp@
    &&& r.limit_id == s.limit_id
    &&& r.limit_name == s.limit_name
    &&& r.plan_type == s.plan_type
    &&& r.window_start@ == window_start
    &&& r.resets_at@ == resets_at
    &&& r.used_percent == s.used_percent
    &&& r.remaining_percent == s.remaining_percent
}

/// Builds the stored record of a session sample from its rendered times.
pub fn session_sample_record(
    sample: &SessionRateLimitSample,
    session_id: &str,
    window_start: Option<String>,
    resets_at: Option<String>,
) -> (r: Option<RateLimitSampleRecord>)
    ensures
        r is Some <==> (window_start is Some && resets_at is Some),
        r matches Some(rec) ==> session_record_matches(
            rec,
            *sample,
            session_id@,
            window_start->0@,
            resets_at->0@,
        ),
{
    match (window_start, resets_at) {
        (Some(start), Some(resets)) => Some(
            RateLimitSampleRecord {
                source_kind: "session".to_owned(),
                source_session_id: Some(session_id.to_owned()),
                bucket: sample.bucket.clone(),
                sample_timestamp: sample.sample_timestamp.clone(),
                limit_id: copy_opt_string(&sample.limit_id),
                limit_name: copy_opt_string(&sample.limit_name),
                plan_type: copy_opt_string(&sample.plan_type),
                window_start: start,
                resets_at: resets,
                used_percent: sample.used_percent,
                remaining_percent: sample.remaining_percent,
            },
        ),
        _ => None,
    }
}

/// `records` are stored records of distinct `samples`, in the samples'
/// order, record `k` being that of sample `origin[k]` with its window start
/// and reset time rendered in local time; every sample whose two times
/// chrono holds has a record.
pub open spec fn records_from_samples(
    records: Seq<RateLimitSampleRecord>,
    samples: Seq<SessionRateLimitSample>,
    session_id: Seq<char>,
    origin: Seq<int>,
) -> bool {
    &&& origin.len() == records.len()
    &&& forall|a: int, b: int| 0 <= a < b < origin.len() ==> origin[a] < origin[b]
    &&& forall|k: int|
        0 <= k < records.len() ==> 0 <= #[trigger] origin[k] < samples.len() && session_record_matches(
            records[k],
            samples[origin[k]],
            session_id,
            records[k].window_start@,
            records[k].resets_at@,
        ) && local_minute_text(samples[origin[k]].window_start_seconds as int, records[k].window_start@)
            && local_minute_text(samples[origin[k]].resets_at_seconds as int, records[k].resets_at@)
    &&& forall|i: int|
        0 <= i < samples.len() && chrono_seconds(#[trigger] samples[i].window_start_seconds as int)
            && chrono_seconds(samples[i].resets_at_seconds as int) ==> exists|k: int|
            0 <= k < origin.len() && origin[k] == i
}

/// The stored records of the samples of a session log, in order, each for
/// the session and with its window start and reset time rendered in local
/// time; only a sample with a time chrono cannot hold can be left out.
pub fn session_rate_limit_records(samples: &Vec<SessionRateLimitSample>, session_id: &str) -> (r: Vec<RateLimitSampleRecord>)
    ensures
        r@.len() <= samples@.len(),
        exists|origin: Seq<int>| #[trigger] records_from_samples(r@, samples@, session_id@, origin),
{
    let mut out: Vec<RateLimitSampleRecord> = Vec::new();
    let ghost mut origin: Seq<int> = Seq::empty();
    let mut i: usize = 0;
    while i < samples.len()
        invariant
            i <= samples.len(),
            out@.len() == origin.len(),
            out@.len() <= i,
            forall|a: int, b: int| 0 <= a < b < origin.len() ==> origin[a] < origin[b],
            forall|k: int|
                0 <= k < out@.len() ==> 0 <= #[trigger] origin[k] < i && session_record_matches(
                    out@[k],
                    samples@[origin[k]],
                    session_id@,
                    out@[k].window_start@,
                    out@[k].resets_at@,
                ) && local_minute_text(samples@[origin[k]].window_start_seconds as int, out@[k].window_start@)
                    && local_minute_text(samples@[origin[k]].resets_at_seconds as int, out@[k].resets_at@),
            forall|j: int|
                0 <= j < i && chrono_seconds(#[trigger] samples@[j].window_start_seconds as int)
                    && chrono_seconds(samples@[j].resets_at_seconds as int) ==> exists|k: int|
                    0 <= k < origin.len() && origin[k] == j,
        decreases samples.len() - i,
    {
        let sample = &samples[i];
        let resets_at = local_minute_rfc3339(sample.resets_at_seconds);
        let window_start = local_minute_rfc3339(sample.window_start_seconds);
        match session_sample_record(sample, session_id, window_start, resets_at) {
            Some(rec) => {
                out.push(rec);
                proof {
                    let ghost before = origin;
                    origin = origin.push(i as int);
                    assert(origin[origin.len() - 1] == i as int);
                    assert forall|j: int|
                        0 <= j < i + 1 && chrono_seconds(
                            #[trigger] samples@[j].window_start_seconds as int,
                        ) && chrono_seconds(samples@[j].resets_at_seconds as int)
                        implies exists|k: int| 0 <= k < origin.len() && origin[k] == j by {
                        if j < i {
                            let k = choose|k: int| 0 <= k < before.len() && before[k] == j;
                            assert(origin[k] == j);
                        } else {
                            assert(origin[origin.len() - 1] == j);
                        }
                    }
                }
            },
            None => {},
        }
        i += 1;
    }
    assert(records_from_samples(out@, samples@, session_id@, origin));
    out
}


// ---------------------------------------------------------------------------
// Answering a request for live rate limits
// ---------------------------------------------------------------------------

/// What the Codex app-server answered when asked for live rate limits: the
/// account's shared limits, the limits of one model only, or a failure.
#[derive(Debug, Clone)]
pub enum LiveQuery {
    Shared(LiveRateLimitSnapshot),
    ModelSpecific(LiveRateLimitSnapshot),
    Failed(String),
}

/// What a request for live rate limits answers, and what is done besides:
/// the snapshot the app-server sent, to be stored; whether the answer goes
/// into the memory cache; and whether the session history was to be
/// rescanned for its latest quota sample.
#[derive(Debug)]
pub struct LiveRateLimitsAnswer {
    pub result: Result<LiveRateLimitSnapshot, String>,
    pub persist: Option<LiveRateLimitSnapshot>,
    pub cache: bool,
    pub rescan_history: bool,
}

/// The `Debug` text of an optional string, as `format!("{:?}", ..)` writes
/// it.
pub uninterp spec fn debug_text_of(value: Option<Seq<char>>) -> Seq<char>;

/// Writes an optional string with its `Debug` impl (`format!("{:?}")`).
/// Claimed: the text depends on the value alone; it is named
/// `debug_text_of`.
#[verifier::external_body]
fn debug_of_optional_text(value: &Option<String>) -> (r: String)
    ensures
        r@ == debug_text_of(opt_view(*value)),
{
    format!("{:?}", value)
}

/// Whether an answer of the app-server sends the request to the session
/// history: every answer but the shared limits does.
pub fn live_query_needs_history(query: &LiveQuery) -> (r: bool)
    ensures
        r == !(query is Shared),
{
    match query {
        LiveQuery::Shared(_) => false,
        _ => true,
    }
}

/// The name, else the id, of the limits a snapshot holds.
pub open spec fn identity_of(s: LiveRateLimitSnapshot) -> Option<Seq<char>> {
    match s.limit_name {
        Some(n) => Some(n@),
        None => opt_view(s.limit_id),
    }
}

/// The error of a request answered with one model's limits.
pub open spec fn model_specific_error(s: LiveRateLimitSnapshot) -> Seq<char> {
    "Codex app-server returned a model-specific rate limit ("@ + debug_text_of(identity_of(s))
        + "); ignoring it."@
}

/// The first of the fallbacks that holds a snapshot: the latest quota sample
/// of the session history, then an older stored live sample, then the
/// memory cache.
pub open spec fn first_fallback(
    session_sourced: Option<LiveRateLimitSnapshot>,
    stored: Option<LiveRateLimitSnapshot>,
    cached: Option<LiveRateLimitSnapshot>,
) -> Option<LiveRateLimitSnapshot> {
    match session_sourced {
        Some(s) => Some(s),
        None => match stored {
            Some(s) => Some(s),
            None => cached,
        },
    }
}

/// The answer a request for live rate limits gets, as
/// `live_rate_limits_answer` describes it.
pub open spec fn live_answer_holds(
    r: LiveRateLimitsAnswer,
    fresh_cache: Option<LiveRateLimitSnapshot>,
    query: LiveQuery,
    session_sourced: Option<LiveRateLimitSnapshot>,
    stored: Option<LiveRateLimitSnapshot>,
    cached: Option<LiveRateLimitSnapshot>,
) -> bool {
    let fallback = first_fallback(session_sourced, stored, cached);
    match fresh_cache {
        Some(f) => r.result == Ok::<LiveRateLimitSnapshot, String>(f) && r.persist is None && !r.cache
            && !r.rescan_history,
        None => match query {
            LiveQuery::Shared(s) => r.result == Ok::<LiveRateLimitSnapshot, String>(s) && r.persist
                == Some(s) && r.cache && !r.rescan_history,
            LiveQuery::ModelSpecific(s) => {
                &&& r.persist == Some(s)
                &&& r.rescan_history
                &&& match fallback {
                    Some(f) => r.result == Ok::<LiveRateLimitSnapshot, String>(f) && r.cache,
                    None => {
                        &&& r.result is Err
                        &&& r.result->Err_0@ == model_specific_error(s)
                        &&& !r.cache
                    },
                }
            },
            LiveQuery::Failed(e) => {
                &&& r.persist is None
                &&& r.rescan_history
                &&& match fallback {
                    Some(f) => r.result == Ok::<LiveRateLimitSnapshot, String>(f) && r.cache,
                    None => r.result == Err::<LiveRateLimitSnapshot, String>(e) && !r.cache,
                }
            },
        },
    }
}

/// Answers a request for live rate limits. A fresh cached snapshot is
/// answered as it is. Otherwise the app-server's shared limits are answered,
/// stored and cached. Any other answer is stored where it is a snapshot,
/// and the first fallback is answered and cached; with none, the request
/// fails with the app-server's error, or with a model-specific answer's own
/// error.
pub fn live_rate_limits_answer(
    fresh_cache: Option<LiveRateLimitSnapshot>,
    query: LiveQuery,
    session_sourced: Option<LiveRateLimitSnapshot>,
    stored: Option<LiveRateLimitSnapshot>,
    cached: Option<LiveRateLimitSnapshot>,
) -> (r: LiveRateLimitsAnswer)
    ensures
        live_answer_holds(r, fresh_cache, query, session_sourced, stored, cached),
{
    if let Some(f) = fresh_cache {
        return LiveRateLimitsAnswer { result: Ok(f), persist: None, cache: false, rescan_history: false };
    }
    let fallback = match session_sourced {
        Some(s) => Some(s),
        None => match stored {
            Some(s) => Some(s),
            None => cached,
        },
    };
    let (persist, error) = match query {
        LiveQuery::Shared(s) => {
            let kept = copy_live_snapshot(&s);
            return LiveRateLimitsAnswer {
                result: Ok(s),
                persist: Some(kept),
                cache: true,
                rescan_history: false,
            };
        },
        LiveQuery::ModelSpecific(s) => {
            let identity = match &s.limit_name {
                Some(n) => Some(n.clone()),
                None => copy_opt_string(&s.limit_id),
            };
            let mut message = owned("Codex app-server returned a model-specific rate limit (");
            append_str(&mut message, debug_of_optional_text(&identity).as_str());
            append_str(&mut message, "); ignoring it.");
            (Some(s), message)
        },
        LiveQuery::Failed(e) => (None, e),
    };
    match fallback {
        Some(f) => LiveRateLimitsAnswer { result: Ok(f), persist, cache: true, rescan_history: true },
        None => LiveRateLimitsAnswer { result: Err(error), persist, cache: false, rescan_history: true },
    }
}

/// An owned copy of a live snapshot.
fn copy_live_snapshot(s: &LiveRateLimitSnapshot) -> (r: LiveRateLimitSnapshot)
    ensures
        r == *s,
{
    LiveRateLimitSnapshot {
        limit_id: copy_opt_string(&s.limit_id),
        limit_name: copy_opt_string(&s.limit_name),
        plan_type: copy_opt_string(&s.plan_type),
        credits: copy_credits(&s.credits),
        rate_limit_reached_type: copy_opt_string(&s.rate_limit_reached_type),
        primary: match &s.primary {
            Some(w) => Some(copy_window(w)),
            None => None,
        },
        secondary: match &s.secondary {
            Some(w) => Some(copy_window(w)),
            None => None,
        },
        fetched_at: s.fetched_at.clone(),
    }
}


/// Law: without a fresh cache, a request that the app-server does not answer
/// with the shared limits is answered with the latest quota sample of the
/// session history whenever there is one, whatever the stored samples and
/// the memory cache hold; with none, with an older stored sample before the
/// memory cache; and only with none of the three does it fail.
pub proof fn law_live_fallback_prefers_session_history(
    r: LiveRateLimitsAnswer,
    query: LiveQuery,
    session_sourced: Option<LiveRateLimitSnapshot>,
    stored: Option<LiveRateLimitSnapshot>,
    cached: Option<LiveRateLimitSnapshot>,
)
    requires
        live_answer_holds(r, None, query, session_sourced, stored, cached),
        !(query is Shared),
    ensures
        session_sourced matches Some(s) ==> r.result == Ok::<LiveRateLimitSnapshot, String>(s),
        session_sourced is None ==> (stored matches Some(s) ==> r.result == Ok::<
            LiveRateLimitSnapshot,
            String,
        >(s)),
        session_sourced is None && stored is None ==> (cached matches Some(s) ==> r.result == Ok::<
            LiveRateLimitSnapshot,
            String,
        >(s)),
        r.result is Err <==> (session_sourced is None && stored is None && cached is None),
        r.rescan_history,
{
}


/// Law: a fresh cached snapshot answers a request whatever else is known,
/// and without one the app-server's shared limits answer it whatever the
/// history, the stored samples and the cache hold.
pub proof fn law_live_answer_prefers_fresh_cache_then_shared_limits(
    r: LiveRateLimitsAnswer,
    fresh_cache: Option<LiveRateLimitSnapshot>,
    query: LiveQuery,
    session_sourced: Option<LiveRateLimitSnapshot>,
    stored: Option<LiveRateLimitSnapshot>,
    cached: Option<LiveRateLimitSnapshot>,
)
    requires
        live_answer_holds(r, fresh_cache, query, session_sourced, stored, cached),
    ensures
        fresh_cache matches Some(f) ==> r.result == Ok::<LiveRateLimitSnapshot, String>(f),
        fresh_cache is None ==> (query matches LiveQuery::Shared(s) ==> r.result == Ok::<
            LiveRateLimitSnapshot,
            String,
        >(s)),
{
}

} // verus!
