//! Turning Codex session logs into sessions, usage events and rate-limit
//! samples: the decisions of a scan.
use vstd::prelude::*;

use crate::models::{TokenUsage, UsageSnapshot};
use crate::session_log::{insert_model, ParsedSession};
use crate::text::{
    trim_seq, trim_str, owned, chars_of, is_hex_ascii, join_parts, join_seq, parts_view, split_chars, split_seq, str_eq,
    string_from_chars,
};

verus! {

// ---------------------------------------------------------------------------
// Usage deltas
// ---------------------------------------------------------------------------

/// Every counter of `a` is at most the same counter of `b`.
pub open spec fn usage_le(a: TokenUsage, b: TokenUsage) -> bool {
    &&& a.input_tokens <= b.input_tokens
    &&& a.cached_input_tokens <= b.cached_input_tokens
    &&& a.output_tokens <= b.output_tokens
    &&& a.reasoning_output_tokens <= b.reasoning_output_tokens
    &&& a.total_tokens <= b.total_tokens
}

pub open spec fn fits_i64(x: int) -> bool {
    i64::MIN <= x <= i64::MAX
}

/// Counter-wise sum, as mathematical integers.
pub open spec fn usage_add(a: TokenUsage, b: TokenUsage) -> TokenUsage {
    TokenUsage {
        input_tokens: (a.input_tokens + b.input_tokens) as i64,
        cached_input_tokens: (a.cached_input_tokens + b.cached_input_tokens) as i64,
        output_tokens: (a.output_tokens + b.output_tokens) as i64,
        reasoning_output_tokens: (a.reasoning_output_tokens + b.reasoning_output_tokens) as i64,
        total_tokens: (a.total_tokens + b.total_tokens) as i64,
    }
}

/// The subtraction that `diff_usage` performs does not overflow.
pub open spec fn diff_fits(previous: TokenUsage, current: TokenUsage) -> bool {
    usage_le(previous, current) ==> {
        &&& fits_i64(current.input_tokens - previous.input_tokens)
        &&& fits_i64(current.cached_input_tokens - previous.cached_input_tokens)
        &&& fits_i64(current.output_tokens - previous.output_tokens)
        &&& fits_i64(current.reasoning_output_tokens - previous.reasoning_output_tokens)
        &&& fits_i64(current.total_tokens - previous.total_tokens)
    }
}

/// The usage added between two cumulative readings; a reading where any
/// counter went down is a reset, and counts in full.
pub open spec fn usage_delta(previous: TokenUsage, current: TokenUsage) -> TokenUsage {
    if usage_le(previous, current) {
        TokenUsage {
            input_tokens: (current.input_tokens - previous.input_tokens) as i64,
            cached_input_tokens: (current.cached_input_tokens - previous.cached_input_tokens) as i64,
            output_tokens: (current.output_tokens - previous.output_tokens) as i64,
            reasoning_output_tokens: (current.reasoning_output_tokens
                - previous.reasoning_output_tokens) as i64,
            total_tokens: (current.total_tokens - previous.total_tokens) as i64,
        }
    } else {
        current
    }
}

pub open spec fn zero_usage() -> TokenUsage {
    TokenUsage {
        input_tokens: 0,
        cached_input_tokens: 0,
        output_tokens: 0,
        reasoning_output_tokens: 0,
        total_tokens: 0,
    }
}

/// The usage added between two cumulative readings.
pub fn diff_usage(previous: &TokenUsage, current: &TokenUsage) -> (r: TokenUsage)
    requires
        diff_fits(*previous, *current),
    ensures
        r == usage_delta(*previous, *current),
{
    if current.input_tokens < previous.input_tokens || current.cached_input_tokens
        < previous.cached_input_tokens || current.output_tokens < previous.output_tokens
        || current.reasoning_output_tokens < previous.reasoning_output_tokens
        || current.total_tokens < previous.total_tokens {
        return *current;
    }
    TokenUsage {
        input_tokens: current.input_tokens - previous.input_tokens,
        cached_input_tokens: current.cached_input_tokens - previous.cached_input_tokens,
        output_tokens: current.output_tokens - previous.output_tokens,
        reasoning_output_tokens: current.reasoning_output_tokens
            - previous.reasoning_output_tokens,
        total_tokens: current.total_tokens - previous.total_tokens,
    }
}

/// Whether a delta adds nothing at all.
pub fn is_zero_delta(delta: &TokenUsage) -> (r: bool)
    ensures
        r == (*delta == zero_usage()),
{
    delta.total_tokens == 0 && delta.input_tokens == 0 && delta.cached_input_tokens == 0
        && delta.output_tokens == 0 && delta.reasoning_output_tokens == 0
}

/// The delta that reading `i` of `readings` contributes: the first counts in
/// full, each later one against the reading before it.
pub open spec fn reading_delta(readings: Seq<TokenUsage>, i: int) -> TokenUsage {
    if i == 0 {
        readings[0]
    } else {
        usage_delta(readings[i - 1], readings[i])
    }
}

/// The usage events a session's readings produce: the position of each
/// reading that adds something, with what it adds.
pub open spec fn usage_events(readings: Seq<TokenUsage>) -> Seq<(int, TokenUsage)>
    decreases readings.len(),
{
    if readings.len() == 0 {
        Seq::<(int, TokenUsage)>::empty()
    } else {
        let before = usage_events(readings.drop_last());
        let i = readings.len() - 1;
        let d = reading_delta(readings, i);
        if d == zero_usage() {
            before
        } else {
            before.push((i, d))
        }
    }
}

/// The consecutive readings of `readings` can be subtracted without overflow.
pub open spec fn readings_fit(readings: Seq<TokenUsage>) -> bool {
    forall|i: int| 0 < i < readings.len() ==> diff_fits(#[trigger] readings[i - 1], readings[i])
}

/// Counter-wise sum of the usage carried by `events`.
pub open spec fn events_total(events: Seq<(int, TokenUsage)>) -> TokenUsage
    decreases events.len(),
{
    if events.len() == 0 {
        zero_usage()
    } else {
        usage_add(events_total(events.drop_last()), events.last().1)
    }
}

/// The usage events that a session's cumulative readings produce, in order.
pub fn usage_event_deltas(readings: &Vec<TokenUsage>) -> (r: Vec<(usize, TokenUsage)>)
    requires
        readings_fit(readings@),
    ensures
        r@.len() == usage_events(readings@).len(),
        forall|k: int|
            0 <= k < r@.len() ==> (#[trigger] r@[k]).0 as int == usage_events(readings@)[k].0
                && r@[k].1 == usage_events(readings@)[k].1,
{
    let mut events: Vec<(usize, TokenUsage)> = Vec::new();
    let mut i: usize = 0;
    while i < readings.len()
        invariant
            i <= readings.len(),
            readings_fit(readings@),
            events@.len() == usage_events(readings@.take(i as int)).len(),
            forall|k: int|
                0 <= k < events@.len() ==> (#[trigger] events@[k]).0 as int == usage_events(
                    readings@.take(i as int),
                )[k].0 && events@[k].1 == usage_events(readings@.take(i as int))[k].1,
        decreases readings.len() - i,
    {
        let ghost prefix = readings@.take(i as int + 1);
        assert(prefix.drop_last() =~= readings@.take(i as int));
        let delta = if i == 0 {
            readings[0]
        } else {
            assert(diff_fits(readings@[i - 1], readings@[i as int]));
            diff_usage(&readings[i - 1], &readings[i])
        };
        assert(delta == reading_delta(prefix, i as int));
        if !is_zero_delta(&delta) {
            events.push((i, delta));
        }
        i += 1;
    }
    assert(readings@.take(readings.len() as int) =~= readings@);
    events
}

/// The cumulative readings of a session's usage snapshots.
pub open spec fn readings_of(snapshots: Seq<UsageSnapshot>) -> Seq<TokenUsage> {
    snapshots.map_values(|s: UsageSnapshot| s.usage)
}

/// A usage event as stored: when, for which model, and what it adds.
#[derive(Debug, Clone)]
pub struct UsageEventRow {
    pub timestamp: String,
    pub model_id: String,
    pub usage: TokenUsage,
}

/// The usage events of a session's snapshots: for each snapshot that adds
/// something, its time, its model id normalized, and what it adds.
pub fn session_usage_events(snapshots: &Vec<UsageSnapshot>) -> (r: Vec<UsageEventRow>)
    requires
        readings_fit(readings_of(snapshots@)),
    ensures
        r@.len() == usage_events(readings_of(snapshots@)).len(),
        forall|k: int|
            0 <= k < r@.len() ==> {
                let e = usage_events(readings_of(snapshots@))[k];
                &&& 0 <= e.0 < snapshots@.len()
                &&& (#[trigger] r@[k]).timestamp@ == snapshots@[e.0].timestamp@
                &&& r@[k].model_id@ == crate::pricing::normalized_model_id(snapshots@[e.0].model_id@)
                &&& r@[k].usage == e.1
            },
{
    let mut readings: Vec<TokenUsage> = Vec::new();
    let mut i: usize = 0;
    while i < snapshots.len()
        invariant
            i <= snapshots@.len(),
            readings@ == readings_of(snapshots@).take(i as int),
        decreases snapshots.len() - i,
    {
        readings.push(snapshots[i].usage);
        assert(readings_of(snapshots@).take(i + 1) =~= readings_of(snapshots@).take(i as int).push(
            snapshots@[i as int].usage,
        ));
        i += 1;
    }
    assert(readings@ =~= readings_of(snapshots@));
    let events = usage_event_deltas(&readings);
    proof {
        lemma_usage_event_positions(readings@);
    }
    let mut rows: Vec<UsageEventRow> = Vec::new();
    let mut k: usize = 0;
    while k < events.len()
        invariant
            k <= events@.len(),
            readings@ == readings_of(snapshots@),
            events@.len() == usage_events(readings@).len(),
            forall|m: int|
                0 <= m < events@.len() ==> (#[trigger] events@[m]).0 as int == usage_events(
                    readings@,
                )[m].0 && events@[m].1 == usage_events(readings@)[m].1,
            forall|m: int|
                0 <= m < usage_events(readings@).len() ==> 0 <= #[trigger] usage_events(readings@)[m].0
                    < readings@.len(),
            rows@.len() == k,
            forall|m: int|
                0 <= m < k ==> {
                    let e = usage_events(readings_of(snapshots@))[m];
                    &&& (#[trigger] rows@[m]).timestamp@ == snapshots@[e.0].timestamp@
                    &&& rows@[m].model_id@ == crate::pricing::normalized_model_id(
                        snapshots@[e.0].model_id@,
                    )
                    &&& rows@[m].usage == e.1
                },
        decreases events.len() - k,
    {
        let (at, usage) = events[k];
        assert(usage_events(readings@)[k as int].0 == at as int);
        let snapshot = &snapshots[at];
        rows.push(
            UsageEventRow {
                timestamp: snapshot.timestamp.clone(),
                model_id: crate::pricing::normalize_model_id(snapshot.model_id.as_str()),
                usage,
            },
        );
        k += 1;
    }
    rows
}

/// The events of readings name positions among them.
proof fn lemma_usage_event_positions(readings: Seq<TokenUsage>)
    ensures
        forall|m: int|
            0 <= m < usage_events(readings).len() ==> 0 <= #[trigger] usage_events(readings)[m].0
                < readings.len(),
    decreases readings.len(),
{
    if readings.len() > 0 {
        let before = usage_events(readings.drop_last());
        lemma_usage_event_positions(readings.drop_last());
        assert forall|m: int|
            0 <= m < usage_events(readings).len() implies 0 <= #[trigger] usage_events(readings)[m].0
                < readings.len() by {
            if m < before.len() {
                assert(usage_events(readings)[m] == before[m]);
            }
        }
    }
}

/// Readings that never go down: a session log that grows without resets.
pub open spec fn readings_monotone(readings: Seq<TokenUsage>) -> bool {
    forall|i: int| 0 < i < readings.len() ==> usage_le(#[trigger] readings[i - 1], readings[i])
}

/// Law: when a session's readings never go down, the usage events that are
/// billed add up to exactly the last reading, so no usage is billed twice and
/// none is lost.
pub proof fn law_usage_events_total_last_reading(readings: Seq<TokenUsage>)
    requires
        readings.len() > 0,
        readings_monotone(readings),
        readings_fit(readings),
    ensures
        events_total(usage_events(readings)) == readings.last(),
    decreases readings.len(),
{
    let i = readings.len() - 1;
    if i == 0 {
        let e = usage_events(readings);
        assert(readings.drop_last().len() == 0);
        assert(usage_events(readings.drop_last()).len() == 0);
        assert(reading_delta(readings, 0) == readings[0]);
        if readings[0] == zero_usage() {
            assert(e.len() == 0);
            assert(events_total(e) == zero_usage());
        } else {
            assert(e =~= seq![(0int, readings[0])]);
            assert(e.drop_last() =~= Seq::<(int, TokenUsage)>::empty());
            assert(events_total(e.drop_last()) == zero_usage());
            assert(events_total(e) == usage_add(zero_usage(), readings[0]));
        }
    } else {
        let shorter = readings.drop_last();
        assert forall|k: int| 0 < k < shorter.len() implies usage_le(
            #[trigger] shorter[k - 1],
            shorter[k],
        ) by {
            assert(usage_le(readings[k - 1], readings[k]));
        }
        assert forall|k: int| 0 < k < shorter.len() implies diff_fits(
            #[trigger] shorter[k - 1],
            shorter[k],
        ) by {
            assert(diff_fits(readings[k - 1], readings[k]));
        }
        law_usage_events_total_last_reading(shorter);
        assert(usage_le(readings[i - 1], readings[i]));
        assert(diff_fits(readings[i - 1], readings[i]));
        let d = reading_delta(readings, i);
        let e = usage_events(readings);
        assert(shorter.last() == readings[i - 1]);
        if d == zero_usage() {
            assert(e == usage_events(shorter));
            assert(readings[i] == readings[i - 1]);
        } else {
            assert(e.drop_last() == usage_events(shorter));
            assert(e.last().1 == d);
            assert(events_total(e) == usage_add(readings[i - 1], d));
        }
    }
}

/// Law: as a session log grows, the usage events of what was read before
/// stay as they were, and the new readings only add events after them; a
/// rescan of a longer log never changes what was already billed.
pub proof fn law_usage_events_grow_with_the_log(readings: Seq<TokenUsage>, n: int)
    requires
        0 <= n <= readings.len(),
    ensures
        usage_events(readings.take(n)).len() <= usage_events(readings).len(),
        usage_events(readings.take(n)) == usage_events(readings).take(
            usage_events(readings.take(n)).len() as int,
        ),
    decreases readings.len(),
{
    if n == readings.len() {
        assert(readings.take(n) =~= readings);
        assert(usage_events(readings).take(usage_events(readings).len() as int)
            =~= usage_events(readings));
    } else {
        let shorter = readings.drop_last();
        assert(shorter.take(n) =~= readings.take(n));
        law_usage_events_grow_with_the_log(shorter, n);
        let before = usage_events(shorter);
        let all = usage_events(readings);
        let part = usage_events(readings.take(n));
        assert(part == before.take(part.len() as int));
        if reading_delta(readings, readings.len() - 1) == zero_usage() {
            assert(all == before);
        } else {
            assert(all == before.push((readings.len() - 1, reading_delta(readings, readings.len() - 1))));
            assert(all.take(part.len() as int) =~= before.take(part.len() as int));
        }
    }
}

// ---------------------------------------------------------------------------
// Conversation topology
// ---------------------------------------------------------------------------

/// What the database already knows of a session that is being re-imported.
#[derive(Debug, Clone)]
pub struct ExistingSessionRelation {
    pub exists: bool,
    pub parent_session_id: Option<String>,
    pub child_count: usize,
}

/// How the conversation links must be maintained after importing a session.
#[derive(Debug, Clone, Copy, PartialEq, Eq, Structural)]
pub enum TopologyMaintenance {
    Unchanged,
    InsertRootLink,
    RecomputeAll,
}

pub open spec fn opt_view(o: Option<String>) -> Option<Seq<char>> {
    match o {
        Some(s) => Some(s@),
        None => None,
    }
}

pub open spec fn opt_str_view(o: Option<&str>) -> Option<Seq<char>> {
    match o {
        Some(s) => Some(s@),
        None => None,
    }
}

/// The maintenance a re-imported session needs: none when it already exists
/// under the same parent, a root link when it is a new root nobody points
/// to, and a full recomputation otherwise.
pub open spec fn topology_for(
    existing: Option<ExistingSessionRelation>,
    existing_child_count: nat,
    parent: Option<Seq<char>>,
) -> TopologyMaintenance {
    match existing {
        Some(rel) if rel.exists => if opt_view(rel.parent_session_id) == parent {
            TopologyMaintenance::Unchanged
        } else {
            TopologyMaintenance::RecomputeAll
        },
        _ => if parent is Some {
            TopologyMaintenance::RecomputeAll
        } else if existing_child_count > 0 {
            TopologyMaintenance::RecomputeAll
        } else {
            TopologyMaintenance::InsertRootLink
        },
    }
}

/// Equality of two optional string slices by content.
pub fn opt_str_eq(a: Option<&str>, b: Option<&str>) -> (r: bool)
    ensures
        r == (opt_str_view(a) == opt_str_view(b)),
{
    match (a, b) {
        (Some(x), Some(y)) => str_eq(x, y),
        (None, None) => true,
        _ => false,
    }
}

pub fn classify_topology_maintenance(
    existing_relation: Option<&ExistingSessionRelation>,
    existing_child_count: usize,
    parent_session_id: Option<&str>,
) -> (r: TopologyMaintenance)
    ensures
        r == topology_for(
            match existing_relation {
                Some(rel) => Some(*rel),
                None => None,
            },
            existing_child_count as nat,
            opt_str_view(parent_session_id),
        ),
{
    match existing_relation {
        Some(rel) if rel.exists => {
            let existing_parent: Option<&str> = match &rel.parent_session_id {
                Some(p) => Some(p.as_str()),
                None => None,
            };
            if opt_str_eq(existing_parent, parent_session_id) {
                TopologyMaintenance::Unchanged
            } else {
                TopologyMaintenance::RecomputeAll
            }
        },
        _ => {
            if parent_session_id.is_some() {
                TopologyMaintenance::RecomputeAll
            } else if existing_child_count > 0 {
                TopologyMaintenance::RecomputeAll
            } else {
                TopologyMaintenance::InsertRootLink
            }
        },
    }
}


// ---------------------------------------------------------------------------
// Session ids
// ---------------------------------------------------------------------------

/// A Codex session id: five hexadecimal groups of 8, 4, 4, 4 and 12
/// characters separated by `-`.
pub open spec fn is_session_id(value: Seq<char>) -> bool {
    let parts = split_seq(value, '-');
    &&& parts.len() == 5
    &&& parts[0].len() == 8
    &&& parts[1].len() == 4
    &&& parts[2].len() == 4
    &&& parts[3].len() == 4
    &&& parts[4].len() == 12
    &&& all_hex_seq(parts[0])
    &&& all_hex_seq(parts[1])
    &&& all_hex_seq(parts[2])
    &&& all_hex_seq(parts[3])
    &&& all_hex_seq(parts[4])
}

pub open spec fn all_hex_seq(s: Seq<char>) -> bool {
    forall|j: int| 0 <= j < s.len() ==> is_hex_ascii(#[trigger] s[j])
}

/// The session id that a log file's name ends with, if any: the last five
/// `-`-separated pieces of the name, when they form a session id.
pub open spec fn session_id_in_stem(stem: Seq<char>) -> Option<Seq<char>> {
    let parts = split_seq(stem, '-');
    if parts.len() < 5 {
        None
    } else {
        let candidate = join_seq(parts.subrange(parts.len() - 5, parts.len() as int), seq!['-']);
        if is_session_id(candidate) {
            Some(candidate)
        } else {
            None
        }
    }
}

fn all_hex(s: &Vec<char>) -> (r: bool)
    ensures
        r == all_hex_seq(s@),
{
    let mut i: usize = 0;
    while i < s.len()
        invariant
            i <= s.len(),
            forall|j: int| 0 <= j < i ==> is_hex_ascii(#[trigger] s@[j]),
        decreases s.len() - i,
    {
        let c = s[i];
        if !(('0' <= c && c <= '9') || ('a' <= c && c <= 'f') || ('A' <= c && c <= 'F')) {
            return false;
        }
        i += 1;
    }
    true
}

/// Whether `value` has the shape of a Codex session id.
pub fn looks_like_session_id(value: &str) -> (r: bool)
    ensures
        r == is_session_id(value@),
{
    let chars = chars_of(value);
    looks_like_session_id_chars(&chars)
}

fn looks_like_session_id_chars(value: &Vec<char>) -> (r: bool)
    ensures
        r == is_session_id(value@),
{
    let parts = split_chars(value, '-');
    let ghost sp = split_seq(value@, '-');
    if parts.len() != 5 {
        return false;
    }
    if parts[0].len() != 8 || parts[1].len() != 4 || parts[2].len() != 4 || parts[3].len() != 4
        || parts[4].len() != 12 {
        assert(parts@[0]@ == sp[0] && parts@[1]@ == sp[1] && parts@[2]@ == sp[2]
            && parts@[3]@ == sp[3] && parts@[4]@ == sp[4]);
        return false;
    }
    assert(parts@[0]@ == sp[0] && parts@[1]@ == sp[1] && parts@[2]@ == sp[2]
        && parts@[3]@ == sp[3] && parts@[4]@ == sp[4]);
    all_hex(&parts[0]) && all_hex(&parts[1]) && all_hex(&parts[2]) && all_hex(&parts[3])
        && all_hex(&parts[4])
}

/// The session id that a log file's name carries, if any; `file_stem` is
/// the file's name without its extension.
pub fn fallback_session_id_from_filename(file_stem: &str) -> (r: Option<String>)
    ensures
        opt_view(r) == session_id_in_stem(file_stem@),
{
    let chars = chars_of(file_stem);
    let parts = split_chars(&chars, '-');
    let ghost sp = split_seq(file_stem@, '-');
    if parts.len() < 5 {
        return None;
    }
    let sep = vec!['-'];
    let candidate = join_parts(&parts, parts.len() - 5, parts.len(), &sep);
    assert(parts_view(parts@) =~= sp);
    assert(sep@ =~= seq!['-']);
    if looks_like_session_id_chars(&candidate) {
        Some(string_from_chars(&candidate))
    } else {
        None
    }
}


// ---------------------------------------------------------------------------
// Which files a scan re-reads
// ---------------------------------------------------------------------------

/// A session log found under the Codex home.
#[derive(Debug, Clone)]
pub struct SessionFile {
    pub path: String,
    pub file_stem: String,
    pub bucket: String,
    pub file_size: i64,
    pub file_mtime_ms: i64,
}

/// What the last import recorded of a log file.
#[derive(Debug, Clone)]
pub struct ImportState {
    pub source_path: String,
    pub session_id: Option<String>,
    pub file_size: i64,
    pub file_mtime_ms: i64,
}

/// The recorded session id differs from the one the file's name carries.
pub open spec fn session_id_mismatch(state: ImportState, file: SessionFile) -> bool {
    match session_id_in_stem(file.file_stem@) {
        Some(expected) => match state.session_id {
            Some(id) => id@ != expected,
            None => false,
        },
        None => false,
    }
}

/// Whether the import state records a different session than the file's
/// name carries.
pub fn import_state_session_id_mismatch(state: &ImportState, session_file: &SessionFile) -> (r: bool)
    ensures
        r == session_id_mismatch(*state, *session_file),
{
    match fallback_session_id_from_filename(session_file.file_stem.as_str()) {
        Some(expected) => match &state.session_id {
            Some(id) => !str_eq(id.as_str(), expected.as_str()),
            None => false,
        },
        None => false,
    }
}

/// The import state recorded for `path`: the last one listed for it.
pub open spec fn state_for(states: Seq<ImportState>, path: Seq<char>) -> Option<ImportState>
    decreases states.len(),
{
    if states.len() == 0 {
        None
    } else if states.last().source_path@ == path {
        Some(states.last())
    } else {
        state_for(states.drop_last(), path)
    }
}

/// A file is skipped when its recorded size, modification time and session
/// all still hold; a back-fill of rate-limit samples re-reads everything.
pub open spec fn file_unchanged(states: Seq<ImportState>, file: SessionFile, needs_backfill: bool) -> bool {
    !needs_backfill && match state_for(states, file.path@) {
        Some(st) => st.file_size == file.file_size && st.file_mtime_ms == file.file_mtime_ms
            && !session_id_mismatch(st, file),
        None => false,
    }
}

/// The files a scan must re-read, and the sessions of the ones it skips.
#[derive(Debug, Clone)]
pub struct ScanSelection {
    pub changed_files: Vec<usize>,
    pub unchanged_session_ids: Vec<String>,
}

pub open spec fn changed_indices(
    files: Seq<SessionFile>,
    states: Seq<ImportState>,
    needs_backfill: bool,
) -> Seq<int>
    decreases files.len(),
{
    if files.len() == 0 {
        Seq::<int>::empty()
    } else {
        let before = changed_indices(files.drop_last(), states, needs_backfill);
        if file_unchanged(states, files.last(), needs_backfill) {
            before
        } else {
            before.push(files.len() - 1)
        }
    }
}

pub open spec fn kept_session_ids(
    files: Seq<SessionFile>,
    states: Seq<ImportState>,
    needs_backfill: bool,
) -> Seq<Seq<char>>
    decreases files.len(),
{
    if files.len() == 0 {
        Seq::<Seq<char>>::empty()
    } else {
        let before = kept_session_ids(files.drop_last(), states, needs_backfill);
        if file_unchanged(states, files.last(), needs_backfill) {
            match state_for(states, files.last().path@).unwrap().session_id {
                Some(id) => before.push(id@),
                None => before,
            }
        } else {
            before
        }
    }
}

fn state_for_exec<'a>(states: &'a Vec<ImportState>, path: &String) -> (r: Option<&'a ImportState>)
    ensures
        match r {
            Some(st) => state_for(states@, path@) == Some(*st),
            None => state_for(states@, path@) is None,
        },
{
    let mut i = states.len();
    assert(states@.take(i as int) =~= states@);
    while i > 0
        invariant
            i <= states.len(),
            state_for(states@, path@) == state_for(states@.take(i as int), path@),
        decreases i,
    {
        assert(states@.take(i as int).drop_last() =~= states@.take(i - 1));
        if str_eq(states[i - 1].source_path.as_str(), path.as_str()) {
            return Some(&states[i - 1]);
        }
        i -= 1;
    }
    None
}

/// Decides which session logs a scan re-reads.
pub fn select_changed_session_files(
    files: &Vec<SessionFile>,
    states: &Vec<ImportState>,
    needs_backfill: bool,
) -> (r: ScanSelection)
    ensures
        r.changed_files@.len() == changed_indices(files@, states@, needs_backfill).len(),
        forall|k: int|
            0 <= k < r.changed_files@.len() ==> #[trigger] r.changed_files@[k] as int
                == changed_indices(files@, states@, needs_backfill)[k],
        r.unchanged_session_ids@.map_values(|s: String| s@) == kept_session_ids(
            files@,
            states@,
            needs_backfill,
        ),
{
    let mut changed: Vec<usize> = Vec::new();
    let mut kept: Vec<String> = Vec::new();
    let mut i: usize = 0;
    while i < files.len()
        invariant
            i <= files.len(),
            changed@.len() == changed_indices(files@.take(i as int), states@, needs_backfill).len(),
            forall|k: int|
                0 <= k < changed@.len() ==> #[trigger] changed@[k] as int == changed_indices(
                    files@.take(i as int),
                    states@,
                    needs_backfill,
                )[k],
            kept@.map_values(|s: String| s@) == kept_session_ids(
                files@.take(i as int),
                states@,
                needs_backfill,
            ),
        decreases files.len() - i,
    {
        let ghost pre = files@.take(i as int + 1);
        assert(pre.drop_last() =~= files@.take(i as int));
        assert(pre.last() == files@[i as int]);
        let file = &files[i];
        let mut unchanged = false;
        if !needs_backfill {
            match state_for_exec(states, &file.path) {
                Some(st) => {
                    if st.file_size == file.file_size && st.file_mtime_ms == file.file_mtime_ms
                        && !import_state_session_id_mismatch(st, file) {
                        unchanged = true;
                        match &st.session_id {
                            Some(id) => {
                                let ghost before = kept@.map_values(|s: String| s@);
                                kept.push(id.clone());
                                assert(kept@.map_values(|s: String| s@) =~= before.push(id@));
                            },
                            None => {},
                        }
                    }
                },
                None => {},
            }
        }
        assert(unchanged == file_unchanged(states@, files@[i as int], needs_backfill));
        if !unchanged {
            changed.push(i);
        }
        i += 1;
    }
    assert(files@.take(files.len() as int) =~= files@);
    ScanSelection { changed_files: changed, unchanged_session_ids: kept }
}


// ---------------------------------------------------------------------------
// What a scan does with the logs it re-read
// ---------------------------------------------------------------------------

/// The relation recorded for `id`: the last one listed for it.
pub open spec fn relation_for(
    relations: Seq<(String, ExistingSessionRelation)>,
    id: Seq<char>,
) -> Option<ExistingSessionRelation>
    decreases relations.len(),
{
    if relations.len() == 0 {
        None
    } else if relations.last().0@ == id {
        Some(relations.last().1)
    } else {
        relation_for(relations.drop_last(), id)
    }
}

/// What a session's own row tells of it: it exists, under `parent`; what
/// was counted of its children stays.
pub open spec fn note_session(
    known: Option<(bool, Option<Seq<char>>, nat)>,
    parent: Option<Seq<char>>,
) -> Option<(bool, Option<Seq<char>>, nat)> {
    match known {
        Some((_, _, children)) => Some((true, parent, children)),
        None => Some((true, parent, 0)),
    }
}

/// What a row naming a session as its parent tells of it: one child more.
pub open spec fn note_child(known: Option<(bool, Option<Seq<char>>, nat)>) -> Option<
    (bool, Option<Seq<char>>, nat),
> {
    match known {
        Some((exists, parent, children)) => Some((exists, parent, children + 1)),
        None => Some((false, None, 1)),
    }
}

/// What the `(session, parent)` rows of the database tell of the session
/// `id`: whether it has a row, the parent its last row gives, and how many
/// rows name it as their parent; none where no row mentions it.
pub open spec fn known_relation(rows: Seq<(String, Option<String>)>, id: Seq<char>) -> Option<
    (bool, Option<Seq<char>>, nat),
>
    decreases rows.len(),
{
    if rows.len() == 0 {
        None
    } else {
        let before = known_relation(rows.drop_last(), id);
        let row = rows.last();
        let seen = if row.0@ == id {
            note_session(before, opt_view(row.1))
        } else {
            before
        };
        if opt_view(row.1) == Some(id) {
            note_child(seen)
        } else {
            seen
        }
    }
}

pub open spec fn relation_view(r: ExistingSessionRelation) -> (bool, Option<Seq<char>>, nat) {
    (r.exists, opt_view(r.parent_session_id), r.child_count as nat)
}

/// `out` holds one entry for each session id that `f` knows, with what `f`
/// knows of it.
pub open spec fn relations_of(
    out: Seq<(String, ExistingSessionRelation)>,
    f: spec_fn(Seq<char>) -> Option<(bool, Option<Seq<char>>, nat)>,
) -> bool {
    &&& forall|a: int, b: int| 0 <= a < b < out.len() ==> out[a].0@ != out[b].0@
    &&& forall|k: int|
        0 <= k < out.len() ==> f(#[trigger] out[k].0@) == Some(relation_view(out[k].1))
    &&& forall|id: Seq<char>|
        (#[trigger] f(id)) is Some ==> exists|k: int| 0 <= k < out.len() && out[k].0@ == id
}

fn position_of(out: &Vec<(String, ExistingSessionRelation)>, id: &str) -> (r: Option<usize>)
    ensures
        match r {
            Some(k) => k < out@.len() && out@[k as int].0@ == id@,
            None => forall|k: int| 0 <= k < out@.len() ==> out@[k].0@ != id@,
        },
{
    let mut k: usize = 0;
    while k < out.len()
        invariant
            k <= out@.len(),
            forall|j: int| 0 <= j < k ==> out@[j].0@ != id@,
        decreases out.len() - k,
    {
        if str_eq(out[k].0.as_str(), id) {
            return Some(k);
        }
        k += 1;
    }
    None
}

/// What the database knows of each session before a scan, from its
/// `(session, parent)` rows: one entry per session id that a row mentions.
pub fn existing_session_relations(rows: &Vec<(String, Option<String>)>) -> (r: Vec<
    (String, ExistingSessionRelation),
>)
    ensures
        relations_of(r@, |id: Seq<char>| known_relation(rows@, id)),
{
    let mut out: Vec<(String, ExistingSessionRelation)> = Vec::new();
    let mut i: usize = 0;
    while i < rows.len()
        invariant
            i <= rows@.len(),
            relations_of(out@, |id: Seq<char>| known_relation(rows@.take(i as int), id)),
            forall|k: int| 0 <= k < out@.len() ==> #[trigger] out@[k].1.child_count <= i,
        decreases rows.len() - i,
    {
        let ghost before = |id: Seq<char>| known_relation(rows@.take(i as int), id);
        let ghost sid = rows@[i as int].0@;
        let ghost pv = opt_view(rows@[i as int].1);
        let ghost seen = |id: Seq<char>|
            if id == sid {
                note_session(before(id), pv)
            } else {
                before(id)
            };
        let ghost out0 = out@;
        match position_of(&out, rows[i].0.as_str()) {
            Some(k) => {
                let children = out[k].1.child_count;
                let key = out[k].0.clone();
                out.set(
                    k,
                    (
                        key,
                        ExistingSessionRelation {
                            exists: true,
                            parent_session_id: crate::models::copy_opt_string(&rows[i].1),
                            child_count: children,
                        },
                    ),
                );
                assert forall|a: int, b: int| 0 <= a < b < out@.len() implies out@[a].0@
                    != out@[b].0@ by {
                    assert(out0[a].0@ != out0[b].0@);
                }
                assert forall|j: int| 0 <= j < out@.len() implies seen(#[trigger] out@[j].0@)
                    == Some(relation_view(out@[j].1)) by {
                    if j != k {
                        assert(out0[j].0@ != out0[k as int].0@);
                    }
                }
                assert forall|id: Seq<char>| (#[trigger] seen(id)) is Some implies exists|j: int|
                    0 <= j < out@.len() && out@[j].0@ == id by {
                    if id == sid {
                        assert(out@[k as int].0@ == id);
                    } else {
                        assert(before(id) is Some);
                        let j = choose|j: int| 0 <= j < out0.len() && out0[j].0@ == id;
                        assert(out@[j].0@ == id);
                    }
                }
            },
            None => {
                assert(before(sid) is None) by {
                    if before(sid) is Some {
                        let j = choose|j: int| 0 <= j < out0.len() && out0[j].0@ == sid;
                        assert(out0[j].0@ == sid);
                    }
                }
                out.push(
                    (
                        rows[i].0.clone(),
                        ExistingSessionRelation {
                            exists: true,
                            parent_session_id: crate::models::copy_opt_string(&rows[i].1),
                            child_count: 0,
                        },
                    ),
                );
                assert forall|j: int| 0 <= j < out@.len() implies seen(#[trigger] out@[j].0@)
                    == Some(relation_view(out@[j].1)) by {
                    if j < out0.len() {
                        assert(out0[j].0@ != sid);
                    }
                }
                assert forall|id: Seq<char>| (#[trigger] seen(id)) is Some implies exists|j: int|
                    0 <= j < out@.len() && out@[j].0@ == id by {
                    if id == sid {
                        assert(out@[out0.len() as int].0@ == id);
                    } else {
                        assert(before(id) is Some);
                        let j = choose|j: int| 0 <= j < out0.len() && out0[j].0@ == id;
                        assert(out@[j].0@ == id);
                    }
                }
            },
        }
        assert(relations_of(out@, seen));
        let ghost after = |id: Seq<char>|
            if pv == Some(id) {
                note_child(seen(id))
            } else {
                seen(id)
            };
        let ghost out1 = out@;
        match &rows[i].1 {
            Some(parent) => {
                match position_of(&out, parent.as_str()) {
                    Some(k) => {
                        let exists = out[k].1.exists;
                        let grand = crate::models::copy_opt_string(&out[k].1.parent_session_id);
                        let children = out[k].1.child_count;
                        let key = out[k].0.clone();
                        out.set(
                            k,
                            (
                                key,
                                ExistingSessionRelation {
                                    exists,
                                    parent_session_id: grand,
                                    child_count: children + 1,
                                },
                            ),
                        );
                        assert forall|a: int, b: int| 0 <= a < b < out@.len() implies out@[a].0@
                            != out@[b].0@ by {
                            assert(out1[a].0@ != out1[b].0@);
                        }
                        assert forall|j: int| 0 <= j < out@.len() implies after(
                            #[trigger] out@[j].0@,
                        ) == Some(relation_view(out@[j].1)) by {
                            if j != k {
                                assert(out1[j].0@ != out1[k as int].0@);
                            }
                        }
                        assert forall|id: Seq<char>| (#[trigger] after(id)) is Some implies exists|
                            j: int,
                        | 0 <= j < out@.len() && out@[j].0@ == id by {
                            if pv == Some(id) {
                                assert(out@[k as int].0@ == id);
                            } else {
                                assert(seen(id) is Some);
                                let j = choose|j: int| 0 <= j < out1.len() && out1[j].0@ == id;
                                assert(out@[j].0@ == id);
                            }
                        }
                    },
                    None => {
                        assert(seen(parent@) is None) by {
                            if seen(parent@) is Some {
                                let j = choose|j: int|
                                    0 <= j < out1.len() && out1[j].0@ == parent@;
                                assert(out1[j].0@ == parent@);
                            }
                        }
                        out.push(
                            (
                                parent.clone(),
                                ExistingSessionRelation {
                                    exists: false,
                                    parent_session_id: None,
                                    child_count: 1,
                                },
                            ),
                        );
                        assert forall|j: int| 0 <= j < out@.len() implies after(
                            #[trigger] out@[j].0@,
                        ) == Some(relation_view(out@[j].1)) by {
                            if j < out1.len() {
                                assert(out1[j].0@ != parent@);
                            }
                        }
                        assert forall|id: Seq<char>| (#[trigger] after(id)) is Some implies exists|
                            j: int,
                        | 0 <= j < out@.len() && out@[j].0@ == id by {
                            if pv == Some(id) {
                                assert(out@[out1.len() as int].0@ == id);
                            } else {
                                assert(seen(id) is Some);
                                let j = choose|j: int| 0 <= j < out1.len() && out1[j].0@ == id;
                                assert(out@[j].0@ == id);
                            }
                        }
                    },
                }
            },
            None => {},
        }
        assert(relations_of(out@, after));
        proof {
            assert(rows@.take(i + 1).drop_last() =~= rows@.take(i as int));
            assert(rows@.take(i + 1).last() == rows@[i as int]);
            assert forall|id: Seq<char>| #[trigger] known_relation(rows@.take(i + 1), id) == after(
                id,
            ) by {}
        }
        i += 1;
    }
    proof {
        assert(rows@.take(i as int) =~= rows@);
    }
    out
}

/// The maintenance that importing `p` calls for.
pub open spec fn maintenance_for(
    relations: Seq<(String, ExistingSessionRelation)>,
    p: ParsedSession,
) -> TopologyMaintenance {
    let rel = relation_for(relations, p.raw_session.session_id@);
    topology_for(
        rel,
        match rel {
            Some(r) => r.child_count as nat,
            None => 0,
        },
        opt_view(p.raw_session.parent_session_id),
    )
}

/// `items` added one by one to `acc`, skipping those already present.
pub open spec fn insert_all(acc: Seq<Seq<char>>, items: Seq<Seq<char>>) -> Seq<Seq<char>>
    decreases items.len(),
{
    if items.len() == 0 {
        acc
    } else {
        insert_model(insert_all(acc, items.drop_last()), items.last())
    }
}

/// The ids of the logs that were read successfully, in order.
pub open spec fn parsed_ids(parsed: Seq<Result<ParsedSession, String>>) -> Seq<Seq<char>>
    decreases parsed.len(),
{
    if parsed.len() == 0 {
        Seq::<Seq<char>>::empty()
    } else {
        let before = parsed_ids(parsed.drop_last());
        match parsed.last() {
            Ok(p) => before.push(p.raw_session.session_id@),
            Err(_) => before,
        }
    }
}

/// The sessions that become new roots of their own conversation.
pub open spec fn new_root_ids(
    parsed: Seq<Result<ParsedSession, String>>,
    relations: Seq<(String, ExistingSessionRelation)>,
) -> Seq<Seq<char>>
    decreases parsed.len(),
{
    if parsed.len() == 0 {
        Seq::<Seq<char>>::empty()
    } else {
        let before = new_root_ids(parsed.drop_last(), relations);
        match parsed.last() {
            Ok(p) => if maintenance_for(relations, p) == TopologyMaintenance::InsertRootLink {
                before.push(p.raw_session.session_id@)
            } else {
                before
            },
            Err(_) => before,
        }
    }
}

/// Some re-read session needs the conversation links recomputed.
pub open spec fn needs_recompute(
    parsed: Seq<Result<ParsedSession, String>>,
    relations: Seq<(String, ExistingSessionRelation)>,
) -> bool {
    exists|k: int| 0 <= k < parsed.len() && #[trigger] entry_recomputes(parsed[k], relations)
}

/// Reading `e` succeeded and calls for recomputing all links.
pub open spec fn entry_recomputes(
    e: Result<ParsedSession, String>,
    relations: Seq<(String, ExistingSessionRelation)>,
) -> bool {
    match e {
        Ok(p) => maintenance_for(relations, p) == TopologyMaintenance::RecomputeAll,
        Err(_) => false,
    }
}

/// What a scan decided: which sessions it imported, which of them start a
/// conversation of their own, whether all links must be recomputed, and how
/// many sessions it re-read.
#[derive(Debug, Clone)]
pub struct ScanOutcome {
    pub imported_session_ids: Vec<String>,
    pub new_root_session_ids: Vec<String>,
    pub topology_dirty: bool,
    pub updated_sessions: usize,
}

pub open spec fn ok_count(parsed: Seq<Result<ParsedSession, String>>) -> nat {
    parsed_ids(parsed).len()
}

fn relation_for_exec<'a>(
    relations: &'a Vec<(String, ExistingSessionRelation)>,
    id: &String,
) -> (r: Option<&'a ExistingSessionRelation>)
    ensures
        match r {
            Some(rel) => relation_for(relations@, id@) == Some(*rel),
            None => relation_for(relations@, id@) is None,
        },
{
    let mut i = relations.len();
    assert(relations@.take(i as int) =~= relations@);
    while i > 0
        invariant
            i <= relations.len(),
            relation_for(relations@, id@) == relation_for(relations@.take(i as int), id@),
        decreases i,
    {
        assert(relations@.take(i as int).drop_last() =~= relations@.take(i - 1));
        if str_eq(relations[i - 1].0.as_str(), id.as_str()) {
            return Some(&relations[i - 1].1);
        }
        i -= 1;
    }
    None
}

/// Decides what a scan does with the logs it re-read: `kept_session_ids`
/// are the sessions of the files it skipped, `parsed` the outcome of reading
/// each re-read file, and `relations` what the database knew of sessions
/// and their parents before the scan.
pub fn perform_scan(
    kept_session_ids: &Vec<String>,
    parsed: &Vec<Result<ParsedSession, String>>,
    relations: &Vec<(String, ExistingSessionRelation)>,
) -> (r: ScanOutcome)
    ensures
        r.imported_session_ids@.map_values(|s: String| s@) == insert_all(
            insert_all(Seq::<Seq<char>>::empty(), kept_session_ids@.map_values(|s: String| s@)),
            parsed_ids(parsed@),
        ),
        r.new_root_session_ids@.map_values(|s: String| s@) == new_root_ids(parsed@, relations@),
        r.topology_dirty == needs_recompute(parsed@, relations@),
        r.updated_sessions as nat == ok_count(parsed@),
{
    let mut imported: Vec<String> = Vec::new();
    let ghost kept_view = kept_session_ids@.map_values(|s: String| s@);
    let mut i: usize = 0;
    while i < kept_session_ids.len()
        invariant
            i <= kept_session_ids.len(),
            kept_view == kept_session_ids@.map_values(|s: String| s@),
            imported@.map_values(|s: String| s@) == insert_all(
                Seq::<Seq<char>>::empty(),
                kept_view.take(i as int),
            ),
        decreases kept_session_ids.len() - i,
    {
        assert(kept_view.take(i as int + 1).drop_last() =~= kept_view.take(i as int));
        crate::session_log::insert_model_exec(&mut imported, kept_session_ids[i].clone());
        i += 1;
    }
    assert(kept_view.take(kept_session_ids.len() as int) =~= kept_view);
    let ghost base = imported@.map_values(|s: String| s@);
    let mut roots: Vec<String> = Vec::new();
    let mut dirty = false;
    let mut updated: usize = 0;
    let mut j: usize = 0;
    while j < parsed.len()
        invariant
            j <= parsed.len(),
            imported@.map_values(|s: String| s@) == insert_all(base, parsed_ids(parsed@.take(j as int))),
            roots@.map_values(|s: String| s@) == new_root_ids(parsed@.take(j as int), relations@),
            dirty == needs_recompute(parsed@.take(j as int), relations@),
            updated as nat == ok_count(parsed@.take(j as int)),
            updated <= j,
        decreases parsed.len() - j,
    {
        let ghost pre = parsed@.take(j as int + 1);
        assert(pre.drop_last() =~= parsed@.take(j as int));
        assert(pre.last() == parsed@[j as int]);
        let ghost ids_before = parsed_ids(parsed@.take(j as int));
        match &parsed[j] {
            Ok(p) => {
                let id = &p.raw_session.session_id;
                assert(parsed_ids(pre) == ids_before.push(id@));
                assert(parsed_ids(pre).drop_last() =~= ids_before);
                crate::session_log::insert_model_exec(&mut imported, id.clone());
                let rel = relation_for_exec(relations, id);
                let child_count = match rel {
                    Some(r) => r.child_count,
                    None => 0,
                };
                let parent: Option<&str> = match &p.raw_session.parent_session_id {
                    Some(x) => Some(x.as_str()),
                    None => None,
                };
                let m = classify_topology_maintenance(rel, child_count, parent);
                assert(m == maintenance_for(relations@, *p));
                if m == TopologyMaintenance::InsertRootLink {
                    let ghost before = roots@.map_values(|s: String| s@);
                    roots.push(id.clone());
                    assert(roots@.map_values(|s: String| s@) =~= before.push(id@));
                }
                if m == TopologyMaintenance::RecomputeAll {
                    dirty = true;
                    assert(entry_recomputes(pre[j as int], relations@));
                } else {
                    proof {
                        if needs_recompute(pre, relations@) {
                            let k = choose|k: int|
                                0 <= k < pre.len() && #[trigger] entry_recomputes(pre[k], relations@);
                            assert(k < j);
                            assert(pre[k] == parsed@.take(j as int)[k]);
                        }
                    }
                }
                updated += 1;
            },
            Err(_) => {
                proof {
                    if needs_recompute(pre, relations@) {
                        let k = choose|k: int|
                            0 <= k < pre.len() && #[trigger] entry_recomputes(pre[k], relations@);
                        assert(k < j);
                        assert(pre[k] == parsed@.take(j as int)[k]);
                    }
                }
            },
        }
        proof {
            if needs_recompute(parsed@.take(j as int), relations@) {
                let k = choose|k: int|
                    0 <= k < j && #[trigger] entry_recomputes(parsed@.take(j as int)[k], relations@);
                assert(pre[k] == parsed@.take(j as int)[k]);
            }
        }
        j += 1;
    }
    assert(parsed@.take(parsed.len() as int) =~= parsed@);
    ScanOutcome {
        imported_session_ids: imported,
        new_root_session_ids: roots,
        topology_dirty: dirty,
        updated_sessions: updated,
    }
}


// ---------------------------------------------------------------------------
// Conversation roots
// ---------------------------------------------------------------------------

/// The parent recorded for `id`: `None` when `id` is not listed, or is
/// listed without a parent. The last listing of an id counts.
pub open spec fn parent_entry(parents: Seq<(String, Option<String>)>, id: Seq<char>) -> Option<Option<Seq<char>>>
    decreases parents.len(),
{
    if parents.len() == 0 {
        None
    } else if parents.last().0@ == id {
        Some(opt_view(parents.last().1))
    } else {
        parent_entry(parents.drop_last(), id)
    }
}

pub open spec fn parent_of(parents: Seq<(String, Option<String>)>, id: Seq<char>) -> Option<Seq<char>> {
    match parent_entry(parents, id) {
        Some(Some(p)) => Some(p),
        _ => None,
    }
}

/// The session reached from `start` by following parent links `n` times,
/// staying put at a session without a parent.
pub open spec fn ancestor(parents: Seq<(String, Option<String>)>, start: Seq<char>, n: nat) -> Seq<char>
    decreases n,
{
    if n == 0 {
        start
    } else {
        let a = ancestor(parents, start, (n - 1) as nat);
        match parent_of(parents, a) {
            Some(p) => p,
            None => a,
        }
    }
}

/// `root`, `depth` is where following parent links from `start` ends: the
/// first ancestor that has no parent or that was already visited.
pub open spec fn resolves_to(
    parents: Seq<(String, Option<String>)>,
    start: Seq<char>,
    root: Seq<char>,
    depth: nat,
) -> bool {
    &&& root == ancestor(parents, start, depth)
    &&& forall|j: nat| j < depth ==> parent_of(parents, #[trigger] ancestor(parents, start, j)) is Some
    &&& forall|i: nat, j: nat|
        i < j < depth ==> #[trigger] ancestor(parents, start, i) != #[trigger] ancestor(parents, start, j)
    &&& (parent_of(parents, root) is None || exists|i: nat|
        i < depth && #[trigger] ancestor(parents, start, i) == root)
}

pub open spec fn keys_of(parents: Seq<(String, Option<String>)>) -> Seq<Seq<char>> {
    parents.map_values(|e: (String, Option<String>)| e.0@)
}

proof fn lemma_parent_entry_key(parents: Seq<(String, Option<String>)>, id: Seq<char>)
    requires
        parent_entry(parents, id) is Some,
    ensures
        keys_of(parents).contains(id),
    decreases parents.len(),
{
    if parents.last().0@ == id {
        assert(keys_of(parents)[parents.len() - 1] == id);
    } else {
        lemma_parent_entry_key(parents.drop_last(), id);
        let k = choose|k: int| 0 <= k < keys_of(parents.drop_last()).len() && keys_of(parents.drop_last())[k] == id;
        assert(keys_of(parents)[k] == id);
    }
}

proof fn lemma_distinct_keys_bound(seen: Seq<Seq<char>>, keys: Seq<Seq<char>>)
    requires
        seen.no_duplicates(),
        forall|i: int| 0 <= i < seen.len() ==> keys.contains(#[trigger] seen[i]),
    ensures
        seen.len() <= keys.len(),
{
    broadcast use vstd::seq_lib::seq_to_set_is_finite;
    seen.unique_seq_to_set();
    keys.lemma_cardinality_of_set();
    assert forall|x: Seq<char>| seen.to_set().contains(x) implies keys.to_set().contains(x) by {
        let i = choose|i: int| 0 <= i < seen.len() && seen[i] == x;
        assert(keys.contains(seen[i]));
    }
    vstd::set_lib::lemma_len_subset(seen.to_set(), keys.to_set());
}

fn parent_entry_exec<'a>(parents: &'a Vec<(String, Option<String>)>, id: &String) -> (r: Option<&'a Option<String>>)
    ensures
        match r {
            Some(p) => parent_entry(parents@, id@) == Some(opt_view(*p)),
            None => parent_entry(parents@, id@) is None,
        },
{
    let mut i = parents.len();
    assert(parents@.take(i as int) =~= parents@);
    while i > 0
        invariant
            i <= parents.len(),
            parent_entry(parents@, id@) == parent_entry(parents@.take(i as int), id@),
        decreases i,
    {
        assert(parents@.take(i as int).drop_last() =~= parents@.take(i - 1));
        if str_eq(parents[i - 1].0.as_str(), id.as_str()) {
            return Some(&parents[i - 1].1);
        }
        i -= 1;
    }
    None
}

fn contains_string(v: &Vec<String>, s: &String) -> (r: bool)
    ensures
        r == v@.map_values(|x: String| x@).contains(s@),
{
    let ghost vv = v@.map_values(|x: String| x@);
    let mut i: usize = 0;
    while i < v.len()
        invariant
            i <= v.len(),
            vv == v@.map_values(|x: String| x@),
            forall|k: int| 0 <= k < i ==> vv[k] != s@,
        decreases v.len() - i,
    {
        if str_eq(v[i].as_str(), s.as_str()) {
            assert(vv[i as int] == s@);
            return true;
        }
        i += 1;
    }
    false
}

/// Law: a scan skips a file only when the import state recorded for its path
/// has the file's current size and modification time and a session id that
/// agrees with the file's name, and no backfill is due: a file that grew,
/// was touched, or was never recorded is always re-read, and so is every
/// file when a backfill is due.
pub proof fn law_changed_files_are_read_again(
    files: Seq<SessionFile>,
    states: Seq<ImportState>,
    needs_backfill: bool,
    i: int,
)
    requires
        0 <= i < files.len(),
    ensures
        changed_indices(files, states, needs_backfill).contains(i) <==> (needs_backfill
            || match state_for(states, files[i].path@) {
            None => true,
            Some(st) => st.file_size != files[i].file_size || st.file_mtime_ms
                != files[i].file_mtime_ms || session_id_mismatch(st, files[i]),
        }),
    decreases files.len(),
{
    let before = changed_indices(files.drop_last(), states, needs_backfill);
    lemma_changed_indices_below(files.drop_last(), states, needs_backfill);
    if i < files.len() - 1 {
        law_changed_files_are_read_again(files.drop_last(), states, needs_backfill, i);
        assert(files.drop_last()[i] == files[i]);
        if file_unchanged(states, files.last(), needs_backfill) {
            assert(changed_indices(files, states, needs_backfill) == before);
        } else {
            let all = changed_indices(files, states, needs_backfill);
            assert(all == before.push(files.len() - 1));
            if before.contains(i) {
                let k = choose|k: int| 0 <= k < before.len() && before[k] == i;
                assert(all[k] == i);
            }
            if all.contains(i) {
                let k = choose|k: int| 0 <= k < all.len() && all[k] == i;
                if k < before.len() {
                    assert(before[k] == i);
                }
            }
        }
    } else {
        assert(files.last() == files[i]);
        if file_unchanged(states, files.last(), needs_backfill) {
            assert(changed_indices(files, states, needs_backfill) == before);
            assert(!before.contains(i));
        } else {
            let all = changed_indices(files, states, needs_backfill);
            assert(all == before.push(files.len() - 1));
            assert(all[before.len() as int] == i);
        }
    }
}

/// Every index `changed_indices` holds is that of a file.
proof fn lemma_changed_indices_below(files: Seq<SessionFile>, states: Seq<ImportState>, needs_backfill: bool)
    ensures
        forall|k: int|
            0 <= k < changed_indices(files, states, needs_backfill).len() ==> 0 <= #[trigger] changed_indices(
                files,
                states,
                needs_backfill,
            )[k] < files.len(),
    decreases files.len(),
{
    if files.len() > 0 {
        lemma_changed_indices_below(files.drop_last(), states, needs_backfill);
        let before = changed_indices(files.drop_last(), states, needs_backfill);
        let all = changed_indices(files, states, needs_backfill);
        assert forall|k: int| 0 <= k < all.len() implies 0 <= #[trigger] all[k] < files.len() by {
            if !file_unchanged(states, files.last(), needs_backfill) {
                assert(all == before.push(files.len() - 1));
                if k < before.len() {
                    assert(all[k] == before[k]);
                }
            } else {
                assert(all == before);
            }
        }
    }
}

/// What a scan records of a file it read: its path, size and modification
/// time, and the session its log named, which is the file name's session
/// where the name carries one.
pub open spec fn recorded_as_read(states: Seq<ImportState>, file: SessionFile) -> bool {
    match state_for(states, file.path@) {
        Some(st) => {
            &&& st.file_size == file.file_size
            &&& st.file_mtime_ms == file.file_mtime_ms
            &&& st.session_id is Some
            &&& (session_id_in_stem(file.file_stem@) matches Some(e) ==> st.session_id->0@ == e)
        },
        None => false,
    }
}

/// Law: a rescan of files that have not changed since a scan recorded them
/// re-reads none of them, so it bills nothing again: no file is selected,
/// and with nothing re-read the scan updates no session, adds no
/// conversation root and relinks nothing.
pub proof fn law_rescan_of_unchanged_files_rebills_nothing(
    files: Seq<SessionFile>,
    states: Seq<ImportState>,
    relations: Seq<(String, ExistingSessionRelation)>,
)
    requires
        forall|i: int| 0 <= i < files.len() ==> #[trigger] recorded_as_read(states, files[i]),
    ensures
        changed_indices(files, states, false).len() == 0,
        ok_count(Seq::<Result<ParsedSession, String>>::empty()) == 0,
        new_root_ids(Seq::<Result<ParsedSession, String>>::empty(), relations).len() == 0,
        !needs_recompute(Seq::<Result<ParsedSession, String>>::empty(), relations),
    decreases files.len(),
{
    if files.len() > 0 {
        let shorter = files.drop_last();
        assert forall|i: int| 0 <= i < shorter.len() implies #[trigger] recorded_as_read(
            states,
            shorter[i],
        ) by {
            assert(recorded_as_read(states, files[i]));
        }
        law_rescan_of_unchanged_files_rebills_nothing(shorter, states, relations);
        assert(recorded_as_read(states, files[files.len() - 1]));
        assert(file_unchanged(states, files[files.len() - 1], false));
    }
}

/// Follows parent links from a session to the root of its conversation,
/// stopping at a session without a parent or at a cycle; returns the root
/// and the number of links followed.
pub fn resolve_root(start_session_id: &str, parents: &Vec<(String, Option<String>)>) -> (r: (
    String,
    usize,
))
    ensures
        resolves_to(parents@, start_session_id@, r.0@, r.1 as nat),
{
    let ghost start = start_session_id@;
    let ghost ps = parents@;
    let mut current = owned(start_session_id);
    let mut depth: usize = 0;
    let mut seen: Vec<String> = Vec::new();
    loop
        invariant
            ps == parents@,
            start == start_session_id@,
            current@ == ancestor(ps, start, depth as nat),
            seen@.len() == depth,
            forall|i: int| 0 <= i < depth ==> (#[trigger] seen@[i])@ == ancestor(ps, start, i as nat),
            forall|j: nat| j < depth ==> parent_of(ps, #[trigger] ancestor(ps, start, j)) is Some,
            forall|i: nat, j: nat|
                i < j < depth ==> #[trigger] ancestor(ps, start, i) != #[trigger] ancestor(ps, start, j),
            depth <= parents.len(),
        ensures
            resolves_to(ps, start, current@, depth as nat),
        decreases parents.len() - depth,
    {
        let entry = parent_entry_exec(parents, &current);
        let parent: String = match entry {
            Some(Some(p)) => p.clone(),
            _ => {
                assert(parent_of(ps, current@) is None);
                break ;
            },
        };
        assert(parent_of(ps, current@) == Some(parent@));
        if contains_string(&seen, &current) {
            proof {
                let sv = seen@.map_values(|x: String| x@);
                let k = choose|k: int| 0 <= k < sv.len() && sv[k] == current@;
                assert(ancestor(ps, start, k as nat) == current@);
            }
            break ;
        }
        proof {
            let sv = seen@.map_values(|x: String| x@).push(current@);
            assert forall|i: int| 0 <= i < sv.len() implies keys_of(ps).contains(#[trigger] sv[i]) by {
                lemma_parent_entry_key(ps, sv[i]);
            }
            assert forall|a: int, b: int| 0 <= a < sv.len() && 0 <= b < sv.len() && a != b implies sv[a] != sv[b] by {
                if b == depth {
                    assert(sv[a] == ancestor(ps, start, a as nat));
                    assert(!seen@.map_values(|x: String| x@).contains(current@));
                    assert(seen@.map_values(|x: String| x@)[a] == sv[a]);
                } else if a == depth {
                    assert(seen@.map_values(|x: String| x@)[b] == sv[b]);
                    assert(!seen@.map_values(|x: String| x@).contains(current@));
                } else if a < b {
                    assert(sv[a] == ancestor(ps, start, a as nat));
                    assert(sv[b] == ancestor(ps, start, b as nat));
                } else {
                    assert(sv[a] == ancestor(ps, start, a as nat));
                    assert(sv[b] == ancestor(ps, start, b as nat));
                }
            }
            lemma_distinct_keys_bound(sv, keys_of(ps));
        }
        let ghost sv_old = seen@.map_values(|x: String| x@);
        assert(!sv_old.contains(current@));
        assert forall|i: int| 0 <= i < depth implies #[trigger] sv_old[i] == ancestor(ps, start, i as nat) by {
            assert(seen@[i]@ == ancestor(ps, start, i as nat));
        }
        seen.push(current.clone());
        let ghost next = ancestor(ps, start, depth as nat + 1);
        assert(next == parent@);
        if parent_entry_exec(parents, &parent).is_none() {
            let d = depth + 1;
            proof {
                assert(parent_of(ps, ancestor(ps, start, depth as nat)) is Some);
                assert(parent_of(ps, parent@) is None);
                assert forall|j: nat| j < d implies parent_of(ps, #[trigger] ancestor(ps, start, j)) is Some by {
                    if j < depth {
                    }
                }
                assert forall|i: nat, j: nat|
                    i < j < d implies #[trigger] ancestor(ps, start, i) != #[trigger] ancestor(ps, start, j) by {
                    if j == depth {
                        assert(sv_old[i as int] == ancestor(ps, start, i));
                    }
                }
            }
            assert(parent@ == ancestor(ps, start, d as nat));
            assert(resolves_to(ps, start, parent@, d as nat));
            return (parent, d);
        }
        proof {
            assert forall|i: nat, j: nat|
                i < j < depth + 1 implies #[trigger] ancestor(ps, start, i) != #[trigger] ancestor(ps, start, j) by {
                if j == depth {
                    assert(sv_old[i as int] == ancestor(ps, start, i));
                }
            }
        }
        current = parent;
        depth += 1;
    }
    (current, depth)
}


/// The link of one session to the root of its conversation.
#[derive(Debug, Clone)]
pub struct ConversationLink {
    pub session_id: String,
    pub root_session_id: String,
    pub parent_session_id: Option<String>,
    pub depth: usize,
    pub contains_subagents: bool,
}

/// Some session lists `id` as its parent.
pub open spec fn has_child(parents: Seq<(String, Option<String>)>, id: Seq<char>) -> bool {
    exists|j: int| 0 <= j < parents.len() && opt_view(#[trigger] parents[j].1) == Some(id)
}

fn has_child_exec(parents: &Vec<(String, Option<String>)>, id: &String) -> (r: bool)
    ensures
        r == has_child(parents@, id@),
{
    let mut j: usize = 0;
    while j < parents.len()
        invariant
            j <= parents.len(),
            forall|k: int| 0 <= k < j ==> opt_view(#[trigger] parents@[k].1) != Some(id@),
        decreases parents.len() - j,
    {
        match &parents[j].1 {
            Some(p) => {
                if str_eq(p.as_str(), id.as_str()) {
                    assert(opt_view(parents@[j as int].1) == Some(id@));
                    return true;
                }
            },
            None => {},
        }
        j += 1;
    }
    false
}

/// The conversation links of every session, recomputed from the sessions'
/// parents; each session id is listed once in `parents`.
pub fn conversation_links(parents: &Vec<(String, Option<String>)>) -> (r: Vec<ConversationLink>)
    ensures
        r@.len() == parents@.len(),
        forall|k: int|
            0 <= k < r@.len() ==> {
                let link = #[trigger] r@[k];
                &&& link.session_id@ == parents@[k].0@
                &&& resolves_to(parents@, link.session_id@, link.root_session_id@, link.depth as nat)
                &&& opt_view(link.parent_session_id) == opt_view(parents@[k].1)
                &&& link.contains_subagents == has_child(parents@, link.session_id@)
            },
{
    let mut links: Vec<ConversationLink> = Vec::new();
    let mut k: usize = 0;
    while k < parents.len()
        invariant
            k <= parents.len(),
            links@.len() == k,
            forall|m: int|
                0 <= m < k ==> {
                    let link = #[trigger] links@[m];
                    &&& link.session_id@ == parents@[m].0@
                    &&& resolves_to(parents@, link.session_id@, link.root_session_id@, link.depth as nat)
                    &&& opt_view(link.parent_session_id) == opt_view(parents@[m].1)
                    &&& link.contains_subagents == has_child(parents@, link.session_id@)
                },
        decreases parents.len() - k,
    {
        let id = &parents[k].0;
        let (root, depth) = resolve_root(id.as_str(), parents);
        let children = has_child_exec(parents, id);
        let link = ConversationLink {
            session_id: id.clone(),
            root_session_id: root,
            parent_session_id: crate::models::copy_opt_string(&parents[k].1),
            depth,
            contains_subagents: children,
        };
        links.push(link);
        k += 1;
    }
    links
}

// ---------------------------------------------------------------------------
// Where a scan reads
// ---------------------------------------------------------------------------

/// The Codex home a scan reads: the one asked for, else the one in the
/// settings, else `CODEX_HOME`, else `.codex` in the home directory; blank
/// ones do not count.
pub open spec fn codex_home_choice(
    requested: Option<Seq<char>>,
    configured: Option<Seq<char>>,
    environment: Option<Seq<char>>,
    home_dir: Option<Seq<char>>,
) -> Result<Seq<char>, Seq<char>> {
    match requested {
        Some(p) => Ok(p),
        None => if configured is Some && trim_seq(configured->0).len() > 0 {
            Ok(configured->0)
        } else if environment is Some && trim_seq(environment->0).len() > 0 {
            Ok(environment->0)
        } else {
            match home_dir {
                Some(h) => Ok(crate::sources::joined_path(h, ".codex"@)),
                None => Err("Unable to resolve home directory for CODEX_HOME fallback."@),
            }
        },
    }
}

fn non_blank(value: &Option<String>) -> (r: bool)
    ensures
        r == (value is Some && trim_seq(value->0@).len() > 0),
{
    match value {
        Some(v) => trim_str(v.as_str()).len() > 0,
        None => false,
    }
}

/// Chooses the Codex home a scan reads.
pub fn resolve_codex_home(
    requested: Option<String>,
    configured: Option<String>,
    environment: Option<String>,
    home_dir: Option<String>,
) -> (r: Result<String, String>)
    ensures
        crate::subscriptions::result_view(r) == codex_home_choice(
            opt_view(requested),
            opt_view(configured),
            opt_view(environment),
            opt_view(home_dir),
        ),
{
    if let Some(p) = requested {
        return Ok(p);
    }
    if non_blank(&configured) {
        return match configured {
            Some(c) => Ok(c),
            None => Err(String::new()),
        };
    }
    if non_blank(&environment) {
        return match environment {
            Some(e) => Ok(e),
            None => Err(String::new()),
        };
    }
    match home_dir {
        Some(h) => Ok(crate::sources::join_path(h.as_str(), ".codex")),
        None => {
            proof {
                reveal_strlit("Unable to resolve home directory for CODEX_HOME fallback.");
            }
            Err("Unable to resolve home directory for CODEX_HOME fallback.".to_owned())
        },
    }
}

/// The title an entry of the session index gives a session: its thread
/// name trimmed, where that is not empty.
pub fn session_index_title(id: &str, thread_name: Option<&str>) -> (r: Option<(String, String)>)
    ensures
        r is Some <==> (thread_name is Some && trim_seq(thread_name->0@).len() > 0),
        r matches Some(t) ==> t.0@ == id@ && t.1@ == trim_seq(thread_name->0@),
{
    match thread_name {
        Some(name) => {
            let t = trim_str(name);
            if t.len() == 0 {
                None
            } else {
                Some((owned(id), string_from_chars(&t)))
            }
        },
        None => None,
    }
}

} // verus!
