//! The background scheduler's decisions: when a scan is due, which SSH
//! sources are due for a download, and what one tick of the scheduler does.
use vstd::prelude::*;

use crate::menu_bar::{has_visible_content, menu_bar_has_visible_content};
use crate::models::{CodexSource, SyncSettings};
use crate::text::str_eq;
use crate::timestamps::{nanos_between, nanos_between_instants, rfc3339_instant};

verus! {

/// The longest interval, in minutes, that a duration can hold; a longer
/// remote update interval is out of range.
pub const MAX_INTERVAL_MINUTES: i64 = 153_722_867_280_912;

/// An interval of at least one minute.
pub open spec fn at_least_one_minute(minutes: i64) -> i64 {
    if minutes < 1 {
        1
    } else {
        minutes
    }
}

/// What the scheduler holds as the whole minutes that have passed: the
/// seconds and then the minutes, each truncated towards zero.
pub open spec fn trunc_div(x: int, d: int) -> int {
    if x >= 0 {
        x / d
    } else {
        -((-x) / d)
    }
}

pub open spec fn whole_minutes(nanos: int) -> int {
    trunc_div(trunc_div(nanos, 1_000_000_000), 60)
}

// ---------------------------------------------------------------------------
// Automatic scans
// ---------------------------------------------------------------------------

/// A scan is due when none has completed, when the completion time cannot be
/// read, or when at least the interval (at least a minute) has passed since.
pub open spec fn scan_due(last_completed: Option<String>, interval_minutes: i64, now: (i64, u32)) -> bool {
    match last_completed {
        None => true,
        Some(t) => match rfc3339_instant(t@) {
            None => true,
            Some(last) => whole_minutes(nanos_between(last, now)) >= at_least_one_minute(
                interval_minutes,
            ),
        },
    }
}

/// Whether an automatic scan is due at `now`.
pub fn auto_scan_due(last_scan_completed_at: &Option<String>, interval_minutes: i64, now: (i64, u32)) -> (r: bool)
    ensures
        r == scan_due(*last_scan_completed_at, interval_minutes, now),
{
    match last_scan_completed_at {
        None => true,
        Some(t) => match crate::timestamps::parse_rfc3339_instant(t.as_str()) {
            None => true,
            Some(last) => {
                let interval: i64 = if interval_minutes < 1 {
                    1
                } else {
                    interval_minutes
                };
                let n = nanos_between_instants(last, now);
                if n < 0 {
                    assert(whole_minutes(n as int) <= 0);
                    false
                } else {
                    let m: i128 = n / 1_000_000_000 / 60;
                    m >= interval as i128
                }
            },
        },
    }
}

// ---------------------------------------------------------------------------
// Remote sources due for a download
// ---------------------------------------------------------------------------

/// The time a source's last download is measured from: the last download,
/// or for a failed source its last update.
pub open spec fn download_reference(s: CodexSource) -> Option<Seq<char>> {
    match s.last_downloaded_at {
        Some(t) => Some(t@),
        None => if s.status@ == "failed"@ {
            Some(s.updated_at@)
        } else {
            None
        },
    }
}

/// An SSH source chosen for updates, not downloading now, whose last
/// download is unknown, unreadable, or at least the interval ago.
pub open spec fn source_due(s: CodexSource, interval_minutes: i64, now: (i64, u32)) -> bool {
    &&& s.kind@ == "ssh"@
    &&& s.update_selected
    &&& s.status@ != "downloading"@
    &&& match download_reference(s) {
        None => true,
        Some(r) => match rfc3339_instant(r) {
            None => true,
            Some(last) => nanos_between(last, now) >= at_least_one_minute(interval_minutes) * 60
                * 1_000_000_000,
        },
    }
}

/// The ids of the due sources, in the order given.
pub open spec fn due_source_ids(sources: Seq<CodexSource>, interval_minutes: i64, now: (i64, u32)) -> Seq<Seq<char>>
    decreases sources.len(),
{
    if sources.len() == 0 {
        Seq::empty()
    } else {
        let before = due_source_ids(sources.drop_last(), interval_minutes, now);
        if source_due(sources.last(), interval_minutes, now) {
            before.push(sources.last().id@)
        } else {
            before
        }
    }
}

fn is_source_due(s: &CodexSource, interval: i64, now: (i64, u32)) -> (r: bool)
    requires
        1 <= interval <= MAX_INTERVAL_MINUTES,
    ensures
        r == source_due(*s, interval, now),
{
    if !str_eq(s.kind.as_str(), "ssh") || !s.update_selected || str_eq(
        s.status.as_str(),
        "downloading",
    ) {
        return false;
    }
    let reference: Option<&str> = match &s.last_downloaded_at {
        Some(t) => Some(t.as_str()),
        None => if str_eq(s.status.as_str(), "failed") {
            Some(s.updated_at.as_str())
        } else {
            None
        },
    };
    match reference {
        None => true,
        Some(r) => match crate::timestamps::parse_rfc3339_instant(r) {
            None => true,
            Some(last) => {
                let n = nanos_between_instants(last, now);
                let need: i128 = interval as i128 * 60_000_000_000;
                n >= need
            },
        },
    }
}

/// The ids of the SSH sources whose automatic update is due at `now`.
pub fn remote_sources_due_for_auto_update(
    sources: &Vec<CodexSource>,
    interval_minutes: i64,
    now: (i64, u32),
) -> (r: Vec<String>)
    requires
        interval_minutes <= MAX_INTERVAL_MINUTES,
    ensures
        r@.map_values(|id: String| id@) == due_source_ids(sources@, interval_minutes, now),
{
    let interval: i64 = if interval_minutes < 1 {
        1
    } else {
        interval_minutes
    };
    let mut ids: Vec<String> = Vec::new();
    let mut i: usize = 0;
    while i < sources.len()
        invariant
            i <= sources.len(),
            interval == at_least_one_minute(interval_minutes),
            1 <= interval <= MAX_INTERVAL_MINUTES,
            ids@.map_values(|id: String| id@) == due_source_ids(
                sources@.take(i as int),
                interval_minutes,
                now,
            ),
        decreases sources.len() - i,
    {
        assert(sources@.take(i as int + 1).drop_last() =~= sources@.take(i as int));
        assert(source_due(sources@[i as int], interval, now) == source_due(
            sources@[i as int],
            interval_minutes,
            now,
        ));
        if is_source_due(&sources[i], interval, now) {
            let ghost before = ids@;
            ids.push(sources[i].id.clone());
            assert(ids@.map_values(|id: String| id@) =~= before.map_values(|id: String| id@).push(
                sources@[i as int].id@,
            ));
        }
        i += 1;
    }
    assert(sources@.take(sources.len() as int) =~= sources@);
    ids
}

// ---------------------------------------------------------------------------
// One tick
// ---------------------------------------------------------------------------

/// What one tick of the scheduler does.
#[derive(Debug, Clone)]
pub struct SchedulerPlan {
    pub refresh_menu_bar: bool,
    pub run_scan: bool,
    pub download_source_ids: Vec<String>,
}

/// Whether a tick goes as far as the remote downloads.
pub open spec fn reaches_downloads(scan_in_progress: bool, settings: SyncSettings, now: (i64, u32)) -> bool {
    !scan_in_progress && settings.remote_auto_update_enabled && !(settings.auto_scan_enabled
        && scan_due(settings.last_scan_completed_at, settings.auto_scan_interval_minutes, now))
}

/// Decides one tick: nothing while a scan runs; otherwise refresh the menu
/// bar when it shows anything, then either the due scan or the downloads
/// of the due sources.
pub fn plan_scheduler_tick(
    scan_in_progress: bool,
    settings: &SyncSettings,
    sources: &Vec<CodexSource>,
    now: (i64, u32),
) -> (r: SchedulerPlan)
    requires
        reaches_downloads(scan_in_progress, *settings, now)
            ==> settings.remote_auto_update_interval_minutes <= MAX_INTERVAL_MINUTES,
    ensures
        r.refresh_menu_bar == (!scan_in_progress && has_visible_content(*settings)),
        r.run_scan == (!scan_in_progress && settings.auto_scan_enabled && scan_due(
            settings.last_scan_completed_at,
            settings.auto_scan_interval_minutes,
            now,
        )),
        reaches_downloads(scan_in_progress, *settings, now) ==> r.download_source_ids@.map_values(
            |id: String| id@,
        ) == due_source_ids(sources@, settings.remote_auto_update_interval_minutes, now),
        !reaches_downloads(scan_in_progress, *settings, now) ==> r.download_source_ids@.len() == 0,
{
    if scan_in_progress {
        return SchedulerPlan { refresh_menu_bar: false, run_scan: false, download_source_ids: Vec::new() };
    }
    let refresh_menu_bar = menu_bar_has_visible_content(settings);
    if settings.auto_scan_enabled && auto_scan_due(
        &settings.last_scan_completed_at,
        settings.auto_scan_interval_minutes,
        now,
    ) {
        return SchedulerPlan { refresh_menu_bar, run_scan: true, download_source_ids: Vec::new() };
    }
    let download_source_ids = if settings.remote_auto_update_enabled {
        remote_sources_due_for_auto_update(
            sources,
            settings.remote_auto_update_interval_minutes,
            now,
        )
    } else {
        Vec::new()
    };
    SchedulerPlan { refresh_menu_bar, run_scan: false, download_source_ids }
}

// ---------------------------------------------------------------------------
// Which sources a scan reads
// ---------------------------------------------------------------------------

/// A source a scan reads: its id, and the Codex home to read, none for this
/// machine's own.
#[derive(Debug, Clone)]
pub struct SourceScanTarget {
    pub source_id: String,
    pub codex_home: Option<String>,
}

/// The ids a scan asks for: those given, or else those of the sources shown.
pub open spec fn requested_ids(sources: Seq<CodexSource>, requested: Option<Seq<Seq<char>>>) -> Seq<Seq<char>>
    decreases sources.len(),
{
    match requested {
        Some(ids) => ids,
        None => if sources.len() == 0 {
            Seq::empty()
        } else {
            let before = requested_ids(sources.drop_last(), None);
            if sources.last().display_selected {
                before.push(sources.last().id@)
            } else {
                before
            }
        },
    }
}

/// The sources a scan reads, in the order of `sources`: each requested one,
/// this machine with its own Codex home and the others with their local
/// copy, those without a copy left out.
pub open spec fn scan_targets(sources: Seq<CodexSource>, ids: Seq<Seq<char>>) -> Seq<(Seq<char>, Option<Seq<char>>)>
    decreases sources.len(),
{
    if sources.len() == 0 {
        Seq::empty()
    } else {
        let before = scan_targets(sources.drop_last(), ids);
        let s = sources.last();
        if !ids.contains(s.id@) {
            before
        } else if s.id@ == "local"@ {
            before.push((s.id@, None))
        } else {
            match s.local_codex_home {
                Some(h) => before.push((s.id@, Some(h@))),
                None => before,
            }
        }
    }
}

pub open spec fn target_view(t: SourceScanTarget) -> (Seq<char>, Option<Seq<char>>) {
    (t.source_id@, crate::importer::opt_view(t.codex_home))
}

fn ids_contain(ids: &Vec<String>, id: &str) -> (r: bool)
    ensures
        r == crate::ssh_config::strings_view(ids@).contains(id@),
{
    let mut k: usize = 0;
    while k < ids.len()
        invariant
            k <= ids@.len(),
            forall|m: int| 0 <= m < k ==> ids@[m]@ != id@,
        decreases ids.len() - k,
    {
        if str_eq(ids[k].as_str(), id) {
            assert(crate::ssh_config::strings_view(ids@)[k as int] == id@);
            return true;
        }
        k += 1;
    }
    assert forall|m: int| 0 <= m < ids@.len() implies crate::ssh_config::strings_view(ids@)[m] != id@ by {
        assert(crate::ssh_config::strings_view(ids@)[m] == ids@[m]@);
    }
    false
}

/// The sources a scan of `requested` (or of the sources shown) reads.
pub fn sources_to_scan(sources: &Vec<CodexSource>, requested: Option<Vec<String>>) -> (r: Vec<SourceScanTarget>)
    ensures
        r@.map_values(|t: SourceScanTarget| target_view(t)) == scan_targets(
            sources@,
            requested_ids(
                sources@,
                match requested {
                    Some(v) => Some(crate::ssh_config::strings_view(v@)),
                    None => None,
                },
            ),
        ),
{
    let ids: Vec<String> = match requested {
        Some(v) => v,
        None => {
            let mut shown: Vec<String> = Vec::new();
            let mut i: usize = 0;
            while i < sources.len()
                invariant
                    i <= sources@.len(),
                    crate::ssh_config::strings_view(shown@) == requested_ids(
                        sources@.take(i as int),
                        None,
                    ),
                decreases sources.len() - i,
            {
                assert(sources@.take(i + 1).drop_last() =~= sources@.take(i as int));
                if sources[i].display_selected {
                    let ghost before = shown@;
                    shown.push(sources[i].id.clone());
                    assert(crate::ssh_config::strings_view(shown@) =~= crate::ssh_config::strings_view(
                        before,
                    ).push(sources@[i as int].id@));
                }
                i += 1;
            }
            assert(sources@.take(sources@.len() as int) =~= sources@);
            shown
        },
    };
    let ghost wanted = crate::ssh_config::strings_view(ids@);
    let mut targets: Vec<SourceScanTarget> = Vec::new();
    let mut i: usize = 0;
    while i < sources.len()
        invariant
            i <= sources@.len(),
            wanted == crate::ssh_config::strings_view(ids@),
            targets@.map_values(|t: SourceScanTarget| target_view(t)) == scan_targets(
                sources@.take(i as int),
                wanted,
            ),
        decreases sources.len() - i,
    {
        assert(sources@.take(i + 1).drop_last() =~= sources@.take(i as int));
        let s = &sources[i];
        let ghost before = targets@;
        if ids_contain(&ids, s.id.as_str()) {
            if str_eq(s.id.as_str(), "local") {
                targets.push(SourceScanTarget { source_id: s.id.clone(), codex_home: None });
                assert(targets@.map_values(|t: SourceScanTarget| target_view(t)) =~= before.map_values(
                    |t: SourceScanTarget| target_view(t),
                ).push((s.id@, None)));
            } else {
                match &s.local_codex_home {
                    Some(h) => {
                        targets.push(
                            SourceScanTarget { source_id: s.id.clone(), codex_home: Some(h.clone()) },
                        );
                        assert(targets@.map_values(|t: SourceScanTarget| target_view(t))
                            =~= before.map_values(|t: SourceScanTarget| target_view(t)).push(
                            (s.id@, Some(h@)),
                        ));
                    },
                    None => {},
                }
            }
        }
        i += 1;
    }
    assert(sources@.take(sources@.len() as int) =~= sources@);
    targets
}

} // verus!
