//! Scanning the files under a rule path.
//!
//! The walk itself reads the file system; it reports what it finds, node by
//! node in depth-first order, to a `ScanState`, which keeps the counts and
//! says when progress is due.
use vstd::prelude::*;
use crate::text::{owned, push_str};

verus! {

/// What a scan of one rule path found.
pub struct PathScanSummary {
    pub raw_path: String,
    pub resolved_path: String,
    pub exists: bool,
    pub accessible: bool,
    pub file_count: u64,
    pub dir_count: u64,
    pub total_bytes: u64,
    pub skipped_count: u64,
    pub error: Option<String>,
}

/// The counts of a scan in progress.
pub struct ScanProgressSnapshot {
    pub current_path: String,
    pub file_count: u64,
    pub dir_count: u64,
    pub total_bytes: u64,
    pub skipped_count: u64,
}

/// What the walk met at one node.
pub enum ScanEvent {
    /// The node's metadata could not be read; the system's message.
    MetadataFailed(String),
    /// A file of that many bytes.
    File(u64),
    /// A directory (its entries follow).
    Dir,
    /// Something else (a link, a device), which is not followed.
    Other,
    /// The directory just met could not be listed; the system's message.
    ReadDirFailed(String),
    /// One entry of a directory could not be read; the system's message.
    EntryFailed(String),
}

/// The counts of a scan, as values.
pub struct ScanCounts {
    pub accessible: bool,
    pub file_count: int,
    pub dir_count: int,
    pub total_bytes: int,
    pub skipped_count: int,
    pub error: Option<Seq<char>>,
    pub visited: int,
}

/// `a + b`, capped at `u64::MAX`.
pub open spec fn sat_add(a: int, b: int) -> int {
    if a + b > u64::MAX {
        u64::MAX as int
    } else {
        a + b
    }
}

/// The first error is kept.
pub open spec fn keep_first(error: Option<Seq<char>>, e: Seq<char>) -> Option<Seq<char>> {
    match error {
        Some(x) => Some(x),
        None => Some(e),
    }
}

/// The counts after one event.
pub open spec fn scan_step(c: ScanCounts, ev: ScanEvent) -> ScanCounts {
    match ev {
        ScanEvent::MetadataFailed(e) => ScanCounts {
            accessible: false,
            skipped_count: c.skipped_count + 1,
            error: keep_first(c.error, e@),
            ..c
        },
        ScanEvent::File(len) => ScanCounts {
            file_count: c.file_count + 1,
            total_bytes: sat_add(c.total_bytes, len as int),
            visited: sat_add(c.visited, 1),
            ..c
        },
        ScanEvent::Dir => ScanCounts { dir_count: c.dir_count + 1, visited: sat_add(c.visited, 1), ..c },
        ScanEvent::Other => ScanCounts { visited: sat_add(c.visited, 1), ..c },
        ScanEvent::ReadDirFailed(e) => ScanCounts {
            accessible: false,
            skipped_count: c.skipped_count + 1,
            error: keep_first(c.error, e@),
            ..c
        },
        ScanEvent::EntryFailed(e) => ScanCounts {
            skipped_count: c.skipped_count + 1,
            error: keep_first(c.error, e@),
            ..c
        },
    }
}

/// Progress is reported at every 64th node that is a file or a directory.
pub open spec fn progress_due(c: ScanCounts, ev: ScanEvent) -> bool {
    (ev is File || ev is Dir) && scan_step(c, ev).visited % 64 == 0
}

/// The counts at the start of a scan of an existing path.
pub open spec fn initial_counts() -> ScanCounts {
    ScanCounts {
        accessible: true,
        file_count: 0,
        dir_count: 0,
        total_bytes: 0,
        skipped_count: 0,
        error: None,
        visited: 0,
    }
}

/// The counts after the events, in order.
pub open spec fn scan_fold(c: ScanCounts, events: Seq<ScanEvent>) -> ScanCounts
    decreases events.len(),
{
    if events.len() == 0 {
        c
    } else {
        scan_step(scan_fold(c, events.drop_last()), events.last())
    }
}

/// The state of a scan in progress.
pub struct ScanState {
    pub summary: PathScanSummary,
    pub visited_count: u64,
}

/// The counts a scan state holds.
pub open spec fn counts_of(s: ScanState) -> ScanCounts {
    ScanCounts {
        accessible: s.summary.accessible,
        file_count: s.summary.file_count as int,
        dir_count: s.summary.dir_count as int,
        total_bytes: s.summary.total_bytes as int,
        skipped_count: s.summary.skipped_count as int,
        error: match s.summary.error {
            Some(e) => Some(e@),
            None => None,
        },
        visited: s.visited_count as int,
    }
}

/// What a scan of a path that does not exist reports.
pub open spec fn is_missing_summary(s: PathScanSummary, raw: Seq<char>, resolved: Seq<char>) -> bool {
    &&& s.raw_path@ == raw
    &&& s.resolved_path@ == resolved
    &&& !s.exists
    &&& !s.accessible
    &&& s.file_count == 0
    &&& s.dir_count == 0
    &&& s.total_bytes == 0
    &&& s.skipped_count == 0
    &&& s.error is None
}

/// `s` reports the counts `c` for an existing path.
pub open spec fn reports(s: PathScanSummary, raw: Seq<char>, resolved: Seq<char>, c: ScanCounts) -> bool {
    &&& s.raw_path@ == raw
    &&& s.resolved_path@ == resolved
    &&& s.exists
    &&& s.accessible == c.accessible
    &&& s.file_count == c.file_count
    &&& s.dir_count == c.dir_count
    &&& s.total_bytes == c.total_bytes
    &&& s.skipped_count == c.skipped_count
    &&& match s.error {
        Some(e) => c.error == Some(e@),
        None => c.error is None,
    }
}

/// A snapshot of the counts of `s` at `path`.
pub open spec fn is_snapshot(p: ScanProgressSnapshot, s: PathScanSummary, path: Seq<char>) -> bool {
    &&& p.current_path@ == path
    &&& p.file_count == s.file_count
    &&& p.dir_count == s.dir_count
    &&& p.total_bytes == s.total_bytes
    &&& p.skipped_count == s.skipped_count
}

/// The summary of a path that does not exist.
pub fn missing_summary(raw_path: &str, resolved_path: &str) -> (s: PathScanSummary)
    ensures
        is_missing_summary(s, raw_path@, resolved_path@),
{
    PathScanSummary {
        raw_path: owned(raw_path),
        resolved_path: owned(resolved_path),
        exists: false,
        accessible: false,
        file_count: 0,
        dir_count: 0,
        total_bytes: 0,
        skipped_count: 0,
        error: None,
    }
}

/// A snapshot of the counts of a scan, at `path` (`emit_scan_progress`).
pub fn emit_scan_progress(path: &str, summary: &PathScanSummary) -> (p: ScanProgressSnapshot)
    ensures
        is_snapshot(p, *summary, path@),
{
    ScanProgressSnapshot {
        current_path: owned(path),
        file_count: summary.file_count,
        dir_count: summary.dir_count,
        total_bytes: summary.total_bytes,
        skipped_count: summary.skipped_count,
    }
}

impl ScanState {
    /// The start of the scan of an existing path.
    pub fn begin(raw_path: &str, resolved_path: &str) -> (s: ScanState)
        ensures
            counts_of(s) == initial_counts(),
            s.summary.raw_path@ == raw_path@,
            s.summary.resolved_path@ == resolved_path@,
            s.summary.exists,
    {
        ScanState {
            summary: PathScanSummary {
                raw_path: owned(raw_path),
                resolved_path: owned(resolved_path),
                exists: true,
                accessible: true,
                file_count: 0,
                dir_count: 0,
                total_bytes: 0,
                skipped_count: 0,
                error: None,
            },
            visited_count: 0,
        }
    }

    /// Takes in what the walk met at the node `path`; returns the progress
    /// snapshot to report, when one is due.
    pub fn apply(&mut self, path: &str, event: ScanEvent) -> (progress: Option<ScanProgressSnapshot>)
        requires
            old(self).summary.file_count < u64::MAX,
            old(self).summary.dir_count < u64::MAX,
            old(self).summary.skipped_count < u64::MAX,
        ensures
            counts_of(*final(self)) == scan_step(counts_of(*old(self)), event),
            final(self).summary.raw_path == old(self).summary.raw_path,
            final(self).summary.resolved_path == old(self).summary.resolved_path,
            final(self).summary.exists == old(self).summary.exists,
            match progress {
                Some(p) => progress_due(counts_of(*old(self)), event) && is_snapshot(p, final(self).summary, path@),
                None => !progress_due(counts_of(*old(self)), event),
            },
    {
        let ghost ev = event;
        match event {
            ScanEvent::MetadataFailed(e) => {
                self.summary.accessible = false;
                self.summary.skipped_count = self.summary.skipped_count + 1;
                if self.summary.error.is_none() {
                    self.summary.error = Some(e);
                }
                None
            },
            ScanEvent::File(len) => {
                self.visited_count = self.visited_count.saturating_add(1);
                self.summary.file_count = self.summary.file_count + 1;
                self.summary.total_bytes = self.summary.total_bytes.saturating_add(len);
                if self.visited_count % 64 == 0 {
                    Some(emit_scan_progress(path, &self.summary))
                } else {
                    None
                }
            },
            ScanEvent::Dir => {
                self.visited_count = self.visited_count.saturating_add(1);
                self.summary.dir_count = self.summary.dir_count + 1;
                if self.visited_count % 64 == 0 {
                    Some(emit_scan_progress(path, &self.summary))
                } else {
                    None
                }
            },
            ScanEvent::Other => {
                self.visited_count = self.visited_count.saturating_add(1);
                None
            },
            ScanEvent::ReadDirFailed(e) => {
                self.summary.accessible = false;
                self.summary.skipped_count = self.summary.skipped_count + 1;
                if self.summary.error.is_none() {
                    self.summary.error = Some(e);
                }
                None
            },
            ScanEvent::EntryFailed(e) => {
                self.summary.skipped_count = self.summary.skipped_count + 1;
                if self.summary.error.is_none() {
                    self.summary.error = Some(e);
                }
                None
            },
        }
    }

    /// The end of the scan: the final progress snapshot at the scanned
    /// path, and the summary; a cancelled scan reports its counts so far
    /// as an error (`scan_rule_path_with_progress`).
    pub fn finish(self, cancelled: bool) -> (res: (ScanProgressSnapshot, Result<PathScanSummary, PathScanSummary>))
        ensures
            is_snapshot(res.0, self.summary, self.summary.resolved_path@),
            match res.1 {
                Ok(s) => !cancelled && s == self.summary,
                Err(s) => {
                    &&& cancelled
                    &&& s.error matches Some(e) && e@ == "scan cancelled"@
                    &&& s.raw_path == self.summary.raw_path
                    &&& s.resolved_path == self.summary.resolved_path
                    &&& s.exists == self.summary.exists
                    &&& s.accessible == self.summary.accessible
                    &&& s.file_count == self.summary.file_count
                    &&& s.dir_count == self.summary.dir_count
                    &&& s.total_bytes == self.summary.total_bytes
                    &&& s.skipped_count == self.summary.skipped_count
                },
            },
    {
        let snapshot = emit_scan_progress(self.summary.resolved_path.as_str(), &self.summary);
        let mut summary = self.summary;
        if cancelled {
            summary.error = Some(owned("scan cancelled"));
            (snapshot, Err(summary))
        } else {
            (snapshot, Ok(summary))
        }
    }
}

/// Scans a rule path from the events of a complete walk of it
/// (`scan_rule_path`): a path that does not exist reports nothing; an
/// existing one reports the counts of the events.
pub fn scan_rule_path(raw_path: &str, resolved_path: &str, exists: bool, events: Vec<ScanEvent>) -> (s: PathScanSummary)
    requires
        events@.len() < u64::MAX,
    ensures
        !exists ==> is_missing_summary(s, raw_path@, resolved_path@),
        exists ==> reports(s, raw_path@, resolved_path@, scan_fold(initial_counts(), events@)),
{
    if !exists {
        return missing_summary(raw_path, resolved_path);
    }
    let ghost all = events@;
    let mut state = ScanState::begin(raw_path, resolved_path);
    let mut rest = events;
    let ghost mut done: int = 0;
    while rest.len() > 0
        invariant
            0 <= done <= all.len(),
            all.len() < u64::MAX,
            rest@ == all.subrange(done, all.len() as int),
            counts_of(state) == scan_fold(initial_counts(), all.subrange(0, done)),
            state.summary.file_count <= done,
            state.summary.dir_count <= done,
            state.summary.skipped_count <= done,
            state.summary.raw_path@ == raw_path@,
            state.summary.resolved_path@ == resolved_path@,
            state.summary.exists,
        decreases rest.len(),
    {
        let ev = rest.remove(0);
        proof {
            assert(all.subrange(0, done + 1).drop_last() =~= all.subrange(0, done));
            assert(all.subrange(done, all.len() as int)[0] == ev);
            assert(all.subrange(0, done + 1).last() == ev);
            assert(all.subrange(done + 1, all.len() as int) =~= all.subrange(done, all.len() as int).subrange(1, all.len() - done));
        }
        let _ = state.apply(resolved_path, ev);
        proof {
            done = done + 1;
        }
    }
    proof {
        assert(all.subrange(0, done) =~= all);
    }
    state.summary
}

/// The events of a walk without the nodes they were met at.
pub open spec fn events_of(walk: Seq<(String, ScanEvent)>) -> Seq<ScanEvent> {
    walk.map_values(|p: (String, ScanEvent)| p.1)
}

/// `p` reports the counts `c` at `path`.
pub open spec fn snapshot_of(p: ScanProgressSnapshot, path: Seq<char>, c: ScanCounts) -> bool {
    &&& p.current_path@ == path
    &&& p.file_count == c.file_count
    &&& p.dir_count == c.dir_count
    &&& p.total_bytes == c.total_bytes
    &&& p.skipped_count == c.skipped_count
}

/// No counter of snapshot `a` exceeds that of `b`.
pub open spec fn snapshot_le(a: ScanProgressSnapshot, b: ScanProgressSnapshot) -> bool {
    &&& a.file_count <= b.file_count
    &&& a.dir_count <= b.dir_count
    &&& a.total_bytes <= b.total_bytes
    &&& a.skipped_count <= b.skipped_count
}

/// No counter of snapshot `a` exceeds that of summary `s`.
pub open spec fn snapshot_below(a: ScanProgressSnapshot, s: PathScanSummary) -> bool {
    &&& a.file_count <= s.file_count
    &&& a.dir_count <= s.dir_count
    &&& a.total_bytes <= s.total_bytes
    &&& a.skipped_count <= s.skipped_count
}

/// `s` reports the counts `c` of a scan of an existing path that was
/// cancelled.
pub open spec fn reports_cancelled(s: PathScanSummary, raw: Seq<char>, resolved: Seq<char>, c: ScanCounts) -> bool {
    &&& s.raw_path@ == raw
    &&& s.resolved_path@ == resolved
    &&& s.exists
    &&& s.accessible == c.accessible
    &&& s.file_count == c.file_count
    &&& s.dir_count == c.dir_count
    &&& s.total_bytes == c.total_bytes
    &&& s.skipped_count == c.skipped_count
    &&& s.error matches Some(e) && e@ == "scan cancelled"@
}

/// Scans a rule path from the walk made of it, each event with the node it
/// was met at, and whether the walk was cut short by a cancellation
/// (`scan_rule_path_with_progress`): the progress snapshots, the last of
/// which gives the final counts at the scanned path, and the summary, which
/// is an error when the scan was cancelled. The counters never decrease
/// from one snapshot to the next, and a walk of fewer than 64 nodes gives
/// the final snapshot alone. A path that does not exist is reported at
/// once, cancelled or not.
pub fn scan_rule_path_with_progress(
    raw_path: &str,
    resolved_path: &str,
    exists: bool,
    walk: Vec<(String, ScanEvent)>,
    cancelled: bool,
) -> (res: (Vec<ScanProgressSnapshot>, Result<PathScanSummary, PathScanSummary>))
    requires
        walk@.len() < u64::MAX,
    ensures
        !exists ==> res.0@.len() == 0 && (res.1 matches Ok(s) && is_missing_summary(s, raw_path@, resolved_path@)),
        exists ==> res.0@.len() >= 1 && snapshot_of(
            res.0@.last(),
            resolved_path@,
            scan_fold(initial_counts(), events_of(walk@)),
        ),
        exists ==> forall|i: int, j: int|
            0 <= i <= j < res.0@.len() ==> snapshot_le(#[trigger] res.0@[i], #[trigger] res.0@[j]),
        exists && walk@.len() < 64 ==> res.0@.len() == 1,
        exists ==> match res.1 {
            Ok(s) => !cancelled && reports(s, raw_path@, resolved_path@, scan_fold(initial_counts(), events_of(walk@))),
            Err(s) => cancelled && reports_cancelled(
                s,
                raw_path@,
                resolved_path@,
                scan_fold(initial_counts(), events_of(walk@)),
            ),
        },
{
    let mut snapshots: Vec<ScanProgressSnapshot> = Vec::new();
    if !exists {
        return (snapshots, Ok(missing_summary(raw_path, resolved_path)));
    }
    let ghost all = events_of(walk@);
    let mut state = ScanState::begin(raw_path, resolved_path);
    let mut rest = walk;
    let ghost mut done: int = 0;
    assert(all.subrange(0, all.len() as int) =~= all);
    while rest.len() > 0
        invariant
            0 <= done <= all.len(),
            all.len() < u64::MAX,
            events_of(rest@) == all.subrange(done, all.len() as int),
            counts_of(state) == scan_fold(initial_counts(), all.subrange(0, done)),
            state.summary.file_count <= done,
            state.summary.dir_count <= done,
            state.summary.skipped_count <= done,
            state.summary.raw_path@ == raw_path@,
            state.summary.resolved_path@ == resolved_path@,
            state.summary.exists,
            state.visited_count <= done,
            snapshots@.len() > 0 ==> state.visited_count >= 64,
            forall|i: int, j: int|
                0 <= i <= j < snapshots@.len() ==> snapshot_le(#[trigger] snapshots@[i], #[trigger] snapshots@[j]),
            forall|i: int| 0 <= i < snapshots@.len() ==> snapshot_below(#[trigger] snapshots@[i], state.summary),
        decreases rest.len(),
    {
        let ghost before = rest@;
        let ghost old_summary = state.summary;
        let ghost old_snaps = snapshots@;
        let (path, ev) = rest.remove(0);
        proof {
            assert(events_of(before).len() == before.len());
            assert(done < all.len());
            assert(events_of(before)[0] == ev);
            assert(events_of(rest@) =~= events_of(before).subrange(1, before.len() as int));
            assert(all.subrange(0, done + 1).drop_last() =~= all.subrange(0, done));
            assert(all.subrange(done, all.len() as int)[0] == ev);
            assert(all.subrange(0, done + 1).last() == ev);
            assert(all.subrange(done + 1, all.len() as int) =~= all.subrange(done, all.len() as int).subrange(1, all.len() - done));
        }
        match state.apply(path.as_str(), ev) {
            Some(p) => {
                snapshots.push(p);
                proof {
                    assert forall|i: int, j: int|
                        0 <= i <= j < snapshots@.len() implies snapshot_le(#[trigger] snapshots@[i], #[trigger] snapshots@[j]) by {
                        if j == old_snaps.len() && i < j {
                            assert(snapshot_below(old_snaps[i], old_summary));
                        }
                    }
                    assert forall|i: int| 0 <= i < snapshots@.len() implies snapshot_below(#[trigger] snapshots@[i], state.summary) by {
                        if i < old_snaps.len() {
                            assert(snapshot_below(old_snaps[i], old_summary));
                        }
                    }
                }
            },
            None => {
                proof {
                    assert forall|i: int| 0 <= i < snapshots@.len() implies snapshot_below(#[trigger] snapshots@[i], state.summary) by {
                        assert(snapshot_below(old_snaps[i], old_summary));
                    }
                }
            },
        }
        proof {
            done = done + 1;
        }
    }
    proof {
        assert(all.subrange(0, done) =~= all);
    }
    let ghost loop_snaps = snapshots@;
    let ghost final_summary = state.summary;
    let (last, result) = state.finish(cancelled);
    snapshots.push(last);
    proof {
        assert forall|i: int, j: int|
            0 <= i <= j < snapshots@.len() implies snapshot_le(#[trigger] snapshots@[i], #[trigger] snapshots@[j]) by {
            if j == loop_snaps.len() && i < j {
                assert(snapshot_below(loop_snaps[i], final_summary));
            }
        }
        if walk@.len() < 64 {
            assert(loop_snaps.len() == 0);
        }
    }
    (snapshots, result)
}

/// The spaces of a drive, as the system reported them (`disk_space`):
/// the total and free bytes, or an error when the query failed.
pub fn disk_space(path: &str, reported: Option<(u64, u64)>) -> (res: Result<(u64, u64), String>)
    ensures
        match reported {
            Some(r) => res == Ok::<(u64, u64), String>(r),
            None => (res matches Err(e) && e@ == "failed to read disk space for "@ + path@),
        },
{
    match reported {
        Some(r) => Ok(r),
        None => {
            let mut msg = owned("failed to read disk space for ");
            push_str(&mut msg, path);
            Err(msg)
        },
    }
}

/// The scan of a path without progress reports ([`scan_rule_path`]) is the
/// scan with progress reports ([`scan_rule_path_with_progress`]) that was
/// not cancelled: given the same walk, the summaries the two report agree
/// in every field.
pub proof fn law_plain_scan_is_progress_scan(
    raw: Seq<char>,
    resolved: Seq<char>,
    exists: bool,
    walk: Seq<(String, ScanEvent)>,
    plain: PathScanSummary,
    progress: PathScanSummary,
)
    requires
        !exists ==> is_missing_summary(plain, raw, resolved) && is_missing_summary(progress, raw, resolved),
        exists ==> reports(plain, raw, resolved, scan_fold(initial_counts(), events_of(walk))) && reports(
            progress,
            raw,
            resolved,
            scan_fold(initial_counts(), events_of(walk)),
        ),
    ensures
        plain.raw_path@ == progress.raw_path@,
        plain.resolved_path@ == progress.resolved_path@,
        plain.exists == progress.exists,
        plain.accessible == progress.accessible,
        plain.file_count == progress.file_count,
        plain.dir_count == progress.dir_count,
        plain.total_bytes == progress.total_bytes,
        plain.skipped_count == progress.skipped_count,
        match (plain.error, progress.error) {
            (Some(a), Some(b)) => a@ == b@,
            (None, None) => true,
            _ => false,
        },
{
}

/// The events that report a node or a listing that could not be read.
pub open spec fn failed_reads(events: Seq<ScanEvent>) -> int
    decreases events.len(),
{
    if events.len() == 0 {
        0
    } else {
        failed_reads(events.drop_last()) + match events.last() {
            ScanEvent::MetadataFailed(_) => 1int,
            ScanEvent::ReadDirFailed(_) => 1int,
            ScanEvent::EntryFailed(_) => 1int,
            _ => 0int,
        }
    }
}

/// The events that report a file.
pub open spec fn file_events(events: Seq<ScanEvent>) -> int
    decreases events.len(),
{
    if events.len() == 0 {
        0
    } else {
        file_events(events.drop_last()) + if events.last() is File { 1int } else { 0int }
    }
}

/// The events that report a directory.
pub open spec fn dir_events(events: Seq<ScanEvent>) -> int
    decreases events.len(),
{
    if events.len() == 0 {
        0
    } else {
        dir_events(events.drop_last()) + if events.last() is Dir { 1int } else { 0int }
    }
}

/// The bytes of the files the events report.
pub open spec fn file_bytes(events: Seq<ScanEvent>) -> int
    decreases events.len(),
{
    if events.len() == 0 {
        0
    } else {
        file_bytes(events.drop_last()) + match events.last() {
            ScanEvent::File(len) => len as int,
            _ => 0int,
        }
    }
}

/// The bytes a scan counts are the sizes of the files it met, added up
/// and capped at `u64::MAX`.
pub proof fn law_scan_bytes(c: ScanCounts, events: Seq<ScanEvent>)
    requires
        0 <= c.total_bytes <= u64::MAX,
    ensures
        file_bytes(events) >= 0,
        scan_fold(c, events).total_bytes == (if c.total_bytes + file_bytes(events) > u64::MAX {
            u64::MAX as int
        } else {
            c.total_bytes + file_bytes(events)
        }),
    decreases events.len(),
{
    if events.len() > 0 {
        law_scan_bytes(c, events.drop_last());
    }
}

/// A scan counts each event once, by its kind: every node or listing that
/// could not be read adds exactly one to the skipped count, every file one
/// to the file count and every directory one to the directory count.
pub proof fn law_scan_counts_events(c: ScanCounts, events: Seq<ScanEvent>)
    ensures
        scan_fold(c, events).skipped_count == c.skipped_count + failed_reads(events),
        scan_fold(c, events).file_count == c.file_count + file_events(events),
        scan_fold(c, events).dir_count == c.dir_count + dir_events(events),
    decreases events.len(),
{
    if events.len() > 0 {
        law_scan_counts_events(c, events.drop_last());
    }
}

/// The bytes a scan counts never exceed `u64::MAX`, every file adds one
/// to the file count, and a scan stays accessible until a node or a
/// directory listing cannot be read.
pub proof fn law_scan_counts(c: ScanCounts, ev: ScanEvent)
    requires
        0 <= c.total_bytes <= u64::MAX,
    ensures
        0 <= scan_step(c, ev).total_bytes <= u64::MAX,
        scan_step(c, ev).total_bytes >= c.total_bytes,
        ev is File ==> scan_step(c, ev).file_count == c.file_count + 1,
        !(ev is File) ==> scan_step(c, ev).file_count == c.file_count,
        scan_step(c, ev).accessible == (c.accessible && !(ev is MetadataFailed) && !(ev is ReadDirFailed)),
        c.error is Some ==> scan_step(c, ev).error == c.error,
{
}

/// The total bytes of the scanned paths.
pub open spec fn bytes_sum(paths: Seq<PathScanSummary>) -> int
    decreases paths.len(),
{
    if paths.len() == 0 {
        0
    } else {
        bytes_sum(paths.drop_last()) + paths.last().total_bytes
    }
}

/// The total number of files of the scanned paths.
pub open spec fn files_sum(paths: Seq<PathScanSummary>) -> int
    decreases paths.len(),
{
    if paths.len() == 0 {
        0
    } else {
        files_sum(paths.drop_last()) + paths.last().file_count
    }
}

/// The total number of skipped entries of the scanned paths.
pub open spec fn skipped_sum(paths: Seq<PathScanSummary>) -> int
    decreases paths.len(),
{
    if paths.len() == 0 {
        0
    } else {
        skipped_sum(paths.drop_last()) + paths.last().skipped_count
    }
}

/// Some scanned path exists.
pub open spec fn any_exists(paths: Seq<PathScanSummary>) -> bool {
    exists|i: int| 0 <= i < paths.len() && #[trigger] paths[i].exists
}

proof fn lemma_sums_monotone(paths: Seq<PathScanSummary>, i: int)
    requires
        0 <= i <= paths.len(),
    ensures
        bytes_sum(paths.subrange(0, i)) <= bytes_sum(paths),
        files_sum(paths.subrange(0, i)) <= files_sum(paths),
        skipped_sum(paths.subrange(0, i)) <= skipped_sum(paths),
    decreases paths.len() - i,
{
    if i < paths.len() {
        lemma_sums_monotone(paths, i + 1);
        assert(paths.subrange(0, i + 1).drop_last() =~= paths.subrange(0, i));
    } else {
        assert(paths.subrange(0, i) =~= paths);
    }
}

/// The totals of the scanned paths: bytes, files, skipped entries, and
/// whether any of them exists.
pub fn scan_totals(paths: &Vec<PathScanSummary>) -> (res: (u64, u64, u64, bool))
    requires
        bytes_sum(paths@) <= u64::MAX,
        files_sum(paths@) <= u64::MAX,
        skipped_sum(paths@) <= u64::MAX,
    ensures
        res.0 == bytes_sum(paths@),
        res.1 == files_sum(paths@),
        res.2 == skipped_sum(paths@),
        res.3 == any_exists(paths@),
{
    let mut bytes: u64 = 0;
    let mut files: u64 = 0;
    let mut skipped: u64 = 0;
    let mut exists = false;
    let mut i: usize = 0;
    while i < paths.len()
        invariant
            i <= paths.len(),
            bytes_sum(paths@) <= u64::MAX,
            files_sum(paths@) <= u64::MAX,
            skipped_sum(paths@) <= u64::MAX,
            bytes == bytes_sum(paths@.subrange(0, i as int)),
            files == files_sum(paths@.subrange(0, i as int)),
            skipped == skipped_sum(paths@.subrange(0, i as int)),
            exists == exists|k: int| 0 <= k < i && #[trigger] paths@[k].exists,
        decreases paths.len() - i,
    {
        proof {
            lemma_sums_monotone(paths@, i + 1);
            assert(paths@.subrange(0, i + 1).drop_last() =~= paths@.subrange(0, i as int));
            assert(paths@.subrange(0, i + 1).last() == paths@[i as int]);
        }
        bytes = bytes + paths[i].total_bytes;
        files = files + paths[i].file_count;
        skipped = skipped + paths[i].skipped_count;
        if paths[i].exists {
            exists = true;
        }
        i = i + 1;
    }
    proof {
        assert(paths@.subrange(0, paths@.len() as int) =~= paths@);
    }
    (bytes, files, skipped, exists)
}



/// Whether the totals of the scanned paths fit in 64 bits, as
/// [`scan_totals`] needs.
pub fn totals_fit(paths: &Vec<PathScanSummary>) -> (r: bool)
    ensures
        r == (bytes_sum(paths@) <= u64::MAX && files_sum(paths@) <= u64::MAX && skipped_sum(paths@) <= u64::MAX),
{
    let mut bytes: u128 = 0;
    let mut files: u128 = 0;
    let mut skipped: u128 = 0;
    let mut i: usize = 0;
    while i < paths.len()
        invariant
            i <= paths.len(),
            bytes == bytes_sum(paths@.subrange(0, i as int)),
            files == files_sum(paths@.subrange(0, i as int)),
            skipped == skipped_sum(paths@.subrange(0, i as int)),
            bytes <= i * 0xFFFF_FFFF_FFFF_FFFFu128,
            files <= i * 0xFFFF_FFFF_FFFF_FFFFu128,
            skipped <= i * 0xFFFF_FFFF_FFFF_FFFFu128,
        decreases paths.len() - i,
    {
        proof {
            assert(paths@.subrange(0, i + 1).drop_last() =~= paths@.subrange(0, i as int));
            assert(paths@.subrange(0, i + 1).last() == paths@[i as int]);
        }
        bytes = bytes + paths[i].total_bytes as u128;
        files = files + paths[i].file_count as u128;
        skipped = skipped + paths[i].skipped_count as u128;
        i = i + 1;
    }
    proof {
        assert(paths@.subrange(0, paths@.len() as int) =~= paths@);
    }
    bytes <= 0xFFFF_FFFF_FFFF_FFFFu128 && files <= 0xFFFF_FFFF_FFFF_FFFFu128 && skipped <= 0xFFFF_FFFF_FFFF_FFFFu128
}

} // verus!
