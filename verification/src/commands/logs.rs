//! The operation log as the user sees it: the summary, the export of the
//! failures of an operation, and the rollback of a quarantine cleanup.
use vstd::prelude::*;
use crate::commands::failures::{failure, failure_views, failures_json, failures_to_json, PathFailure, Tally};
use crate::json::{
    get_str, json_get, json_get_array, json_get_str, lemma_view_items_len, view_fields, view_items, Json,
    JsonValue, ObjectBuilder,
};
use crate::storage::logs::{
    contains_string, find_entry, find_entry_index, rollback_of, rollback_targets_of, rollback_targets_spec,
    OperationLogEntry,
};
use crate::text::{
    contains_chars, contains_seq, decimal, owned, push_char, push_decimal, push_str, replace_all,
    replace_all_str, str_eq, chars_of,
};

verus! {

/// The word that confirms the rollback of a quarantine cleanup.
pub const ROLLBACK_CONFIRMATION: &'static str = "RESTORE_FROM_QUARANTINE";

/// A failure recorded by a rollback.
pub type RollbackFailure = PathFailure;

/// The log at a glance.
pub struct LogSummary {
    pub total_operations: u64,
    pub rollbackable_operations: u64,
    pub planned_operations: u64,
    pub failed_operations: u64,
    pub recent: Vec<LogEntryView>,
}

/// One entry as listed.
pub struct LogEntryView {
    pub id: String,
    pub operation_type: String,
    pub status: String,
    pub created_at_ms: u128,
    pub rollbackable: bool,
    pub can_rollback: bool,
    pub summary: String,
    pub failure_count: u64,
}

/// The outcome of a rollback of a quarantine cleanup.
pub struct RollbackResult {
    pub id: String,
    pub rollback_of: String,
    pub status: String,
    pub restored_count: u64,
    pub skipped_count: u64,
    pub failures: Vec<RollbackFailure>,
}

/// Where the failures of an operation were exported.
pub struct FailureExportResult {
    pub operation_id: String,
    pub exported_count: u64,
    pub path: String,
}

/// An item a quarantine cleanup moved: where it was and where it went.
pub struct MovedItem {
    pub original_path: String,
    pub quarantine_path: String,
}

/// The export of the failures of an operation: the file name and the CSV text.
pub struct FailureExport {
    pub file_name: String,
    pub content: String,
    pub exported_count: u64,
}

// ---------------------------------------------------------------------
// File names and CSV
// ---------------------------------------------------------------------

/// A character that cannot stand in a Windows file name.
pub open spec fn is_reserved_char(c: char) -> bool {
    c == '<' || c == '>' || c == ':' || c == '"' || c == '/' || c == '\\' || c == '|' || c == '?'
        || c == '*'
}

/// The character a file name gets in place of `c`.
pub open spec fn safe_char(c: char) -> char {
    if is_reserved_char(c) {
        '-'
    } else {
        c
    }
}

/// `s` with every reserved character replaced by `-`.
pub open spec fn safe_name_spec(s: Seq<char>) -> Seq<char> {
    s.map_values(|c: char| safe_char(c))
}

/// A file name made of `value`: every reserved character becomes `-`.
pub fn safe_name(value: &str) -> (res: String)
    ensures
        res@ == safe_name_spec(value@),
{
    let v = chars_of(value);
    let mut res = String::new();
    let mut i: usize = 0;
    while i < v.len()
        invariant
            v@ == value@,
            i <= v.len(),
            res@ == safe_name_spec(v@.subrange(0, i as int)),
        decreases v.len() - i,
    {
        let c = v[i];
        let d = if c == '<' || c == '>' || c == ':' || c == '"' || c == '/' || c == '\\' || c == '|'
            || c == '?' || c == '*' {
            '-'
        } else {
            c
        };
        push_char(&mut res, d);
        assert(safe_name_spec(v@.subrange(0, i + 1)) =~= safe_name_spec(v@.subrange(0, i as int)).push(
            safe_char(v@[i as int]),
        ));
        i = i + 1;
    }
    assert(v@.subrange(0, v@.len() as int) =~= v@);
    res
}

/// The file name of an export for `value` (`safe_file_name`).
pub fn safe_file_name(value: &str) -> (res: String)
    ensures
        res@ == safe_name_spec(value@),
{
    safe_name(value)
}

/// The characters that make a CSV field need quotes.
pub open spec fn needs_quotes(s: Seq<char>) -> bool {
    s.contains(',') || s.contains('"') || s.contains('\n') || s.contains('\r')
}

/// A CSV field for `s`: quoted, with quotes doubled, where it needs quotes.
pub open spec fn csv_escape_spec(s: Seq<char>) -> Seq<char> {
    if needs_quotes(s) {
        seq!['"'] + replace_all(s, seq!['"'], seq!['"', '"']) + seq!['"']
    } else {
        s
    }
}

/// What a CSV reader takes from a field: the text between the quotes with
/// doubled quotes undone, or the field as it stands.
pub open spec fn csv_unescape_spec(f: Seq<char>) -> Seq<char> {
    if f.len() >= 2 && f[0] == '"' && f.last() == '"' {
        replace_all(f.subrange(1, f.len() - 1), seq!['"', '"'], seq!['"'])
    } else {
        f
    }
}

/// A CSV field for `value` (`csv_escape`).
pub fn csv_escape(value: &str) -> (res: String)
    ensures
        res@ == csv_escape_spec(value@),
{
    let v = chars_of(value);
    let mut specials = false;
    let mut i: usize = 0;
    while i < v.len()
        invariant
            v@ == value@,
            i <= v.len(),
            specials == exists|k: int|
                0 <= k < i && (v@[k] == ',' || v@[k] == '"' || v@[k] == '\n' || v@[k] == '\r'),
        decreases v.len() - i,
    {
        let c = v[i];
        if c == ',' || c == '"' || c == '\n' || c == '\r' {
            specials = true;
        }
        i = i + 1;
    }
    proof {
        if specials {
            let k = choose|k: int|
                0 <= k < i && (v@[k] == ',' || v@[k] == '"' || v@[k] == '\n' || v@[k] == '\r');
            if v@[k] == ',' {
                assert(value@.contains(','));
            } else if v@[k] == '"' {
                assert(value@.contains('"'));
            } else if v@[k] == '\n' {
                assert(value@.contains('\n'));
            } else {
                assert(value@.contains('\r'));
            }
        } else {
            assert(!needs_quotes(value@));
        }
    }
    if specials {
        let mut res = String::new();
        push_char(&mut res, '"');
        let mut q = String::new();
        push_char(&mut q, '"');
        let mut qq = String::new();
        push_char(&mut qq, '"');
        push_char(&mut qq, '"');
        assert(q@ =~= seq!['"']);
        assert(qq@ =~= seq!['"', '"']);
        let inner = replace_all_str(value, q.as_str(), qq.as_str());
        push_str(&mut res, inner.as_str());
        push_char(&mut res, '"');
        assert(res@ =~= seq!['"'] + inner@ + seq!['"']);
        res
    } else {
        owned(value)
    }
}

proof fn lemma_unquote_quoted(s: Seq<char>)
    ensures
        replace_all(replace_all(s, seq!['"'], seq!['"', '"']), seq!['"', '"'], seq!['"']) == s,
    decreases s.len(),
{
    let q = seq!['"'];
    let qq = seq!['"', '"'];
    if s.len() == 0 {
        assert(replace_all(s, q, qq) == s);
    } else {
        let rest = s.subrange(1, s.len() as int);
        lemma_unquote_quoted(rest);
        let r = replace_all(rest, q, qq);
        if s.subrange(0, 1) == q {
            assert(replace_all(s, q, qq) == qq + r);
            let t = qq + r;
            assert(t.subrange(0, 2) =~= qq);
            assert(t.subrange(2, t.len() as int) =~= r);
            assert(replace_all(t, qq, q) == q + replace_all(r, qq, q));
            assert(q + rest =~= s);
        } else {
            assert(s[0] != '"') by {
                if s[0] == '"' {
                    assert(s.subrange(0, 1) =~= q);
                }
            }
            assert(replace_all(s, q, qq) == seq![s[0]] + r);
            let t = seq![s[0]] + r;
            assert(t.subrange(1, t.len() as int) =~= r);
            if t.len() >= 2 {
                assert(t.subrange(0, 2)[0] == s[0]);
                assert(t.subrange(0, 2) != qq);
            }
            assert(t[0] == s[0]);
            assert(replace_all(t, qq, q) == seq![s[0]] + replace_all(r, qq, q));
            assert(seq![s[0]] + rest =~= s);
        }
    }
}

/// A CSV reader gets back exactly the value that was escaped.
pub proof fn law_csv_escape_roundtrip(s: Seq<char>)
    ensures
        csv_unescape_spec(csv_escape_spec(s)) == s,
{
    if needs_quotes(s) {
        let inner = replace_all(s, seq!['"'], seq!['"', '"']);
        let f = seq!['"'] + inner + seq!['"'];
        assert(f.subrange(1, f.len() - 1) =~= inner);
        lemma_unquote_quoted(s);
    } else {
        if s.len() >= 2 && s[0] == '"' {
            assert(s.contains('"'));
        }
    }
}

// ---------------------------------------------------------------------
// Reading the log
// ---------------------------------------------------------------------

/// The failures an operation recorded, with the defaults for missing fields.
pub open spec fn extracted_failures(details: Json) -> Seq<(Seq<char>, Seq<char>)> {
    match json_get_array(details, "failures"@) {
        Some(items) => items.map_values(
            |item: Json|
                (
                    match json_get_str(item, "path"@) {
                        Some(p) => p,
                        None => ""@,
                    },
                    match json_get_str(item, "reason"@) {
                        Some(r) => r,
                        None => "unknown"@,
                    },
                ),
        ),
        None => Seq::empty(),
    }
}

/// The failures an operation recorded in its details (`extract_failures`).
pub fn extract_failures(details: &JsonValue) -> (res: Vec<RollbackFailure>)
    ensures
        failure_views(res@) == extracted_failures(details@),
{
    let mut res: Vec<RollbackFailure> = Vec::new();
    match details.get("failures") {
        Some(list) => match list.as_array() {
            Some(items) => {
                proof {
                    lemma_view_items_len(items@);
                }
                let ghost jitems = view_items(items@);
                let mut i: usize = 0;
                while i < items.len()
                    invariant
                        jitems == view_items(items@),
                        jitems.len() == items@.len(),
                        forall|k: int| 0 <= k < items@.len() ==> #[trigger] jitems[k] == items@[k]@,
                        i <= items.len(),
                        failure_views(res@) == jitems.subrange(0, i as int).map_values(
                            |item: Json|
                                (
                                    match json_get_str(item, "path"@) {
                                        Some(p) => p,
                                        None => ""@,
                                    },
                                    match json_get_str(item, "reason"@) {
                                        Some(r) => r,
                                        None => "unknown"@,
                                    },
                                ),
                        ),
                    decreases items.len() - i,
                {
                    let item = &items[i];
                    let path = match get_str(item, "path") {
                        Some(p) => p,
                        None => "",
                    };
                    let reason = match get_str(item, "reason") {
                        Some(r) => r,
                        None => "unknown",
                    };
                    let ghost before = res@;
                    res.push(failure(path, reason));
                    proof {
                        assert(jitems[i as int] == items@[i as int]@);
                        assert(jitems.subrange(0, i + 1) =~= jitems.subrange(0, i as int).push(jitems[i as int]));
                        assert(failure_views(res@) =~= failure_views(before).push((path@, reason@)));
                    }
                    i = i + 1;
                }
                proof {
                    assert(jitems.subrange(0, items@.len() as int) =~= jitems);
                }
            },
            None => {},
        },
        None => {},
    }
    proof {
        if failure_views(res@) != extracted_failures(details@) {
            assert(failure_views(res@) =~= Seq::<(Seq<char>, Seq<char>)>::empty());
        }
    }
    res
}

/// The entry types that roll back another operation.
pub open spec fn rollback_types() -> Seq<Seq<char>> {
    seq![
        "rollback"@,
        "user-folder-migration-rollback"@,
        "devspace-env-migration-rollback"@,
        "devspace-junction-migration-rollback"@,
    ]
}

/// The operations that already have a rollback record (`rollback_targets`).
pub fn rollback_targets(entries: &Vec<OperationLogEntry>) -> (res: Vec<String>)
    ensures
        res@.map_values(|s: String| s@) == rollback_targets_spec(entries@, rollback_types()),
{
    let types: Vec<&str> = vec![
        "rollback",
        "user-folder-migration-rollback",
        "devspace-env-migration-rollback",
        "devspace-junction-migration-rollback",
    ];
    assert(types@.map_values(|s: &str| s@) =~= rollback_types());
    rollback_targets_of(entries, &types)
}

// ---------------------------------------------------------------------
// Newest first
// ---------------------------------------------------------------------

/// The length of the leading run of `sorted` created no earlier than `key`.
pub open spec fn count_not_older(sorted: Seq<OperationLogEntry>, key: u128) -> int
    decreases sorted.len(),
{
    if sorted.len() == 0 {
        0
    } else if sorted[0].created_at_ms >= key {
        1 + count_not_older(sorted.drop_first(), key)
    } else {
        0
    }
}

/// `x` placed after the leading run of entries no older than it.
pub open spec fn insert_newest_first(sorted: Seq<OperationLogEntry>, x: OperationLogEntry) -> Seq<OperationLogEntry> {
    sorted.insert(count_not_older(sorted, x.created_at_ms), x)
}

/// The entries newest first; entries of the same time keep their order
/// (a stable sort by descending creation time).
pub open spec fn newest_first(s: Seq<OperationLogEntry>) -> Seq<OperationLogEntry>
    decreases s.len(),
{
    if s.len() == 0 {
        s
    } else {
        insert_newest_first(newest_first(s.drop_last()), s.last())
    }
}

/// `s` is ordered from the newest to the oldest.
pub open spec fn is_newest_first(s: Seq<OperationLogEntry>) -> bool {
    forall|i: int, j: int| 0 <= i < j < s.len() ==> s[i].created_at_ms >= s[j].created_at_ms
}

proof fn lemma_count_not_older(sorted: Seq<OperationLogEntry>, key: u128)
    ensures
        0 <= count_not_older(sorted, key) <= sorted.len(),
        forall|i: int| 0 <= i < count_not_older(sorted, key) ==> #[trigger] sorted[i].created_at_ms >= key,
        count_not_older(sorted, key) < sorted.len() ==> sorted[count_not_older(sorted, key)].created_at_ms < key,
    decreases sorted.len(),
{
    if sorted.len() > 0 && sorted[0].created_at_ms >= key {
        lemma_count_not_older(sorted.drop_first(), key);
        assert forall|i: int| 0 <= i < count_not_older(sorted, key) implies #[trigger] sorted[i].created_at_ms >= key by {
            if i > 0 {
                assert(sorted[i] == sorted.drop_first()[i - 1]);
            }
        }
    }
}

/// Insertion keeps the entries ordered newest first.
pub proof fn lemma_insert_newest_first(sorted: Seq<OperationLogEntry>, x: OperationLogEntry)
    requires
        is_newest_first(sorted),
    ensures
        is_newest_first(insert_newest_first(sorted, x)),
        insert_newest_first(sorted, x).len() == sorted.len() + 1,
{
    lemma_count_not_older(sorted, x.created_at_ms);
    let k = count_not_older(sorted, x.created_at_ms);
    let r = insert_newest_first(sorted, x);
    assert forall|i: int, j: int| 0 <= i < j < r.len() implies r[i].created_at_ms >= r[j].created_at_ms by {
        if j < k {
        } else if j == k {
            assert(r[i] == sorted[i]);
        } else if i < k {
            assert(r[j] == sorted[j - 1]);
        } else if i == k {
            assert(r[j] == sorted[j - 1]);
            assert(sorted[k].created_at_ms >= sorted[j - 1].created_at_ms || k == j - 1);
        } else {
            assert(r[i] == sorted[i - 1]);
            assert(r[j] == sorted[j - 1]);
        }
    }
}

/// The log summary lists entries newest first, and keeps every entry.
pub proof fn law_newest_first(s: Seq<OperationLogEntry>)
    ensures
        is_newest_first(newest_first(s)),
        newest_first(s).len() == s.len(),
        newest_first(s).to_multiset() == s.to_multiset(),
    decreases s.len(),
{
    if s.len() > 0 {
        law_newest_first(s.drop_last());
        lemma_insert_newest_first(newest_first(s.drop_last()), s.last());
        lemma_count_not_older(newest_first(s.drop_last()), s.last().created_at_ms);
        vstd::seq_lib::to_multiset_insert(
            newest_first(s.drop_last()),
            count_not_older(newest_first(s.drop_last()), s.last().created_at_ms),
            s.last(),
        );
        vstd::seq_lib::to_multiset_build(s.drop_last(), s.last());
        assert(s.drop_last().push(s.last()) =~= s);
    } else {
        assert(s.to_multiset() =~= newest_first(s).to_multiset());
    }
}

/// The entries, newest first (a stable sort by descending creation time).
pub fn sort_newest_first(entries: Vec<OperationLogEntry>) -> (res: Vec<OperationLogEntry>)
    ensures
        res@ == newest_first(entries@),
{
    let ghost original = entries@;
    let mut rest = entries;
    let mut out: Vec<OperationLogEntry> = Vec::new();
    let ghost mut done: int = 0;
    while rest.len() > 0
        invariant
            0 <= done <= original.len(),
            rest@ == original.subrange(done, original.len() as int),
            out@ == newest_first(original.subrange(0, done)),
        decreases rest.len(),
    {
        let x = rest.remove(0);
        let key = x.created_at_ms;
        let mut k: usize = 0;
        assert(out@.subrange(0, out@.len() as int) =~= out@);
        while k < out.len() && out[k].created_at_ms >= key
            invariant
                k <= out.len(),
                count_not_older(out@, key) == k + count_not_older(out@.subrange(k as int, out@.len() as int), key),
            decreases out.len() - k,
        {
            proof {
                let tail = out@.subrange(k as int, out@.len() as int);
                assert(tail.drop_first() =~= out@.subrange(k + 1, out@.len() as int));
                assert(tail[0] == out@[k as int]);
            }
            k = k + 1;
        }
        proof {
            let tail = out@.subrange(k as int, out@.len() as int);
            if k < out.len() {
                assert(tail[0] == out@[k as int]);
            }
            assert(count_not_older(out@, key) == k);
            assert(original.subrange(0, done + 1).drop_last() =~= original.subrange(0, done));
            assert(original.subrange(0, done + 1).last() == x);
            assert(original.subrange(done, original.len() as int)[0] == x);
            assert(original.subrange(done + 1, original.len() as int) =~= original.subrange(done, original.len() as int).subrange(1, original.len() - done));
        }
        out.insert(k, x);
        proof {
            done = done + 1;
        }
    }
    proof {
        assert(original.subrange(0, done) =~= original);
    }
    out
}

// ---------------------------------------------------------------------
// Summary
// ---------------------------------------------------------------------

/// An entry reports failures or skipped items.
pub open spec fn is_failed_status(status: Seq<char>) -> bool {
    contains_seq(status, "failure"@) || contains_seq(status, "skips"@)
}

/// How many entries are rollbackable.
pub open spec fn count_rollbackable(s: Seq<OperationLogEntry>) -> int
    decreases s.len(),
{
    if s.len() == 0 {
        0
    } else {
        count_rollbackable(s.drop_last()) + if s.last().rollbackable { 1int } else { 0int }
    }
}

/// How many entries are planned.
pub open spec fn count_planned(s: Seq<OperationLogEntry>) -> int
    decreases s.len(),
{
    if s.len() == 0 {
        0
    } else {
        count_planned(s.drop_last()) + if s.last().status@ == "planned"@ { 1int } else { 0int }
    }
}

/// How many entries report failures or skipped items.
pub open spec fn count_failed(s: Seq<OperationLogEntry>) -> int
    decreases s.len(),
{
    if s.len() == 0 {
        0
    } else {
        count_failed(s.drop_last()) + if is_failed_status(s.last().status@) { 1int } else { 0int }
    }
}

/// The failed operations of a log count exactly the entries whose status
/// mentions a failure or skipped items (such as "completed-with-skips" or
/// "completed-with-registry-failure"): appending such an entry to any log
/// adds one, and appending any other entry adds none.
pub proof fn law_failed_operations_count(s: Seq<OperationLogEntry>, e: OperationLogEntry)
    ensures
        count_failed(s.push(e)) == count_failed(s) + if contains_seq(e.status@, "failure"@) || contains_seq(
            e.status@,
            "skips"@,
        ) {
            1int
        } else {
            0int
        },
{
    assert(s.push(e).drop_last() =~= s);
}

/// The rollbackable and planned operations of a log count exactly the
/// entries marked rollbackable and those whose status is "planned":
/// appending an entry adds one to each count it belongs to and nothing to
/// the others.
pub proof fn law_summary_counts(s: Seq<OperationLogEntry>, e: OperationLogEntry)
    ensures
        count_rollbackable(s.push(e)) == count_rollbackable(s) + if e.rollbackable {
            1int
        } else {
            0int
        },
        count_planned(s.push(e)) == count_planned(s) + if e.status@ == "planned"@ {
            1int
        } else {
            0int
        },
{
    assert(s.push(e).drop_last() =~= s);
}

/// `v` lists entry `e` of a log whose rolled-back operations are `targets`.
pub open spec fn lists_entry(v: LogEntryView, e: OperationLogEntry, targets: Seq<Seq<char>>) -> bool {
    &&& v.id@ == e.id@
    &&& v.operation_type@ == e.operation_type@
    &&& v.status@ == e.status@
    &&& v.created_at_ms == e.created_at_ms
    &&& v.rollbackable == e.rollbackable
    &&& v.can_rollback == (e.rollbackable && !targets.contains(e.id@))
    &&& v.summary@ == e.summary@
    &&& v.failure_count == extracted_failures(e.details@).len()
}

/// The number of entries the summary lists.
pub open spec fn recent_len(n: int) -> int {
    if n < 20 {
        n
    } else {
        20
    }
}

fn view_entry(e: &OperationLogEntry, targets: &Vec<String>) -> (v: LogEntryView)
    ensures
        lists_entry(v, *e, targets@.map_values(|s: String| s@)),
{
    let failures = extract_failures(&e.details);
    let n = failures.len() as u64;
    proof {
        assert(failure_views(failures@).len() == failures@.len());
    }
    let in_targets = contains_string(targets, e.id.as_str());
    LogEntryView {
        id: owned(e.id.as_str()),
        operation_type: owned(e.operation_type.as_str()),
        status: owned(e.status.as_str()),
        created_at_ms: e.created_at_ms,
        rollbackable: e.rollbackable,
        can_rollback: e.rollbackable && !in_targets,
        summary: owned(e.summary.as_str()),
        failure_count: n,
    }
}

/// The log at a glance (`get_log_summary`): the counts, and the twenty
/// newest entries.
pub fn get_log_summary(entries: Vec<OperationLogEntry>) -> (res: LogSummary)
    ensures
        res.total_operations == entries@.len(),
        res.rollbackable_operations == count_rollbackable(entries@),
        res.planned_operations == count_planned(entries@),
        res.failed_operations == count_failed(entries@),
        res.recent@.len() == recent_len(entries@.len() as int),
        forall|i: int|
            0 <= i < res.recent@.len() ==> lists_entry(
                #[trigger] res.recent@[i],
                newest_first(entries@)[i],
                rollback_targets_spec(entries@, rollback_types()),
            ),
{
    let targets = rollback_targets(&entries);
    let ghost original = entries@;
    let mut rollbackable: u64 = 0;
    let mut planned: u64 = 0;
    let mut failed: u64 = 0;
    let mut i: usize = 0;
    let failure_word = chars_of("failure");
    let skips_word = chars_of("skips");
    while i < entries.len()
        invariant
            original == entries@,
            failure_word@ == "failure"@,
            skips_word@ == "skips"@,
            i <= entries.len(),
            rollbackable == count_rollbackable(entries@.subrange(0, i as int)),
            planned == count_planned(entries@.subrange(0, i as int)),
            failed == count_failed(entries@.subrange(0, i as int)),
            rollbackable <= i,
            planned <= i,
            failed <= i,
        decreases entries.len() - i,
    {
        proof {
            assert(entries@.subrange(0, i + 1).drop_last() =~= entries@.subrange(0, i as int));
            assert(entries@.subrange(0, i + 1).last() == entries@[i as int]);
        }
        let e = &entries[i];
        if e.rollbackable {
            rollbackable = rollbackable + 1;
        }
        if str_eq(e.status.as_str(), "planned") {
            planned = planned + 1;
        }
        let sv = chars_of(e.status.as_str());
        if contains_chars(&sv, &failure_word) || contains_chars(&sv, &skips_word) {
            failed = failed + 1;
        }
        i = i + 1;
    }
    proof {
        assert(entries@.subrange(0, entries@.len() as int) =~= entries@);
    }
    let total = entries.len() as u64;
    let sorted = sort_newest_first(entries);
    proof {
        law_newest_first(original);
    }
    let mut recent: Vec<LogEntryView> = Vec::new();
    let mut j: usize = 0;
    while j < sorted.len() && j < 20
        invariant
            sorted@ == newest_first(original),
            sorted@.len() == original.len(),
            targets@.map_values(|s: String| s@) == rollback_targets_spec(original, rollback_types()),
            j <= sorted.len(),
            j <= 20,
            recent@.len() == j,
            forall|k: int|
                0 <= k < j ==> lists_entry(
                    #[trigger] recent@[k],
                    sorted@[k],
                    rollback_targets_spec(original, rollback_types()),
                ),
        decreases sorted.len() - j,
    {
        let v = view_entry(&sorted[j], &targets);
        recent.push(v);
        j = j + 1;
    }
    LogSummary {
        total_operations: total,
        rollbackable_operations: rollbackable,
        planned_operations: planned,
        failed_operations: failed,
        recent,
    }
}

// ---------------------------------------------------------------------
// Export of failures
// ---------------------------------------------------------------------

/// The header line of an export.
pub open spec fn export_header() -> Seq<char> {
    "operationId,operationType,status,path,reason\n"@
}

/// One line of an export.
pub open spec fn export_line(e: OperationLogEntry, f: (Seq<char>, Seq<char>)) -> Seq<char> {
    csv_escape_spec(e.id@) + seq![','] + csv_escape_spec(e.operation_type@) + seq![','] + csv_escape_spec(
        e.status@,
    ) + seq![','] + csv_escape_spec(f.0) + seq![','] + csv_escape_spec(f.1) + seq!['\n']
}

/// The raw fields of a CSV record, as a reader splits it: a comma outside
/// quotes ends a field; a quote switches quoting on or off and stays in the
/// field (a doubled quote switches it twice).
pub open spec fn csv_split(s: Seq<char>, quoted: bool, cur: Seq<char>) -> Seq<Seq<char>>
    decreases s.len(),
{
    if s.len() == 0 {
        seq![cur]
    } else if s[0] == ',' && !quoted {
        seq![cur] + csv_split(s.drop_first(), false, Seq::empty())
    } else if s[0] == '"' {
        csv_split(s.drop_first(), !quoted, cur.push('"'))
    } else {
        csv_split(s.drop_first(), quoted, cur.push(s[0]))
    }
}

/// What a CSV reader takes from one line: its fields, each unquoted.
pub open spec fn csv_read_line(line: Seq<char>) -> Seq<Seq<char>> {
    let body = if line.len() > 0 && line.last() == '\n' {
        line.drop_last()
    } else {
        line
    };
    csv_split(body, false, Seq::empty()).map_values(|f: Seq<char>| csv_unescape_spec(f))
}

/// Text without commas and quotes is read as part of the current field.
proof fn lemma_split_plain(x: Seq<char>, t: Seq<char>, quoted: bool, cur: Seq<char>)
    requires
        !x.contains(','),
        !x.contains('"'),
    ensures
        csv_split(x + t, quoted, cur) == csv_split(t, quoted, cur + x),
    decreases x.len(),
{
    if x.len() == 0 {
        assert(x + t =~= t);
        assert(cur + x =~= cur);
    } else {
        let r = x.drop_first();
        assert((x + t).drop_first() =~= r + t);
        assert((x + t)[0] == x[0]);
        assert(!r.contains(',') && !r.contains('"')) by {
            if r.contains(',') {
                let k = choose|k: int| 0 <= k < r.len() && r[k] == ',';
                assert(x[k + 1] == ',');
            }
            if r.contains('"') {
                let k = choose|k: int| 0 <= k < r.len() && r[k] == '"';
                assert(x[k + 1] == '"');
            }
        }
        assert(x[0] != ',' && x[0] != '"') by {
            if x[0] == ',' || x[0] == '"' {
                assert(x.contains(x[0]));
            }
        }
        lemma_split_plain(r, t, quoted, cur.push(x[0]));
        assert(cur.push(x[0]) + r =~= cur + x);
    }
}

/// Inside quotes, text whose quotes are doubled is read as part of the
/// current field, and the reader is still inside quotes after it.
proof fn lemma_split_doubled(x: Seq<char>, t: Seq<char>, cur: Seq<char>)
    ensures
        csv_split(replace_all(x, seq!['"'], seq!['"', '"']) + t, true, cur) == csv_split(
            t,
            true,
            cur + replace_all(x, seq!['"'], seq!['"', '"']),
        ),
    decreases x.len(),
{
    let q = seq!['"'];
    let qq = seq!['"', '"'];
    if x.len() == 0 {
        assert(replace_all(x, q, qq) == x);
        assert(x + t =~= t);
        assert(cur + x =~= cur);
    } else {
        let rest = x.subrange(1, x.len() as int);
        let r = replace_all(rest, q, qq);
        lemma_split_doubled(rest, t, cur + if x[0] == '"' { qq } else { seq![x[0]] });
        if x.subrange(0, 1) == q {
            assert(replace_all(x, q, qq) == qq + r);
            let s0 = qq + r + t;
            assert(s0[0] == '"');
            assert(s0.drop_first()[0] == '"');
            assert(s0.drop_first().drop_first() =~= r + t);
            assert(cur.push('"').push('"') =~= cur + qq);
            assert(x[0] == '"') by {
                assert(x.subrange(0, 1)[0] == x[0]);
            }
            assert(cur + qq + r =~= cur + (qq + r));
            assert(qq + r + t =~= (qq + r) + t);
            assert(csv_split(s0.drop_first(), false, cur.push('"')) == csv_split(r + t, true, cur + qq));
            assert(csv_split(s0, true, cur) == csv_split(s0.drop_first(), false, cur.push('"')));
        } else {
            assert(x[0] != '"') by {
                if x[0] == '"' {
                    assert(x.subrange(0, 1) =~= q);
                }
            }
            assert(replace_all(x, q, qq) == seq![x[0]] + r);
            let s0 = seq![x[0]] + r + t;
            assert(s0[0] == x[0]);
            assert(s0.drop_first() =~= r + t);
            assert(cur.push(x[0]) =~= cur + seq![x[0]]);
            assert(cur + seq![x[0]] + r =~= cur + (seq![x[0]] + r));
            assert((seq![x[0]] + r) + t =~= s0);
            assert(csv_split(s0, true, cur) == csv_split(r + t, true, cur + seq![x[0]]));
        }
    }
}

/// A field escaped for CSV is read whole as the current field, and the
/// reader is outside quotes after it.
proof fn lemma_split_escaped(x: Seq<char>, t: Seq<char>, cur: Seq<char>)
    ensures
        csv_split(csv_escape_spec(x) + t, false, cur) == csv_split(t, false, cur + csv_escape_spec(x)),
{
    let q = seq!['"'];
    let qq = seq!['"', '"'];
    if needs_quotes(x) {
        let inner = replace_all(x, q, qq);
        let f = q + inner + q;
        let s0 = f + t;
        assert(s0[0] == '"');
        assert(s0.drop_first() =~= inner + (q + t));
        lemma_split_doubled(x, q + t, cur.push('"'));
        let qt = q + t;
        assert(qt[0] == '"');
        assert(qt.drop_first() =~= t);
        assert((cur.push('"') + inner).push('"') =~= cur + f);
    } else {
        lemma_split_plain(x, t, false, cur);
    }
}

/// An escaped field followed by a comma ends there.
proof fn lemma_field_comma(x: Seq<char>, rest: Seq<char>)
    ensures
        csv_split(csv_escape_spec(x) + seq![','] + rest, false, Seq::empty()) == seq![csv_escape_spec(x)] + csv_split(
            rest,
            false,
            Seq::empty(),
        ),
{
    let f = csv_escape_spec(x);
    assert(f + seq![','] + rest =~= f + (seq![','] + rest));
    lemma_split_escaped(x, seq![','] + rest, Seq::empty());
    assert(Seq::<char>::empty() + f =~= f);
    let c = seq![','] + rest;
    assert(c[0] == ',');
    assert(c.drop_first() =~= rest);
}

/// Every line of an export reads back, with a CSV reader, as exactly five
/// fields: the operation's identifier, type and status, and the failure's
/// path and reason, whatever commas, quotes or line breaks they hold.
pub proof fn law_export_line_reads_back(e: OperationLogEntry, f: (Seq<char>, Seq<char>))
    ensures
        csv_read_line(export_line(e, f)) == seq![e.id@, e.operation_type@, e.status@, f.0, f.1],
{
    let e1 = csv_escape_spec(e.id@);
    let e2 = csv_escape_spec(e.operation_type@);
    let e3 = csv_escape_spec(e.status@);
    let e4 = csv_escape_spec(f.0);
    let e5 = csv_escape_spec(f.1);
    let c = seq![','];
    let r4 = e5;
    let r3 = e4 + c + r4;
    let r2 = e3 + c + r3;
    let r1 = e2 + c + r2;
    let body = e1 + c + r1;
    let line = export_line(e, f);
    assert(line =~= body.push('\n'));
    assert(line.drop_last() =~= body);
    lemma_field_comma(e.id@, r1);
    lemma_field_comma(e.operation_type@, r2);
    lemma_field_comma(e.status@, r3);
    lemma_field_comma(f.0, r4);
    lemma_split_escaped(f.1, Seq::empty(), Seq::empty());
    assert(e5 + Seq::<char>::empty() =~= e5);
    assert(Seq::<char>::empty() + e5 =~= e5);
    let raw = csv_split(body, false, Seq::empty());
    assert(raw =~= seq![e1, e2, e3, e4, e5]);
    law_csv_escape_roundtrip(e.id@);
    law_csv_escape_roundtrip(e.operation_type@);
    law_csv_escape_roundtrip(e.status@);
    law_csv_escape_roundtrip(f.0);
    law_csv_escape_roundtrip(f.1);
    assert(csv_read_line(line) =~= seq![e.id@, e.operation_type@, e.status@, f.0, f.1]);
}

/// The lines of an export.
pub open spec fn export_lines(e: OperationLogEntry, fs: Seq<(Seq<char>, Seq<char>)>) -> Seq<char>
    decreases fs.len(),
{
    if fs.len() == 0 {
        Seq::empty()
    } else {
        export_lines(e, fs.drop_last()) + export_line(e, fs.last())
    }
}

/// What exporting the failures of operation `id` gives: the file name and
/// the text, or why there is nothing to export.
pub open spec fn failure_export_spec(entries: Seq<OperationLogEntry>, id: Seq<char>) -> Result<
    (Seq<char>, Seq<char>, int),
    Seq<char>,
> {
    match find_entry(entries, id) {
        None => Err("operation "@ + id + " not found"@),
        Some(k) => {
            let fs = extracted_failures(entries[k].details@);
            if fs.len() == 0 {
                Err("operation has no failure items to export"@)
            } else {
                Ok(
                    (
                        "failures-"@ + safe_name_spec(id) + ".csv"@,
                        export_header() + export_lines(entries[k], fs),
                        fs.len() as int,
                    ),
                )
            }
        },
    }
}

/// Prepares the export of the failures of operation `operation_id`
/// (`export_operation_failures`): the file name and the CSV text.
pub fn export_operation_failures(entries: &Vec<OperationLogEntry>, operation_id: &str) -> (res: Result<
    FailureExport,
    String,
>)
    ensures
        match res {
            Ok(x) => failure_export_spec(entries@, operation_id@) == Ok::<(Seq<char>, Seq<char>, int), Seq<char>>(
                (x.file_name@, x.content@, x.exported_count as int),
            ),
            Err(e) => failure_export_spec(entries@, operation_id@) == Err::<(Seq<char>, Seq<char>, int), Seq<char>>(
                e@,
            ),
        },
{
    let k = match find_entry_index(entries, operation_id) {
        Some(k) => k,
        None => {
            let mut msg = owned("operation ");
            push_str(&mut msg, operation_id);
            push_str(&mut msg, " not found");
            return Err(msg);
        },
    };
    let entry = &entries[k];
    let failures = extract_failures(&entry.details);
    if failures.len() == 0 {
        return Err(owned("operation has no failure items to export"));
    }
    let mut file_name = owned("failures-");
    let safe = safe_file_name(operation_id);
    push_str(&mut file_name, safe.as_str());
    push_str(&mut file_name, ".csv");
    let mut content = owned("operationId,operationType,status,path,reason\n");
    let id_field = csv_escape(entry.id.as_str());
    let type_field = csv_escape(entry.operation_type.as_str());
    let status_field = csv_escape(entry.status.as_str());
    let ghost fs = failure_views(failures@);
    let mut i: usize = 0;
    while i < failures.len()
        invariant
            fs == failure_views(failures@),
            i <= failures.len(),
            id_field@ == csv_escape_spec(entry.id@),
            type_field@ == csv_escape_spec(entry.operation_type@),
            status_field@ == csv_escape_spec(entry.status@),
            content@ == export_header() + export_lines(*entry, fs.subrange(0, i as int)),
        decreases failures.len() - i,
    {
        let ghost before = content@;
        push_str(&mut content, id_field.as_str());
        push_char(&mut content, ',');
        push_str(&mut content, type_field.as_str());
        push_char(&mut content, ',');
        push_str(&mut content, status_field.as_str());
        push_char(&mut content, ',');
        let p = csv_escape(failures[i].path.as_str());
        push_str(&mut content, p.as_str());
        push_char(&mut content, ',');
        let r = csv_escape(failures[i].reason.as_str());
        push_str(&mut content, r.as_str());
        push_char(&mut content, '\n');
        proof {
            assert(fs.subrange(0, i + 1).drop_last() =~= fs.subrange(0, i as int));
            assert(fs.subrange(0, i + 1).last() == (failures@[i as int].path@, failures@[i as int].reason@));
            assert(content@ =~= before + export_line(*entry, fs.subrange(0, i + 1).last()));
        }
        i = i + 1;
    }
    proof {
        assert(fs.subrange(0, failures@.len() as int) =~= fs);
    }
    Ok(FailureExport { file_name, content, exported_count: failures.len() as u64 })
}

// ---------------------------------------------------------------------
// Rollback of a quarantine cleanup
// ---------------------------------------------------------------------

/// The moved items a record lists: objects (or pairs) of two strings.
pub open spec fn parse_moved_pair(item: Json, first: Seq<char>, second: Seq<char>) -> Option<(Seq<char>, Seq<char>)> {
    match item {
        Json::Object(_) => match (json_get_str(item, first), json_get_str(item, second)) {
            (Some(a), Some(b)) => Some((a, b)),
            _ => None,
        },
        Json::Array(xs) => if xs.len() == 2 {
            match (xs[0], xs[1]) {
                (Json::Str(a), Json::Str(b)) => Some((a, b)),
                _ => None,
            }
        } else {
            None
        },
        _ => None,
    }
}

/// Every element of `items` is a pair of the two named strings.
pub open spec fn all_pairs(items: Seq<Json>, first: Seq<char>, second: Seq<char>) -> bool {
    forall|i: int| 0 <= i < items.len() ==> (#[trigger] parse_moved_pair(items[i], first, second)) is Some
}

/// The pairs the elements of `items` hold.
pub open spec fn pairs_of(items: Seq<Json>, first: Seq<char>, second: Seq<char>) -> Seq<(Seq<char>, Seq<char>)> {
    items.map_values(|x: Json| parse_moved_pair(x, first, second).unwrap())
}

/// Reads a pair of the two named strings from one element.
pub fn read_pair(item: &JsonValue, first: &str, second: &str) -> (r: Option<(String, String)>)
    ensures
        match r {
            Some(p) => parse_moved_pair(item@, first@, second@) == Some((p.0@, p.1@)),
            None => parse_moved_pair(item@, first@, second@) is None,
        },
{
    match item {
        JsonValue::Object(_) => {
            let a = get_str(item, first);
            let b = get_str(item, second);
            match (a, b) {
                (Some(a), Some(b)) => Some((owned(a), owned(b))),
                _ => None,
            }
        },
        JsonValue::Array(xs) => {
            proof {
                lemma_view_items_len(xs@);
            }
            if xs.len() == 2 {
                match (&xs[0], &xs[1]) {
                    (JsonValue::Str(a), JsonValue::Str(b)) => Some((owned(a.as_str()), owned(b.as_str()))),
                    _ => None,
                }
            } else {
                None
            }
        },
        _ => None,
    }
}

/// Reads the list of pairs stored under `key`.
pub fn read_pairs(details: &JsonValue, key: &str, first: &str, second: &str) -> (r: Option<Vec<(String, String)>>)
    ensures
        match r {
            Some(ps) => json_get_array(details@, key@) matches Some(items) && all_pairs(items, first@, second@)
                && ps@.map_values(|p: (String, String)| (p.0@, p.1@)) == pairs_of(items, first@, second@),
            None => !(json_get_array(details@, key@) matches Some(items) && all_pairs(items, first@, second@)),
        },
{
    let list = match details.get(key) {
        Some(l) => l,
        None => return None,
    };
    let items = match list.as_array() {
        Some(a) => a,
        None => return None,
    };
    proof {
        lemma_view_items_len(items@);
    }
    let ghost jitems = view_items(items@);
    let mut out: Vec<(String, String)> = Vec::new();
    let mut i: usize = 0;
    while i < items.len()
        invariant
            jitems == view_items(items@),
            jitems.len() == items@.len(),
            forall|k: int| 0 <= k < items@.len() ==> #[trigger] jitems[k] == items@[k]@,
            json_get_array(details@, key@) == Some(jitems),
            i <= items.len(),
            all_pairs(jitems.subrange(0, i as int), first@, second@),
            out@.map_values(|p: (String, String)| (p.0@, p.1@)) == pairs_of(jitems.subrange(0, i as int), first@, second@),
        decreases items.len() - i,
    {
        let p = match read_pair(&items[i], first, second) {
            Some(p) => p,
            None => {
                assert(jitems[i as int] == items@[i as int]@);
                assert(!all_pairs(jitems, first@, second@));
                return None;
            },
        };
        let ghost before = out@;
        out.push(p);
        proof {
            assert(jitems[i as int] == items@[i as int]@);
            assert(jitems.subrange(0, i + 1) =~= jitems.subrange(0, i as int).push(jitems[i as int]));
            assert(all_pairs(jitems.subrange(0, i + 1), first@, second@)) by {
                assert forall|k: int| 0 <= k < i + 1 implies (#[trigger] parse_moved_pair(jitems.subrange(0, i + 1)[k], first@, second@)) is Some by {
                    if k < i {
                        assert(jitems.subrange(0, i + 1)[k] == jitems.subrange(0, i as int)[k]);
                    }
                }
            }
            assert(out@.map_values(|p: (String, String)| (p.0@, p.1@)) =~= before.map_values(|p: (String, String)| (p.0@, p.1@)).push((p.0@, p.1@)));
            assert(pairs_of(jitems.subrange(0, i + 1), first@, second@) =~= pairs_of(jitems.subrange(0, i as int), first@, second@).push(
                parse_moved_pair(jitems[i as int], first@, second@).unwrap(),
            ));
        }
        i = i + 1;
    }
    proof {
        assert(jitems.subrange(0, items@.len() as int) =~= jitems);
    }
    Some(out)
}

/// Why a rollback request is refused before anything is restored.
pub enum RollbackRefusal {
    /// The confirmation word is not the expected one.
    Confirmation,
    /// The operation already has a rollback record.
    AlreadyRolledBack,
    /// No operation has that identifier.
    NotFound,
    /// The operation is of another kind, or not rollbackable.
    NotRollbackable,
}

/// The outcome of checking a request to roll back operation `id` against
/// a rollback confirmation `expected` and the operation type `kind`: the
/// position of the operation's entry, or why the request is refused.
pub open spec fn rollback_check(
    entries: Seq<OperationLogEntry>,
    targets: Seq<Seq<char>>,
    id: Seq<char>,
    confirmation: Seq<char>,
    expected: Seq<char>,
    kind: Seq<char>,
) -> Result<int, RollbackRefusal> {
    if confirmation != expected {
        Err(RollbackRefusal::Confirmation)
    } else if targets.contains(id) {
        Err(RollbackRefusal::AlreadyRolledBack)
    } else {
        match find_entry(entries, id) {
            None => Err(RollbackRefusal::NotFound),
            Some(k) => if entries[k].operation_type@ != kind || !entries[k].rollbackable {
                Err(RollbackRefusal::NotRollbackable)
            } else {
                Ok(k)
            },
        }
    }
}

/// What a rollback of quarantine cleanup `id` restores, or why it is refused.
pub open spec fn quarantine_rollback_spec(entries: Seq<OperationLogEntry>, id: Seq<char>, confirmation: Seq<char>) -> Result<
    Seq<(Seq<char>, Seq<char>)>,
    Seq<char>,
> {
    match rollback_check(
        entries,
        rollback_targets_spec(entries, rollback_types()),
        id,
        confirmation,
        ROLLBACK_CONFIRMATION@,
        "cleanup-quarantine"@,
    ) {
        Err(RollbackRefusal::Confirmation) => Err("invalid rollback confirmation"@),
        Err(RollbackRefusal::AlreadyRolledBack) => Err("operation already has a rollback record"@),
        Err(RollbackRefusal::NotFound) => Err("operation "@ + id + " not found"@),
        Err(RollbackRefusal::NotRollbackable) => Err("operation is not rollbackable"@),
        Ok(k) => match json_get(entries[k].details@, "movedItems"@) {
            None => Err("operation log does not include movedItems"@),
            Some(_) => match json_get_array(entries[k].details@, "movedItems"@) {
                Some(items) => if all_pairs(items, "originalPath"@, "quarantinePath"@) {
                    Ok(pairs_of(items, "originalPath"@, "quarantinePath"@))
                } else {
                    Err(moved_items_error())
                },
                None => Err(moved_items_error()),
            },
        },
    }
}

/// Why a list of moved items cannot be read.
pub open spec fn moved_items_error() -> Seq<char> {
    "failed to parse movedItems: expected a list of items with originalPath and quarantinePath"@
}

/// Checks a request to roll back quarantine cleanup `operation_id` and
/// reads the items it moved (before any
/// item is restored).
pub fn prepare_quarantine_rollback(entries: &Vec<OperationLogEntry>, operation_id: &str, confirmation: &str) -> (res: Result<
    Vec<MovedItem>,
    String,
>)
    ensures
        match res {
            Ok(items) => quarantine_rollback_spec(entries@, operation_id@, confirmation@) == Ok::<Seq<(Seq<char>, Seq<char>)>, Seq<char>>(
                items@.map_values(|m: MovedItem| (m.original_path@, m.quarantine_path@)),
            ),
            Err(e) => quarantine_rollback_spec(entries@, operation_id@, confirmation@) == Err::<Seq<(Seq<char>, Seq<char>)>, Seq<char>>(e@),
        },
{
    if !str_eq(confirmation, ROLLBACK_CONFIRMATION) {
        return Err(owned("invalid rollback confirmation"));
    }
    let targets = rollback_targets(entries);
    if contains_string(&targets, operation_id) {
        return Err(owned("operation already has a rollback record"));
    }
    let k = match find_entry_index(entries, operation_id) {
        Some(k) => k,
        None => {
            let mut msg = owned("operation ");
            push_str(&mut msg, operation_id);
            push_str(&mut msg, " not found");
            return Err(msg);
        },
    };
    let entry = &entries[k];
    if !str_eq(entry.operation_type.as_str(), "cleanup-quarantine") || !entry.rollbackable {
        return Err(owned("operation is not rollbackable"));
    }
    if entry.details.get("movedItems").is_none() {
        return Err(owned("operation log does not include movedItems"));
    }
    let pairs = match read_pairs(&entry.details, "movedItems", "originalPath", "quarantinePath") {
        Some(p) => p,
        None => {
            return Err(owned(
                "failed to parse movedItems: expected a list of items with originalPath and quarantinePath",
            ));
        },
    };
    let mut out: Vec<MovedItem> = Vec::new();
    let mut i: usize = 0;
    while i < pairs.len()
        invariant
            i <= pairs.len(),
            out@.map_values(|m: MovedItem| (m.original_path@, m.quarantine_path@)) == pairs@.subrange(0, i as int).map_values(
                |p: (String, String)| (p.0@, p.1@),
            ),
        decreases pairs.len() - i,
    {
        let ghost before = out@;
        out.push(MovedItem { original_path: owned(pairs[i].0.as_str()), quarantine_path: owned(pairs[i].1.as_str()) });
        proof {
            assert(out@.map_values(|m: MovedItem| (m.original_path@, m.quarantine_path@)) =~= before.map_values(
                |m: MovedItem| (m.original_path@, m.quarantine_path@),
            ).push((pairs@[i as int].0@, pairs@[i as int].1@)));
            assert(pairs@.subrange(0, i + 1).map_values(|p: (String, String)| (p.0@, p.1@)) =~= pairs@.subrange(0, i as int).map_values(
                |p: (String, String)| (p.0@, p.1@),
            ).push((pairs@[i as int].0@, pairs@[i as int].1@)));
        }
        i = i + 1;
    }
    proof {
        assert(pairs@.subrange(0, pairs@.len() as int) =~= pairs@);
    }
    Ok(out)
}

/// The status of a rollback: whether some item was skipped.
pub open spec fn rollback_status(failures: int) -> Seq<char> {
    if failures == 0 {
        "rolled-back"@
    } else {
        "rolled-back-with-skips"@
    }
}

/// The text that summarises a quarantine rollback.
pub open spec fn quarantine_rollback_summary(restored: u64, skipped: u64) -> Seq<char> {
    "隔离清理回滚：恢复 "@ + decimal(restored as nat) + " 项，跳过 "@ + decimal(skipped as nat) + " 项"@
}

/// The details of a rollback record.
pub open spec fn rollback_details(of: Seq<char>, restored: u64, skipped: u64, failures: Seq<(Seq<char>, Seq<char>)>) -> Json {
    Json::Object(
        seq![
            ("rollbackOf"@, Json::Str(of)),
            ("restoredCount"@, Json::UInt(restored)),
            ("skippedCount"@, Json::UInt(skipped)),
            ("failures"@, failures_json(failures)),
        ],
    )
}

/// The details of a rollback record.
pub fn rollback_details_json(of: &str, restored: u64, skipped: u64, failures: &Vec<PathFailure>) -> (v: JsonValue)
    ensures
        v@ == rollback_details(of@, restored, skipped, failure_views(failures@)),
{
    let mut b = ObjectBuilder::new();
    b.str_field("rollbackOf", of);
    b.uint_field("restoredCount", restored);
    b.uint_field("skippedCount", skipped);
    b.field("failures", failures_to_json(failures));
    proof {
        assert(view_fields(b.fields@) =~= seq![
            ("rollbackOf"@, Json::Str(of@)),
            ("restoredCount"@, Json::UInt(restored)),
            ("skippedCount"@, Json::UInt(skipped)),
            ("failures"@, failures_json(failure_views(failures@))),
        ]);
    }
    b.build()
}

/// The status word for a number of failures.
pub fn rollback_status_string(failures: usize) -> (s: String)
    ensures
        s@ == rollback_status(failures as int),
{
    if failures == 0 {
        owned("rolled-back")
    } else {
        owned("rolled-back-with-skips")
    }
}

/// Records the end of the rollback of quarantine cleanup `operation_id`:
/// the log entry and the result.
pub fn finish_quarantine_rollback(operation_id: &str, rollback_id: &str, created_at_ms: u128, tally: Tally) -> (res: (
    OperationLogEntry,
    RollbackResult,
))
    requires
        tally.inv(),
        tally.complete(),
    ensures
        res.1.restored_count + res.1.skipped_count == tally.total(),
        res.1.failures@.len() <= res.1.skipped_count,
        res.0.id@ == rollback_id@,
        res.0.operation_type@ == "rollback"@,
        res.0.status@ == rollback_status(tally.failure_list().len() as int),
        res.0.created_at_ms == created_at_ms,
        !res.0.rollbackable,
        res.0.summary@ == quarantine_rollback_summary(tally.done(), tally.skipped()),
        res.0.details@ == rollback_details(operation_id@, tally.done(), tally.skipped(), failure_views(tally.failure_list())),
        res.1.id@ == rollback_id@,
        res.1.rollback_of@ == operation_id@,
        res.1.status@ == rollback_status(tally.failure_list().len() as int),
        res.1.restored_count == tally.done(),
        res.1.skipped_count == tally.skipped(),
        failure_views(res.1.failures@) == failure_views(tally.failure_list()),
{
    let status = rollback_status_string(tally.failures().len());
    let mut summary = owned("隔离清理回滚：恢复 ");
    push_decimal(&mut summary, tally.done() as u128);
    push_str(&mut summary, " 项，跳过 ");
    push_decimal(&mut summary, tally.skipped() as u128);
    push_str(&mut summary, " 项");
    let details = rollback_details_json(operation_id, tally.done(), tally.skipped(), tally.failures());
    let entry = OperationLogEntry {
        id: owned(rollback_id),
        operation_type: owned("rollback"),
        status: owned(status.as_str()),
        created_at_ms,
        rollbackable: false,
        summary,
        details,
    };
    let result = RollbackResult {
        id: owned(rollback_id),
        rollback_of: owned(operation_id),
        status,
        restored_count: tally.done(),
        skipped_count: tally.skipped(),
        failures: tally.into_failures(),
    };
    (entry, result)
}

/// A quarantine cleanup can be rolled back at most once: once the log holds
/// the rollback record of an operation, another rollback of it is refused.
pub proof fn law_quarantine_rollback_once(
    entries: Seq<OperationLogEntry>,
    record: OperationLogEntry,
    id: Seq<char>,
    confirmation: Seq<char>,
)
    requires
        record.operation_type@ == "rollback"@,
        rollback_of(record) == Some(id),
        confirmation == ROLLBACK_CONFIRMATION@,
    ensures
        quarantine_rollback_spec(entries.push(record), id, confirmation) == Err::<Seq<(Seq<char>, Seq<char>)>, Seq<char>>(
            "operation already has a rollback record"@,
        ),
{
    let all = entries.push(record);
    assert(all.drop_last() =~= entries);
    assert(all.last() == record);
    assert(rollback_types().contains("rollback"@)) by {
        assert(rollback_types()[0] == "rollback"@);
    }
    let t = rollback_targets_spec(all, rollback_types());
    assert(t == rollback_targets_spec(entries, rollback_types()).push(id));
    assert(t[t.len() - 1] == id);
    assert(t.contains(id));
}

/// The rollback record of an operation names it: the details of a record
/// built for `operation_id` have `rollbackOf` equal to it.
pub proof fn law_rollback_record_names_operation(of: Seq<char>, restored: u64, skipped: u64, failures: Seq<(Seq<char>, Seq<char>)>)
    ensures
        crate::json::json_get_str(rollback_details(of, restored, skipped, failures), "rollbackOf"@) == Some(of),
{
    let fields = seq![
        ("rollbackOf"@, Json::Str(of)),
        ("restoredCount"@, Json::UInt(restored)),
        ("skippedCount"@, Json::UInt(skipped)),
        ("failures"@, failures_json(failures)),
    ];
    assert(fields[0].0 == "rollbackOf"@);
}

} // verus!
