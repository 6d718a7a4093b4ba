//! Items an operation skipped, with the reason, and the running tallies of
//! operations that process items one by one.
use vstd::prelude::*;
use crate::json::{lemma_view_items_push, view_items, view_fields, Json, JsonValue, ObjectBuilder};
use crate::text::owned;

verus! {

/// A path that could not be processed, and why.
pub struct PathFailure {
    pub path: String,
    pub reason: String,
}

/// The views of failures as `(path, reason)` pairs.
pub open spec fn failure_views(f: Seq<PathFailure>) -> Seq<(Seq<char>, Seq<char>)> {
    f.map_values(|x: PathFailure| (x.path@, x.reason@))
}

/// A failure as it is recorded: `{"path": .., "reason": ..}`.
pub open spec fn failure_json(p: (Seq<char>, Seq<char>)) -> Json {
    Json::Object(seq![("path"@, Json::Str(p.0)), ("reason"@, Json::Str(p.1))])
}

/// Failures as they are recorded: an array of `{"path", "reason"}` objects.
pub open spec fn failures_json(f: Seq<(Seq<char>, Seq<char>)>) -> Json {
    Json::Array(f.map_values(|p: (Seq<char>, Seq<char>)| failure_json(p)))
}

/// A failure.
pub fn failure(path: &str, reason: &str) -> (f: PathFailure)
    ensures
        f.path@ == path@,
        f.reason@ == reason@,
{
    PathFailure { path: owned(path), reason: owned(reason) }
}

/// The record of one failure.
pub fn failure_to_json(f: &PathFailure) -> (v: JsonValue)
    ensures
        v@ == failure_json((f.path@, f.reason@)),
{
    let mut b = ObjectBuilder::new();
    b.str_field("path", f.path.as_str());
    b.str_field("reason", f.reason.as_str());
    proof {
        assert(view_fields(b.fields@) =~= seq![("path"@, Json::Str(f.path@)), ("reason"@, Json::Str(f.reason@))]);
    }
    b.build()
}

/// The record of a list of failures.
pub fn failures_to_json(failures: &Vec<PathFailure>) -> (v: JsonValue)
    ensures
        v@ == failures_json(failure_views(failures@)),
{
    let mut out: Vec<JsonValue> = Vec::new();
    let mut i: usize = 0;
    while i < failures.len()
        invariant
            i <= failures.len(),
            view_items(out@) == failure_views(failures@.subrange(0, i as int)).map_values(
                |p: (Seq<char>, Seq<char>)| failure_json(p),
            ),
        decreases failures.len() - i,
    {
        let x = failure_to_json(&failures[i]);
        proof {
            lemma_view_items_push(out@, x);
            assert(failure_views(failures@.subrange(0, i + 1)) =~= failure_views(
                failures@.subrange(0, i as int),
            ).push((failures@[i as int].path@, failures@[i as int].reason@)));
        }
        out.push(x);
        proof {
            assert(view_items(out@) =~= failure_views(failures@.subrange(0, i + 1)).map_values(
                |p: (Seq<char>, Seq<char>)| failure_json(p),
            ));
        }
        i = i + 1;
    }
    assert(failures@.subrange(0, failures@.len() as int) =~= failures@);
    JsonValue::Array(out)
}

/// Checks that an item can be moved back from `from` to `to` before a
/// rollback tries it: it must still be at `from` (else the failure names
/// `from`, with `missing_reason`), and nothing may stand at `to` (else the
/// failure names `to`).
pub fn restore_precheck(from: &str, to: &str, from_exists: bool, to_exists: bool, missing_reason: &str) -> (res: Result<
    (),
    PathFailure,
>)
    ensures
        match res {
            Ok(()) => from_exists && !to_exists,
            Err(f) => if !from_exists {
                f.path@ == from@ && f.reason@ == missing_reason@
            } else {
                to_exists && f.path@ == to@ && f.reason@ == "original path already exists"@
            },
        },
{
    if !from_exists {
        Err(failure(from, missing_reason))
    } else if to_exists {
        Err(failure(to, "original path already exists"))
    } else {
        Ok(())
    }
}

/// `n`, capped at `u64::MAX`.
pub open spec fn capped(n: nat) -> u64 {
    if n > u64::MAX {
        u64::MAX
    } else {
        n as u64
    }
}

/// The sum of a sequence of byte counts.
pub open spec fn byte_sum(s: Seq<u64>) -> nat
    decreases s.len(),
{
    if s.len() == 0 {
        0
    } else {
        byte_sum(s.drop_last()) + (s.last() as nat)
    }
}

/// Adding `b` to a capped sum with a saturating addition gives the capped
/// sum of `s` followed by `b`.
pub proof fn lemma_capped_push(s: Seq<u64>, b: u64)
    ensures
        byte_sum(s.push(b)) == byte_sum(s) + b,
        capped(byte_sum(s.push(b))) == (if capped(byte_sum(s)) + b > u64::MAX {
            u64::MAX as int
        } else {
            capped(byte_sum(s)) + b
        }),
{
    assert(s.push(b).drop_last() =~= s);
}

/// The running tally of an operation that processes a known number of
/// items one by one: how many items there are, how many were done, how
/// many skipped, and the failures. No item is counted twice: done and
/// skipped together never exceed the total, and every failure belongs to a
/// skipped item.
pub struct Tally {
    done_count: u64,
    skipped_count: u64,
    total_count: u64,
    failures: Vec<PathFailure>,
}

impl Tally {
    /// The number of items done.
    pub closed spec fn spec_done(&self) -> u64 {
        self.done_count
    }

    /// The number of items skipped.
    pub closed spec fn spec_skipped(&self) -> u64 {
        self.skipped_count
    }

    /// The number of items announced.
    pub closed spec fn spec_total(&self) -> u64 {
        self.total_count
    }

    /// The failures recorded, in order.
    pub closed spec fn failure_list(&self) -> Seq<PathFailure> {
        self.failures@
    }

    /// No item is counted twice and every failure belongs to a skipped item.
    pub open spec fn inv(&self) -> bool {
        &&& self.done() + self.skipped() <= self.total()
        &&& self.failure_list().len() <= self.skipped()
    }

    /// Some announced item is still to be counted.
    pub open spec fn has_room(&self) -> bool {
        self.done() + self.skipped() < self.total()
    }

    /// Every announced item has been counted.
    pub open spec fn complete(&self) -> bool {
        self.done() + self.skipped() == self.total()
    }

    /// A tally of `total` items, none processed yet.
    pub fn new(total: u64) -> (t: Tally)
        ensures
            t.inv(),
            t.done() == 0,
            t.skipped() == 0,
            t.total() == total,
            t.failure_list().len() == 0,
    {
        Tally { done_count: 0, skipped_count: 0, total_count: total, failures: Vec::new() }
    }

    /// The number of items done.
    #[verifier::when_used_as_spec(spec_done)]
    pub fn done(&self) -> (n: u64)
        ensures
            n == self.done(),
    {
        self.done_count
    }

    /// The number of items skipped.
    #[verifier::when_used_as_spec(spec_skipped)]
    pub fn skipped(&self) -> (n: u64)
        ensures
            n == self.skipped(),
    {
        self.skipped_count
    }

    /// The number of items announced.
    #[verifier::when_used_as_spec(spec_total)]
    pub fn total(&self) -> (n: u64)
        ensures
            n == self.total(),
    {
        self.total_count
    }

    /// The failures recorded, in order.
    pub fn failures(&self) -> (f: &Vec<PathFailure>)
        ensures
            f@ == self.failure_list(),
    {
        &self.failures
    }

    /// The failures recorded, taken out of the tally.
    pub fn into_failures(self) -> (f: Vec<PathFailure>)
        ensures
            f@ == self.failure_list(),
    {
        self.failures
    }

    /// Whether every announced item has been counted.
    pub fn is_complete(&self) -> (r: bool)
        requires
            self.inv(),
        ensures
            r == self.complete(),
            !r ==> self.has_room(),
    {
        self.done_count as u128 + self.skipped_count as u128 == self.total_count as u128
    }

    /// `n` more items are announced.
    pub fn add_items(&mut self, n: u64)
        requires
            old(self).inv(),
            old(self).total() + n <= u64::MAX,
        ensures
            final(self).inv(),
            final(self).total() == old(self).total() + n,
            final(self).done() == old(self).done(),
            final(self).skipped() == old(self).skipped(),
            final(self).failure_list() == old(self).failure_list(),
    {
        self.total_count = self.total_count + n;
    }

    /// One more item done.
    pub fn record_done(&mut self)
        requires
            old(self).inv(),
            old(self).has_room(),
        ensures
            final(self).inv(),
            final(self).total() == old(self).total(),
            final(self).done() == old(self).done() + 1,
            final(self).skipped() == old(self).skipped(),
            final(self).failure_list() == old(self).failure_list(),
    {
        self.done_count = self.done_count + 1;
    }

    /// One more item skipped because of `failure`.
    pub fn record_failure(&mut self, failure: PathFailure)
        requires
            old(self).inv(),
            old(self).has_room(),
        ensures
            final(self).inv(),
            final(self).total() == old(self).total(),
            final(self).done() == old(self).done(),
            final(self).skipped() == old(self).skipped() + 1,
            final(self).failure_list() == old(self).failure_list().push(failure),
    {
        self.skipped_count = self.skipped_count + 1;
        self.failures.push(failure);
    }

    /// The outcome of processing the item at `path`: done, or skipped
    /// with the error as the reason.
    pub fn record_result(&mut self, path: &str, outcome: Result<(), String>)
        requires
            old(self).inv(),
            old(self).has_room(),
        ensures
            final(self).inv(),
            final(self).total() == old(self).total(),
            match outcome {
                Ok(()) => final(self).done() == old(self).done() + 1
                    && final(self).skipped() == old(self).skipped()
                    && final(self).failure_list() == old(self).failure_list(),
                Err(e) => final(self).done() == old(self).done()
                    && final(self).skipped() == old(self).skipped() + 1
                    && failure_views(final(self).failure_list()) == failure_views(old(self).failure_list()).push((path@, e@)),
            },
    {
        match outcome {
            Ok(()) => self.record_done(),
            Err(e) => {
                let ghost before = self.failures@;
                self.record_failure(failure(path, e.as_str()));
                assert(failure_views(self.failures@) =~= failure_views(before).push((path@, e@)));
            },
        }
    }

    /// One more item skipped without a failure being recorded.
    pub fn record_skip(&mut self)
        requires
            old(self).inv(),
            old(self).has_room(),
        ensures
            final(self).inv(),
            final(self).total() == old(self).total(),
            final(self).done() == old(self).done(),
            final(self).skipped() == old(self).skipped() + 1,
            final(self).failure_list() == old(self).failure_list(),
    {
        self.skipped_count = self.skipped_count + 1;
    }
}

} // verus!
