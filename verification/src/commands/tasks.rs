//! The registry of task cancellation requests.
//!
//! A long-running task (a scan, a quarantine cleanup, a migration) polls the
//! registry under its task name; the user interface asks for cancellation by
//! adding the name, and the task clears it when it starts and when it ends.
use vstd::prelude::*;
use crate::text::{owned, push_str, str_eq};

verus! {

/// The set of task names whose cancellation has been requested.
pub struct CancelRegistry {
    tasks: Vec<String>,
}

impl View for CancelRegistry {
    type V = Set<Seq<char>>;

    closed spec fn view(&self) -> Set<Seq<char>> {
        Set::new(|t: Seq<char>| exists|i: int| 0 <= i < self.tasks@.len() && #[trigger] self.tasks@[i]@ == t)
    }
}

impl CancelRegistry {
    /// A registry with no pending cancellation request.
    pub fn new() -> (r: CancelRegistry)
        ensures
            r@ == Set::<Seq<char>>::empty(),
    {
        let r = CancelRegistry { tasks: Vec::new() };
        assert(r@ =~= Set::<Seq<char>>::empty());
        r
    }
}

/// Records a cancellation request for `task` (`request_task_cancel`).
pub fn request_task_cancel(registry: &mut CancelRegistry, task: String)
    ensures
        final(registry)@ == old(registry)@.insert(task@),
{
    if is_task_cancelled(registry, task.as_str()) {
        assert(old(registry)@.insert(task@) =~= old(registry)@);
        return;
    }
    let ghost before = registry.tasks@;
    registry.tasks.push(task);
    proof {
        assert forall|t: Seq<char>| #[trigger] registry@.contains(t) == old(registry)@.insert(task@).contains(t) by {
            if old(registry)@.contains(t) {
                let i = choose|i: int| 0 <= i < before.len() && #[trigger] before[i]@ == t;
                assert(registry.tasks@[i] == before[i]);
            }
            if t == task@ {
                assert(registry.tasks@[before.len() as int]@ == t);
            }
            if registry@.contains(t) {
                let i = choose|i: int| 0 <= i < registry.tasks@.len() && #[trigger] registry.tasks@[i]@ == t;
                if i < before.len() {
                    assert(before[i]@ == t);
                }
            }
        }
        assert(registry@ =~= old(registry)@.insert(task@));
    }
}

/// Forgets any cancellation request for `task` (`clear_task_cancel`).
pub fn clear_task_cancel(registry: &mut CancelRegistry, task: &str)
    ensures
        final(registry)@ == old(registry)@.remove(task@),
{
    let mut kept: Vec<String> = Vec::new();
    let mut i: usize = 0;
    let ghost before = registry.tasks@;
    while i < registry.tasks.len()
        invariant
            registry.tasks@ == before,
            i <= before.len(),
            forall|k: int| 0 <= k < kept@.len() ==> #[trigger] kept@[k]@ != task@,
            forall|k: int|
                #![trigger kept@[k]]
                0 <= k < kept@.len() ==> exists|j: int| 0 <= j < i && #[trigger] before[j]@ == kept@[k]@,
            forall|j: int|
                0 <= j < i && #[trigger] before[j]@ != task@ ==> exists|k: int|
                    0 <= k < kept@.len() && #[trigger] kept@[k]@ == before[j]@,
        decreases before.len() - i,
    {
        let ghost prev_kept = kept@;
        if !str_eq(registry.tasks[i].as_str(), task) {
            let copy = owned(registry.tasks[i].as_str());
            kept.push(copy);
            assert(kept@[kept@.len() - 1]@ == before[i as int]@);
        }
        proof {
            assert forall|j: int| 0 <= j < i + 1 && #[trigger] before[j]@ != task@ implies exists|k: int|
                0 <= k < kept@.len() && #[trigger] kept@[k]@ == before[j]@ by {
                if j < i {
                    let k = choose|k: int| 0 <= k < prev_kept.len() && #[trigger] prev_kept[k]@ == before[j]@;
                    assert(kept@[k] == prev_kept[k]);
                } else {
                    assert(kept@[kept@.len() - 1]@ == before[j]@);
                }
            }
            assert forall|k: int| #![trigger kept@[k]] 0 <= k < kept@.len() implies exists|j: int| 0 <= j < i + 1 && #[trigger] before[j]@ == kept@[k]@ by {
                if k < prev_kept.len() {
                    assert(kept@[k] == prev_kept[k]);
                    let j = choose|j: int| 0 <= j < i && #[trigger] before[j]@ == prev_kept[k]@;
                    assert(before[j]@ == kept@[k]@);
                } else {
                    assert(before[i as int]@ == kept@[k]@);
                }
            }
        }
        i = i + 1;
    }
    registry.tasks = kept;
    proof {
        assert forall|t: Seq<char>| #[trigger] registry@.contains(t) == old(registry)@.remove(task@).contains(t) by {
            if registry@.contains(t) {
                let k = choose|k: int| 0 <= k < registry.tasks@.len() && #[trigger] registry.tasks@[k]@ == t;
                let j = choose|j: int| 0 <= j < i && #[trigger] before[j]@ == registry.tasks@[k]@;
                assert(old(registry)@.contains(t));
            }
            if old(registry)@.remove(task@).contains(t) {
                let j = choose|j: int| 0 <= j < before.len() && #[trigger] before[j]@ == t;
                assert(before[j]@ != task@);
            }
        }
        assert(registry@ =~= old(registry)@.remove(task@));
    }
}

/// Whether a cancellation of `task` has been requested (`is_task_cancelled`).
pub fn is_task_cancelled(registry: &CancelRegistry, task: &str) -> (r: bool)
    ensures
        r == registry@.contains(task@),
{
    let mut i: usize = 0;
    while i < registry.tasks.len()
        invariant
            i <= registry.tasks@.len(),
            forall|k: int| 0 <= k < i ==> #[trigger] registry.tasks@[k]@ != task@,
        decreases registry.tasks@.len() - i,
    {
        if str_eq(registry.tasks[i].as_str(), task) {
            assert(registry.tasks@[i as int]@ == task@);
            return true;
        }
        i = i + 1;
    }
    false
}

/// Ends task `task` on its cancellation: the request is cleared, so that
/// the next run of the task starts afresh, and the error the task returns,
/// `"<task> cancelled"`, is made.
pub fn take_cancellation(registry: &mut CancelRegistry, task: &str) -> (msg: String)
    ensures
        final(registry)@ == old(registry)@.remove(task@),
        msg@ == task@ + " cancelled"@,
{
    clear_task_cancel(registry, task);
    let mut msg = owned(task);
    push_str(&mut msg, " cancelled");
    msg
}

/// One poll of task `task` for a cancellation request: when one is pending,
/// the task stops with `"<task> cancelled"` and the request is cleared;
/// otherwise the task goes on and the registry is left as it was.
pub fn cancel_step(registry: &mut CancelRegistry, task: &str) -> (res: Result<(), String>)
    ensures
        old(registry)@.contains(task@) ==> (res matches Err(e) && e@ == task@ + " cancelled"@)
            && final(registry)@ == old(registry)@.remove(task@),
        !old(registry)@.contains(task@) ==> res is Ok && final(registry)@ == old(registry)@,
{
    if is_task_cancelled(registry, task) {
        Err(take_cancellation(registry, task))
    } else {
        Ok(())
    }
}

/// Cancellation requests of distinct tasks do not interfere, a request is
/// seen until it is cleared, and a cleared task is no longer cancelled.
pub proof fn law_cancel_request_clear(registry: Set<Seq<char>>, task: Seq<char>, other: Seq<char>)
    requires
        other != task,
    ensures
        registry.insert(task).contains(task),
        !registry.remove(task).contains(task),
        registry.insert(task).contains(other) == registry.contains(other),
        registry.remove(task).contains(other) == registry.contains(other),
        registry.insert(task).remove(task).contains(other) == registry.contains(other),
{
}

} // verus!
