//! Entries of the operation log and what is read back from them.
use vstd::prelude::*;
use std::time::{Duration, SystemTime, SystemTimeError, UNIX_EPOCH};
use crate::json::{json_get_str, get_str, JsonValue};
use crate::text::{decimal, owned, push_char, push_decimal, str_eq};

verus! {

/// One recorded operation.
pub struct OperationLogEntry {
    pub id: String,
    pub operation_type: String,
    pub status: String,
    pub created_at_ms: u128,
    pub rollbackable: bool,
    pub summary: String,
    pub details: JsonValue,
}

/// The identifier of an operation started at `now_ms`: the prefix, a dash
/// and the time in milliseconds.
pub open spec fn operation_id_spec(prefix: Seq<char>, now_ms: u128) -> Seq<char> {
    prefix + seq!['-'] + decimal(now_ms as nat)
}

/// The identifier of an operation started at `now_ms` (`new_operation_id`).
pub fn new_operation_id(prefix: &str, now_ms: u128) -> (id: String)
    ensures
        id@ == operation_id_spec(prefix@, now_ms),
{
    let mut id = owned(prefix);
    push_char(&mut id, '-');
    push_decimal(&mut id, now_ms);
    id
}

/// The operation an entry rolls back, if it names one.
pub open spec fn rollback_of(e: OperationLogEntry) -> Option<Seq<char>> {
    json_get_str(e.details@, "rollbackOf"@)
}

/// The operations rolled back by the entries whose type is among `types`,
/// in log order.
pub open spec fn rollback_targets_spec(entries: Seq<OperationLogEntry>, types: Seq<Seq<char>>) -> Seq<Seq<char>>
    decreases entries.len(),
{
    if entries.len() == 0 {
        Seq::empty()
    } else {
        let rest = rollback_targets_spec(entries.drop_last(), types);
        let e = entries.last();
        if types.contains(e.operation_type@) && rollback_of(e) is Some {
            rest.push(rollback_of(e).unwrap())
        } else {
            rest
        }
    }
}

/// Whether `t` is one of `types`.
fn type_among(t: &str, types: &Vec<&str>) -> (r: bool)
    ensures
        r == types@.map_values(|s: &str| s@).contains(t@),
{
    let ghost tv = types@.map_values(|s: &str| s@);
    let mut i: usize = 0;
    while i < types.len()
        invariant
            tv == types@.map_values(|s: &str| s@),
            i <= types.len(),
            forall|k: int| 0 <= k < i ==> tv[k] != t@,
        decreases types.len() - i,
    {
        if str_eq(types[i], t) {
            assert(tv[i as int] == t@);
            return true;
        }
        i = i + 1;
    }
    false
}

/// The operations that entries of the given types roll back.
pub fn rollback_targets_of(entries: &Vec<OperationLogEntry>, types: &Vec<&str>) -> (res: Vec<String>)
    ensures
        res@.map_values(|s: String| s@) == rollback_targets_spec(entries@, types@.map_values(|s: &str| s@)),
{
    let ghost tv = types@.map_values(|s: &str| s@);
    let mut res: Vec<String> = Vec::new();
    let mut i: usize = 0;
    while i < entries.len()
        invariant
            tv == types@.map_values(|s: &str| s@),
            i <= entries.len(),
            res@.map_values(|s: String| s@) == rollback_targets_spec(entries@.subrange(0, i as int), tv),
        decreases entries.len() - i,
    {
        let e = &entries[i];
        proof {
            assert(entries@.subrange(0, i + 1).drop_last() =~= entries@.subrange(0, i as int));
            assert(entries@.subrange(0, i + 1).last() == entries@[i as int]);
        }
        if type_among(e.operation_type.as_str(), types) {
            match get_str(&e.details, "rollbackOf") {
                Some(s) => {
                    let ghost before = res@;
                    res.push(owned(s));
                    proof {
                        assert(res@.map_values(|s: String| s@) =~= before.map_values(|s: String| s@).push(s@));
                    }
                },
                None => {},
            }
        }
        i = i + 1;
    }
    assert(entries@.subrange(0, entries@.len() as int) =~= entries@);
    res
}

/// Whether `x` is among `items`.
pub fn contains_string(items: &Vec<String>, x: &str) -> (r: bool)
    ensures
        r == items@.map_values(|s: String| s@).contains(x@),
{
    let ghost iv = items@.map_values(|s: String| s@);
    let mut i: usize = 0;
    while i < items.len()
        invariant
            iv == items@.map_values(|s: String| s@),
            i <= items.len(),
            forall|k: int| 0 <= k < i ==> iv[k] != x@,
        decreases items.len() - i,
    {
        if str_eq(items[i].as_str(), x) {
            assert(iv[i as int] == x@);
            return true;
        }
        i = i + 1;
    }
    false
}

/// The first entry whose identifier is `id`.
pub open spec fn find_entry(entries: Seq<OperationLogEntry>, id: Seq<char>) -> Option<int>
    decreases entries.len(),
{
    if entries.len() == 0 {
        None
    } else if entries[0].id@ == id {
        Some(0)
    } else {
        match find_entry(entries.drop_first(), id) {
            Some(k) => Some(k + 1),
            None => None,
        }
    }
}

/// The position of the first entry whose identifier is `id`.
pub fn find_entry_index(entries: &Vec<OperationLogEntry>, id: &str) -> (r: Option<usize>)
    ensures
        match r {
            Some(k) => find_entry(entries@, id@) == Some(k as int) && k < entries@.len(),
            None => find_entry(entries@, id@) is None,
        },
{
    let mut i: usize = 0;
    assert(entries@.subrange(0, entries@.len() as int) =~= entries@);
    while i < entries.len()
        invariant
            i <= entries.len(),
            find_entry(entries@, id@) == match find_entry(entries@.subrange(i as int, entries@.len() as int), id@) {
                Some(k) => Some(k + i),
                None => None::<int>,
            },
        decreases entries.len() - i,
    {
        let ghost rest = entries@.subrange(i as int, entries@.len() as int);
        proof {
            assert(rest.drop_first() =~= entries@.subrange(i + 1, entries@.len() as int));
            assert(rest[0] == entries@[i as int]);
        }
        if str_eq(entries[i].id.as_str(), id) {
            return Some(i);
        }
        i = i + 1;
    }
    proof {
        assert(entries@.subrange(i as int, entries@.len() as int) =~= Seq::<OperationLogEntry>::empty());
    }
    None
}



/// Once an entry with a new identifier is appended, it is the entry found
/// for that identifier.
pub proof fn lemma_find_entry_push(entries: Seq<OperationLogEntry>, e: OperationLogEntry)
    requires
        find_entry(entries, e.id@) is None,
    ensures
        find_entry(entries.push(e), e.id@) == Some(entries.len() as int),
    decreases entries.len(),
{
    if entries.len() > 0 {
        assert(entries.push(e).drop_first() =~= entries.drop_first().push(e));
        lemma_find_entry_push(entries.drop_first(), e);
    }
}

/// Appending an entry of a type not among `types` leaves the rolled-back
/// operations unchanged.
pub proof fn lemma_targets_push_other(entries: Seq<OperationLogEntry>, e: OperationLogEntry, types: Seq<Seq<char>>)
    requires
        !types.contains(e.operation_type@),
    ensures
        rollback_targets_spec(entries.push(e), types) == rollback_targets_spec(entries, types),
{
    assert(entries.push(e).drop_last() =~= entries);
}


// ---------------------------------------------------------------------
// The clock
// ---------------------------------------------------------------------


/// The system clock's time points.
#[verifier::external_type_specification]
#[verifier::external_body]
pub struct ExSystemTime(SystemTime);

/// The error of a time point taken before another.
#[verifier::external_type_specification]
#[verifier::external_body]
pub struct ExSystemTimeError(SystemTimeError);

/// `SystemTime::now`: the current time of the system clock. Nothing is
/// promised of it: it depends on the moment of the call and the machine.
#[verifier::external_body]
fn clock_now() -> SystemTime {
    SystemTime::now()
}

/// `SystemTime::duration_since(UNIX_EPOCH)`: how long after the epoch `t`
/// lies, or an error when it lies before. Nothing is promised of the value,
/// which depends on the clock.
#[verifier::external_body]
fn since_epoch(t: &SystemTime) -> Result<Duration, SystemTimeError> {
    t.duration_since(UNIX_EPOCH)
}

/// `Duration::as_millis`: the whole milliseconds of `d`. No model of a
/// `Duration` is kept here, so nothing is stated of the number.
#[verifier::external_body]
fn whole_millis(d: &Duration) -> u128 {
    d.as_millis()
}

/// The current time in milliseconds since the Unix epoch, or zero when the
/// clock lies before it (`now_ms`). What comes back depends on the clock;
/// the operations that need a time take it as an argument.
pub fn now_ms() -> u128 {
    match since_epoch(&clock_now()) {
        Ok(d) => whole_millis(&d),
        Err(_) => 0,
    }
}

} // verus!
