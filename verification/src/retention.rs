//! The retention driver's pure core: when the next sweep runs, and which
//! immediate children of the partition root one sweep removes.
//!
//! A sweep looks only at the first directory level: a child is removed
//! exactly when it is a directory whose readable modification time lies
//! strictly before `now - retention_days * 24h`.  The embedding program
//! enumerates the children, hands their metadata here as plain values, and
//! deletes the subtrees this module selects.

use vstd::prelude::*;
use vstd::string::StringSliceAdditionalSpecFns;
use crate::clock::{earliest_instant, resolve_local, LocalClockReading};
use crate::config::{parse_cleanup_time, spec_parse_cleanup_time, TimeOfDayError};

verus! {

/// What one sweep sees of an immediate child of the partition root: whether
/// it is a directory, and its modification time in whole seconds since the
/// epoch (`None` when the metadata or the time is unreadable).
#[derive(Debug, Clone, Copy, PartialEq, Eq, Structural)]
pub struct EntryInfo {
    pub is_dir: bool,
    pub mtime: Option<i64>,
}

/// A child a sweep removes: a directory with a readable modification time
/// strictly before the cutoff.
pub open spec fn spec_expired(e: EntryInfo, cutoff: i64) -> bool {
    e.is_dir && e.mtime is Some && e.mtime->0 < cutoff
}

/// What remains of the root's children after one sweep at `cutoff`.
pub open spec fn survivors(entries: Seq<EntryInfo>, cutoff: i64) -> Seq<EntryInfo> {
    entries.filter(|e: EntryInfo| !spec_expired(e, cutoff))
}

/// `now - retention_days * 24h`, the sweep's age cutoff.
pub fn cutoff_epoch(now_epoch: i64, retention_days: u32) -> (r: i64)
    requires
        now_epoch - 86400 * (retention_days as i64) >= i64::MIN,
    ensures
        r == now_epoch - 86400 * (retention_days as int),
{
    now_epoch - 86400i64 * (retention_days as i64)
}

/// Selects the children one sweep removes: exactly the indices of expired
/// entries, in ascending order.
pub fn select_expired(entries: &Vec<EntryInfo>, cutoff: i64) -> (idxs: Vec<usize>)
    ensures
        forall|k: int|
            0 <= k < idxs@.len() ==> idxs@[k] < entries@.len() && spec_expired(
                entries@[idxs@[k] as int],
                cutoff,
            ),
        forall|j: int|
            0 <= j < entries@.len() && spec_expired(entries@[j], cutoff) ==> idxs@.contains(
                j as usize,
            ),
        forall|k: int| 0 <= k < idxs@.len() - 1 ==> #[trigger] idxs@[k] < idxs@[k + 1],
{
    let mut idxs: Vec<usize> = Vec::new();
    let mut i: usize = 0;
    while i < entries.len()
        invariant
            i <= entries@.len(),
            forall|k: int|
                0 <= k < idxs@.len() ==> idxs@[k] < i && spec_expired(
                    entries@[idxs@[k] as int],
                    cutoff,
                ),
            forall|j: int|
                0 <= j < i && spec_expired(entries@[j], cutoff) ==> idxs@.contains(j as usize),
            forall|k: int| 0 <= k < idxs@.len() - 1 ==> #[trigger] idxs@[k] < idxs@[k + 1],
        decreases entries@.len() - i,
    {
        let e = entries[i];
        let expired = e.is_dir && match e.mtime {
            Some(m) => m < cutoff,
            None => false,
        };
        if expired {
            let ghost before = idxs@;
            idxs.push(i);
            proof {
                assert forall|j: int|
                    0 <= j < i + 1 && spec_expired(entries@[j], cutoff) implies idxs@.contains(
                    j as usize,
                ) by {
                    if j < i {
                        let k = choose|k: int| 0 <= k < before.len() && before[k] == j as usize;
                        assert(idxs@[k] == j as usize);
                    } else {
                        assert(idxs@[idxs@.len() - 1] == i as usize);
                    }
                }
            }
        }
        i += 1;
    }
    idxs
}

/// Every entry of a sequence that a predicate keeps entirely is kept as is.
proof fn lemma_filter_of_satisfying<A>(s: Seq<A>, pred: spec_fn(A) -> bool)
    requires
        forall|i: int| 0 <= i < s.len() ==> #[trigger] pred(s[i]),
    ensures
        s.filter(pred) == s,
    decreases s.len(),
{
    reveal(Seq::filter);
    if s.len() == 0 {
        assert(s.filter(pred) =~= s);
    } else {
        lemma_filter_of_satisfying(s.drop_last(), pred);
        assert(s.filter(pred) =~= s.drop_last().push(s.last()));
        assert(s.drop_last().push(s.last()) =~= s);
    }
}

/// Every element of a filtered sequence occurs in the sequence it came from.
proof fn lemma_filter_subset<A>(s: Seq<A>, pred: spec_fn(A) -> bool, i: int)
    requires
        0 <= i < s.filter(pred).len(),
    ensures
        s.contains(s.filter(pred)[i]),
    decreases s.len(),
{
    reveal(Seq::filter);
    broadcast use vstd::seq_lib::group_filter_ensures;

    if s.len() > 0 {
        let x = s.filter(pred)[i];
        let sub = s.drop_last().filter(pred);
        if pred(s.last()) && i == sub.len() {
            assert(s[s.len() - 1] == x);
        } else {
            lemma_filter_subset(s.drop_last(), pred, i);
            assert(sub[i] == x);
            let j = choose|j: int| 0 <= j < s.drop_last().len() && s.drop_last()[j] == x;
            assert(s[j] == x);
        }
    }
}

/// Sweep idempotence: with the same clock, a second sweep removes nothing,
/// so two consecutive sweeps have the same effect as one.
pub proof fn lemma_sweep_idempotent(entries: Seq<EntryInfo>, cutoff: i64)
    ensures
        survivors(survivors(entries, cutoff), cutoff) == survivors(entries, cutoff),
{
    let pred = |e: EntryInfo| !spec_expired(e, cutoff);
    let once = entries.filter(pred);
    broadcast use vstd::seq_lib::group_filter_ensures;
    lemma_filter_of_satisfying(once, pred);
}

/// After a sweep with cutoff `now - retention_days * 24h`, no directory
/// child with a readable modification time at or before the cutoff remains,
/// provided no child's time sits exactly on the cutoff (a sweep compares
/// strictly, so a child exactly at the cutoff would be kept).
pub proof fn lemma_sweep_removes_aged(entries: Seq<EntryInfo>, now_epoch: int, retention_days: int)
    requires
        forall|i: int|
            0 <= i < entries.len() ==> (#[trigger] entries[i]).mtime != Some(
                (now_epoch - 86400 * retention_days) as i64,
            ),
        i64::MIN <= now_epoch - 86400 * retention_days <= i64::MAX,
    ensures
        ({
            let cutoff = (now_epoch - 86400 * retention_days) as i64;
            let kept = survivors(entries, cutoff);
            forall|i: int|
                0 <= i < kept.len() ==> !((#[trigger] kept[i]).is_dir && kept[i].mtime is Some
                    && kept[i].mtime->0 <= cutoff)
        }),
{
    let cutoff = (now_epoch - 86400 * retention_days) as i64;
    let pred = |e: EntryInfo| !spec_expired(e, cutoff);
    broadcast use vstd::seq_lib::group_filter_ensures;
    let kept = survivors(entries, cutoff);
    assert forall|i: int|
        0 <= i < kept.len() implies !((#[trigger] kept[i]).is_dir && kept[i].mtime is Some
        && kept[i].mtime->0 <= cutoff) by {
        assert(pred(kept[i]));
        lemma_filter_subset(entries, pred, i);
        let j = choose|j: int| 0 <= j < entries.len() && entries[j] == kept[i];
        assert(entries[j].mtime != Some(cutoff));
    }
}

/// Why no next sweep instant could be computed.
#[derive(Debug, Clone, Copy, PartialEq, Eq, Structural)]
pub enum ScheduleError {
    /// The configured cleanup time of day is malformed.
    CleanupTime(TimeOfDayError),
    /// The local calendar offers no instant for the trigger today.
    LocalTime,
}

/// The trigger instant the driver waits for, given today's instant carrying
/// the trigger time of day: today's if it is still strictly in the future at
/// second granularity, otherwise the same instant one day (86400 s) later.
pub open spec fn spec_next_trigger(now_epoch: i64, today_trigger: i64) -> int {
    if now_epoch >= today_trigger {
        today_trigger + 86400
    } else {
        today_trigger as int
    }
}

/// Chooses between today's trigger instant and tomorrow's.
pub fn next_trigger_epoch(now_epoch: i64, today_trigger: i64) -> (r: i64)
    requires
        today_trigger + 86400 <= i64::MAX,
    ensures
        r == spec_next_trigger(now_epoch, today_trigger),
{
    if now_epoch >= today_trigger {
        today_trigger + 86400
    } else {
        today_trigger
    }
}

/// The view of an optional configured cleanup time: absent means the
/// default `01:00:00`.
pub open spec fn spec_time_of_day(ct: Option<Seq<u8>>) -> Result<(u32, u32, u32), TimeOfDayError> {
    match ct {
        None => Ok((1u32, 0u32, 0u32)),
        Some(s) => spec_parse_cleanup_time(s),
    }
}

/// Computes the instant of the next sweep: today at the configured time of
/// day (default `01:00:00`, an ambiguous local time taking its earlier
/// instant), or the same instant a day later when it is not strictly in the
/// future.  Fails exactly when the configured time is malformed, or when the
/// local calendar skips the trigger today.
pub fn get_next_cleanup_time(clock: &LocalClockReading, cleanup_time: Option<&str>) -> (r: Result<
    i64,
    ScheduleError,
>)
    requires
        -9_000_000_000_000 <= clock.epoch <= 9_000_000_000_000,
    ensures
        ({
            let tod = spec_time_of_day(
                match cleanup_time {
                    Some(cs) => Some(cs.spec_bytes()),
                    None => None,
                },
            );
            &&& (tod matches Err(e) ==> r == Err::<i64, ScheduleError>(ScheduleError::CleanupTime(e)))
            &&& (tod is Ok ==> !(r matches Err(ScheduleError::CleanupTime(_))))
            &&& (r matches Ok(t) ==> -9_000_000_000_000 <= t <= 9_000_000_000_000 + 86400)
        }),
{
    let (hour, minute, second) = match cleanup_time {
        Some(time_str) => match parse_cleanup_time(time_str) {
            Ok(t) => t,
            Err(e) => {
                return Err(ScheduleError::CleanupTime(e));
            },
        },
        None => (1u32, 0u32, 0u32),
    };
    let resolution = resolve_local(clock.year, clock.month, clock.day, hour, minute, second);
    match earliest_instant(&resolution) {
        Some(today_trigger) => Ok(next_trigger_epoch(clock.epoch, today_trigger)),
        None => Err(ScheduleError::LocalTime),
    }
}

/// The fallback decision over the already-resolved default trigger: today's
/// unambiguous `01:00:00` instant where there is one, else one hour from
/// now.
pub fn fallback_from_resolution(now_epoch: i64, resolved: Option<i64>) -> (r: i64)
    requires
        now_epoch + 3600 <= i64::MAX,
    ensures
        r == match resolved {
            Some(t) => t as int,
            None => now_epoch + 3600,
        },
{
    match resolved {
        Some(t) => t,
        None => now_epoch + 3600,
    }
}

/// The fallback trigger when the scheduled computation failed: today at
/// `01:00:00` where the local calendar maps it to exactly one instant, and
/// one hour from now otherwise.
pub fn fallback_trigger_epoch(clock: &LocalClockReading) -> (r: i64)
    requires
        -9_000_000_000_000 <= clock.epoch <= 9_000_000_000_000,
    ensures
        -9_000_000_000_000 <= r <= 9_000_000_000_000 + 3600,
{
    let resolution = resolve_local(clock.year, clock.month, clock.day, 1, 0, 0);
    fallback_from_resolution(clock.epoch, crate::clock::single_instant(&resolution))
}

/// The whole seconds to sleep before a trigger: the duration from `now`
/// (with its sub-second part) to the trigger, truncated toward zero; zero
/// (skip the sleep, sweep at once) when the trigger is not in the future.
pub open spec fn spec_sleep_seconds(now_epoch: i64, subsec_nanos: u32, trigger: i64) -> int {
    if trigger <= now_epoch {
        0
    } else if subsec_nanos > 0 {
        trigger - now_epoch - 1
    } else {
        trigger - now_epoch
    }
}

/// Whole seconds from the clock reading to the trigger instant.
pub fn sleep_seconds_until(now_epoch: i64, subsec_nanos: u32, trigger: i64) -> (r: u64)
    requires
        -9_000_000_000_000 <= now_epoch,
        trigger <= 9_100_000_000_000,
    ensures
        r == spec_sleep_seconds(now_epoch, subsec_nanos, trigger),
{
    if trigger <= now_epoch {
        0
    } else if subsec_nanos > 0 {
        (trigger - now_epoch - 1) as u64
    } else {
        (trigger - now_epoch) as u64
    }
}

/// A trigger one second ahead of the clock stays on the same day and is
/// waited out for that one second: it does not slip a day.
pub proof fn lemma_trigger_just_ahead(now_epoch: i64, today_trigger: i64)
    requires
        today_trigger == now_epoch + 1,
    ensures
        spec_next_trigger(now_epoch, today_trigger) == today_trigger,
        spec_sleep_seconds(now_epoch, 0, today_trigger) == 1,
{
}

/// A trigger whose second has already been reached schedules a day later,
/// even when only a sub-second part of that second has elapsed: the clock's
/// whole second equals the trigger's, so the trigger is not strictly in the
/// future.
pub proof fn lemma_trigger_this_second_slips_a_day(
    now_epoch: i64,
    subsec_nanos: u32,
    today_trigger: i64,
)
    requires
        today_trigger == now_epoch,
        today_trigger + 86400 <= i64::MAX,
    ensures
        spec_next_trigger(now_epoch, today_trigger) == today_trigger + 86400,
{
}

} // verus!
