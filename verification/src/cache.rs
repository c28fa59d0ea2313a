//! The two storage protocols of the provenance cache: taking the refresh lock
//! (stampede control) and writing a refreshed entry under compare-and-swap.
//!
//! Each is a step function from what the store reported to what to do next;
//! the gateway performs the storage call and feeds the outcome back.

use vstd::prelude::*;
use crate::policy::{CAS_MAX_RETRIES, REFRESH_LOCK_TTL_SECONDS};

verus! {

/// Where an attempt to take the refresh lock stands.
#[derive(PartialEq, Eq, Structural, Clone, Copy, Debug)]
pub enum LockStage {
    /// Storing a new lock entry if none exists.
    Claim,
    /// Reading the entry that was already there.
    Inspect,
    /// Replacing an expired entry, if it is still the one that was read.
    Replace,
    /// Storing a new entry after the old one vanished.
    Reclaim,
}

/// What the lock store reported for the last action.
#[derive(PartialEq, Eq, Structural, Clone, Copy, Debug)]
pub enum LockEvent {
    /// The store succeeded.
    Stored,
    /// The store lost a race: an entry exists, or it changed since it was read.
    Conflict,
    /// The storage call failed.
    Failed,
    /// The read found an entry taken at these Unix seconds.
    Held(i64),
    /// The read found no entry.
    Vacant,
}

/// What to do next about the lock.
#[derive(PartialEq, Eq, Structural, Clone, Copy, Debug)]
pub enum LockAction {
    /// Store our entry only if the key is absent.
    StoreIfAbsent,
    /// Read the current entry.
    Read,
    /// Store our entry in place of the one read (compare-and-swap).
    StoreReplacing,
    /// Done: `Some(true)` the lock is ours, `Some(false)` another holds it,
    /// `None` storage failed.
    Finish(Option<bool>),
}

/// The stage and action that follow `event` in `stage` at Unix second `now`.
pub open spec fn lock_next(stage: LockStage, event: LockEvent, now: int) -> (LockStage, LockAction) {
    match (stage, event) {
        (LockStage::Claim, LockEvent::Stored) => (stage, LockAction::Finish(Some(true))),
        (LockStage::Claim, LockEvent::Conflict) => (LockStage::Inspect, LockAction::Read),
        (LockStage::Inspect, LockEvent::Held(at)) => if now - at < REFRESH_LOCK_TTL_SECONDS {
            (stage, LockAction::Finish(Some(false)))
        } else {
            (LockStage::Replace, LockAction::StoreReplacing)
        },
        (LockStage::Inspect, LockEvent::Vacant) => (LockStage::Reclaim, LockAction::StoreIfAbsent),
        (LockStage::Replace, LockEvent::Stored) => (stage, LockAction::Finish(Some(true))),
        (LockStage::Replace, LockEvent::Conflict) => (stage, LockAction::Finish(Some(false))),
        (LockStage::Reclaim, LockEvent::Stored) => (stage, LockAction::Finish(Some(true))),
        (LockStage::Reclaim, LockEvent::Conflict) => (stage, LockAction::Finish(Some(false))),
        _ => (stage, LockAction::Finish(None)),
    }
}

/// The first step of taking the lock: store our entry if none exists.
pub fn lock_start() -> (r: (LockStage, LockAction))
    ensures
        r == (LockStage::Claim, LockAction::StoreIfAbsent),
{
    (LockStage::Claim, LockAction::StoreIfAbsent)
}

/// The next step of taking the refresh lock at Unix second `now`. An event
/// that cannot follow the stage's action ends the attempt as a storage failure.
pub fn lock_step(stage: LockStage, event: LockEvent, now: i64) -> (r: (LockStage, LockAction))
    requires
        event matches LockEvent::Held(at) ==> i64::MIN <= now - at <= i64::MAX,
    ensures
        r == lock_next(stage, event, now as int),
{
    match (stage, event) {
        (LockStage::Claim, LockEvent::Stored) => (stage, LockAction::Finish(Some(true))),
        (LockStage::Claim, LockEvent::Conflict) => (LockStage::Inspect, LockAction::Read),
        (LockStage::Inspect, LockEvent::Held(at)) => if now - at < REFRESH_LOCK_TTL_SECONDS {
            (stage, LockAction::Finish(Some(false)))
        } else {
            (LockStage::Replace, LockAction::StoreReplacing)
        },
        (LockStage::Inspect, LockEvent::Vacant) => (LockStage::Reclaim, LockAction::StoreIfAbsent),
        (LockStage::Replace, LockEvent::Stored) => (stage, LockAction::Finish(Some(true))),
        (LockStage::Replace, LockEvent::Conflict) => (stage, LockAction::Finish(Some(false))),
        (LockStage::Reclaim, LockEvent::Stored) => (stage, LockAction::Finish(Some(true))),
        (LockStage::Reclaim, LockEvent::Conflict) => (stage, LockAction::Finish(Some(false))),
        _ => (stage, LockAction::Finish(None)),
    }
}

/// How many storage calls a lock attempt can still make from `stage`.
pub open spec fn lock_rank(stage: LockStage) -> int {
    match stage {
        LockStage::Claim => 3,
        LockStage::Inspect => 2,
        LockStage::Replace => 1,
        LockStage::Reclaim => 1,
    }
}

/// A lock attempt always ends: every step that does not finish moves to a
/// stage of lower rank, so at most three storage calls are made.
pub proof fn lemma_lock_terminates(stage: LockStage, event: LockEvent, now: int)
    ensures
        !(lock_next(stage, event, now).1 is Finish) ==> lock_rank(lock_next(stage, event, now).0)
            < lock_rank(stage),
        lock_rank(lock_next(stage, event, now).0) >= 1,
{
}

/// A lock entry younger than the lock TTL is never taken over, and the lock is
/// only ever granted by a store that succeeded.
pub proof fn lemma_lock_respects_holder(stage: LockStage, event: LockEvent, now: int)
    ensures
        stage == LockStage::Inspect && (event matches LockEvent::Held(at) && now - at
            < REFRESH_LOCK_TTL_SECONDS) ==> lock_next(stage, event, now).1 == LockAction::Finish(
            Some(false),
        ),
        lock_next(stage, event, now).1 == LockAction::Finish(Some(true)) ==> event
            == LockEvent::Stored,
{
}

/// The lock store as callers share it: the entry, as the Unix second it was
/// taken at and its version, and the version the next successful store gives
/// its entry. Entries are not removed while the callers run.
pub struct LockCell {
    pub entry: Option<(i64, nat)>,
    pub next: nat,
}

/// One caller taking the lock: its clock, where it stands, and the version of
/// the entry its last read saw.
pub struct Taker {
    pub now: i64,
    pub stage: LockStage,
    pub action: LockAction,
    pub seen: Option<nat>,
}

/// A caller at Unix second `now` before its first storage call.
pub open spec fn taker(now: i64) -> Taker {
    Taker { now, stage: LockStage::Claim, action: LockAction::StoreIfAbsent, seen: None }
}

/// What the store does with the action of `t`, and what `t` hears back: a
/// failing call changes nothing and reports `Failed`; a store if absent
/// succeeds only on an empty key; a read reports the entry and its version; a
/// compare-and-swap succeeds only while the entry is the version read.
pub open spec fn answer(cell: LockCell, t: Taker, fails: bool) -> (LockCell, LockEvent, Option<nat>) {
    let written = LockCell { entry: Some((t.now, cell.next)), next: cell.next + 1 };
    if fails {
        (cell, LockEvent::Failed, t.seen)
    } else {
        match t.action {
            LockAction::StoreIfAbsent => if cell.entry is None {
                (written, LockEvent::Stored, t.seen)
            } else {
                (cell, LockEvent::Conflict, t.seen)
            },
            LockAction::Read => match cell.entry {
                Some((at, v)) => (cell, LockEvent::Held(at), Some(v)),
                None => (cell, LockEvent::Vacant, None),
            },
            LockAction::StoreReplacing => match cell.entry {
                Some((_, v)) => if t.seen == Some(v) {
                    (written, LockEvent::Stored, t.seen)
                } else {
                    (cell, LockEvent::Conflict, t.seen)
                },
                None => (cell, LockEvent::Conflict, t.seen),
            },
            LockAction::Finish(_) => (cell, LockEvent::Failed, t.seen),
        }
    }
}

/// `t` makes its next storage call, unless it has finished, and takes the step
/// `lock_step` gives for the answer.
pub open spec fn exchange(cell: LockCell, t: Taker, fails: bool) -> (LockCell, Taker) {
    if t.action is Finish {
        (cell, t)
    } else {
        let (c, event, seen) = answer(cell, t, fails);
        let (stage, action) = lock_next(t.stage, event, t.now as int);
        (c, Taker { now: t.now, stage, action, seen })
    }
}

/// The store and two callers after the interleaving `schedule`: each element
/// says which caller calls next (the first when `true`) and whether that call
/// fails.
pub open spec fn interleave(cell: LockCell, a: Taker, b: Taker, schedule: Seq<(bool, bool)>) -> (
    LockCell,
    Taker,
    Taker,
)
    decreases schedule.len(),
{
    if schedule.len() == 0 {
        (cell, a, b)
    } else if schedule[0].0 {
        let (c, a2) = exchange(cell, a, schedule[0].1);
        interleave(c, a2, b, schedule.drop_first())
    } else {
        let (c, b2) = exchange(cell, b, schedule[0].1);
        interleave(c, a, b2, schedule.drop_first())
    }
}

/// `t` holds the lock.
pub open spec fn won(t: Taker) -> bool {
    t.action == LockAction::Finish(Some(true))
}

/// Once `winner` holds the lock its entry stays in the store, `other` has not
/// won, and `other` has not read that entry's version for a swap.
spec fn winner_guarded(cell: LockCell, winner: Taker, other: Taker) -> bool {
    won(winner) ==> match cell.entry {
        Some((at, v)) => at == winner.now && !won(other) && (other.action
            == LockAction::StoreReplacing ==> other.seen != Some(v)),
        None => false,
    }
}

/// What holds of the store and two callers throughout.
spec fn lock_inv(cell: LockCell, a: Taker, b: Taker) -> bool {
    &&& (cell.entry matches Some((_, v)) ==> v < cell.next)
    &&& (a.seen matches Some(v) ==> v < cell.next)
    &&& (b.seen matches Some(v) ==> v < cell.next)
    &&& winner_guarded(cell, a, b)
    &&& winner_guarded(cell, b, a)
}

/// One storage call by `t` keeps the invariant.
proof fn lemma_exchange_keeps_inv(cell: LockCell, t: Taker, other: Taker, fails: bool)
    requires
        lock_inv(cell, t, other),
        -REFRESH_LOCK_TTL_SECONDS < t.now - other.now < REFRESH_LOCK_TTL_SECONDS,
    ensures
        lock_inv(exchange(cell, t, fails).0, exchange(cell, t, fails).1, other),
{
    let (c, t2) = exchange(cell, t, fails);
    if !(t.action is Finish) {
        let (c1, event, seen) = answer(cell, t, fails);
        lemma_lock_respects_holder(t.stage, event, t.now as int);
    }
}

/// Any interleaving keeps the invariant.
proof fn lemma_interleave_keeps_inv(cell: LockCell, a: Taker, b: Taker, schedule: Seq<(bool, bool)>)
    requires
        lock_inv(cell, a, b),
        -REFRESH_LOCK_TTL_SECONDS < a.now - b.now < REFRESH_LOCK_TTL_SECONDS,
    ensures
        lock_inv(
            interleave(cell, a, b, schedule).0,
            interleave(cell, a, b, schedule).1,
            interleave(cell, a, b, schedule).2,
        ),
    decreases schedule.len(),
{
    if schedule.len() > 0 {
        if schedule[0].0 {
            lemma_exchange_keeps_inv(cell, a, b, schedule[0].1);
            let (c, a2) = exchange(cell, a, schedule[0].1);
            lemma_interleave_keeps_inv(c, a2, b, schedule.drop_first());
        } else {
            lemma_exchange_keeps_inv(cell, b, a, schedule[0].1);
            let (c, b2) = exchange(cell, b, schedule[0].1);
            lemma_interleave_keeps_inv(c, a, b2, schedule.drop_first());
        }
    }
}

/// Stampede control: two callers whose clocks are less than the lock TTL
/// apart, taking the refresh lock on one store, never both get it, however
/// their storage calls interleave and whichever of them fail, and whatever
/// entry the store held before.
pub proof fn lemma_one_winner_per_window(
    cell: LockCell,
    now_a: i64,
    now_b: i64,
    schedule: Seq<(bool, bool)>,
)
    requires
        -REFRESH_LOCK_TTL_SECONDS < now_a - now_b < REFRESH_LOCK_TTL_SECONDS,
        cell.entry matches Some((_, v)) ==> v < cell.next,
    ensures
        !(won(interleave(cell, taker(now_a), taker(now_b), schedule).1) && won(
            interleave(cell, taker(now_a), taker(now_b), schedule).2,
        )),
{
    lemma_interleave_keeps_inv(cell, taker(now_a), taker(now_b), schedule);
}

/// What the cache store reported for the last action of the writer.
#[derive(PartialEq, Eq, Structural, Clone, Copy, Debug)]
pub enum WriteEvent {
    /// The read found an entry (whose version the gateway keeps).
    Found,
    /// The read found no entry.
    Missing,
    /// The read failed.
    ReadFailed,
    /// The store succeeded.
    Stored,
    /// The store lost a race with another writer.
    Conflict,
    /// The store failed.
    StoreFailed,
}

/// What the writer does next.
#[derive(PartialEq, Eq, Structural, Clone, Copy, Debug)]
pub enum WriteAction {
    /// Read the current entry and its version.
    Read,
    /// Store the entry in place of the version read (compare-and-swap).
    StoreReplacing,
    /// Store the entry only if the key is absent.
    StoreIfAbsent,
    /// Stop writing.
    Stop,
}

/// After `reads` reads, the writer's next action and read count for `event`.
pub open spec fn write_next(reads: u32, event: WriteEvent) -> (u32, WriteAction) {
    match event {
        WriteEvent::Found => (reads, WriteAction::StoreReplacing),
        WriteEvent::Missing => (reads, WriteAction::StoreIfAbsent),
        WriteEvent::Conflict => if reads < CAS_MAX_RETRIES {
            ((reads + 1) as u32, WriteAction::Read)
        } else {
            (reads, WriteAction::Stop)
        },
        _ => (reads, WriteAction::Stop),
    }
}

/// The first step of writing a cache entry: one read.
pub fn write_start() -> (r: (u32, WriteAction))
    ensures
        r == (1u32, WriteAction::Read),
{
    (1, WriteAction::Read)
}

/// The writer's next step after `reads` reads: store over what was read, retry
/// after losing a race while attempts remain, and stop on success or failure.
pub fn write_step(reads: u32, event: WriteEvent) -> (r: (u32, WriteAction))
    ensures
        r == write_next(reads, event),
{
    match event {
        WriteEvent::Found => (reads, WriteAction::StoreReplacing),
        WriteEvent::Missing => (reads, WriteAction::StoreIfAbsent),
        WriteEvent::Conflict => if reads < CAS_MAX_RETRIES {
            (reads + 1, WriteAction::Read)
        } else {
            (reads, WriteAction::Stop)
        },
        _ => (reads, WriteAction::Stop),
    }
}

/// The writer reads at most `CAS_MAX_RETRIES` times, never writes again after
/// a store succeeded, and never gives up a store in favour of nothing while
/// attempts remain.
pub proof fn lemma_write_bounded(reads: u32, event: WriteEvent)
    requires
        1 <= reads <= CAS_MAX_RETRIES,
    ensures
        1 <= write_next(reads, event).0 <= CAS_MAX_RETRIES,
        write_next(reads, event).1 == WriteAction::Read ==> write_next(reads, event).0 == reads
            + 1,
        event == WriteEvent::Stored ==> write_next(reads, event).1 == WriteAction::Stop,
        event == WriteEvent::Conflict && reads < CAS_MAX_RETRIES ==> write_next(reads, event).1
            == WriteAction::Read,
{
}

} // verus!
