//! One-time startup backfills.
//!
//! Each named backfill runs exactly once across all boots and replicas: the
//! marker and the work it enqueues are committed in a single transaction.

use vstd::prelude::*;

verus! {

/// Marker for the membership-model resync: the full re-evaluation of every role
/// link that is bound to a form, once. A new version suffix forces a fresh
/// one-time pass.
pub const MEMBERSHIP_RESYNC: &'static str = "membership_model_resync_v1";

/// Where a backfill is.
#[derive(Clone, Copy, Debug, PartialEq, Eq, Structural)]
pub enum Backfill {
    Beginning,
    Claiming,
    Enqueueing,
    Committing,
    Over { done: bool },
}

/// What came of the last move of a backfill.
#[derive(Clone, Copy, Debug, PartialEq, Eq, Structural)]
pub enum BackfillEvent {
    /// The move failed.
    Failed,
    /// The move succeeded, and changed so many rows.
    Changed { rows: u64 },
}

/// The next move of a backfill.
#[derive(Clone, Copy, Debug, PartialEq, Eq, Structural)]
pub enum BackfillAction {
    /// Write the marker, unless it is there.
    Claim,
    /// Enqueue the work.
    Enqueue,
    /// Commit both.
    Commit,
    /// Take back what was written.
    RollBack,
    /// Nothing more.
    Finish,
}

/// How a backfill goes on.
pub open spec fn backfill_step(at: Backfill, event: BackfillEvent) -> (Backfill, BackfillAction) {
    match (at, event) {
        (Backfill::Over { done }, _) => (at, BackfillAction::Finish),
        (Backfill::Beginning, BackfillEvent::Failed) | (
            Backfill::Committing,
            BackfillEvent::Failed,
        ) => (Backfill::Over { done: false }, BackfillAction::Finish),
        (_, BackfillEvent::Failed) => (Backfill::Over { done: false }, BackfillAction::RollBack),
        (Backfill::Beginning, BackfillEvent::Changed { rows }) => (
            Backfill::Claiming,
            BackfillAction::Claim,
        ),
        // No row means that a previous boot, or another replica, has run it.
        (Backfill::Claiming, BackfillEvent::Changed { rows }) => if rows == 1 {
            (Backfill::Enqueueing, BackfillAction::Enqueue)
        } else {
            (Backfill::Over { done: false }, BackfillAction::RollBack)
        },
        (Backfill::Enqueueing, BackfillEvent::Changed { rows }) => (
            Backfill::Committing,
            BackfillAction::Commit,
        ),
        (Backfill::Committing, BackfillEvent::Changed { rows }) => (
            Backfill::Over { done: true },
            BackfillAction::Finish,
        ),
    }
}

/// How the resync of all role links that are bound to a form goes on.
pub fn resync_all_form_links(at: Backfill, event: BackfillEvent) -> (r: (Backfill, BackfillAction))
    ensures
        r == backfill_step(at, event),
{
    match (at, event) {
        (Backfill::Over { done }, _) => (at, BackfillAction::Finish),
        (Backfill::Beginning, BackfillEvent::Failed) | (
            Backfill::Committing,
            BackfillEvent::Failed,
        ) => (Backfill::Over { done: false }, BackfillAction::Finish),
        (_, BackfillEvent::Failed) => (Backfill::Over { done: false }, BackfillAction::RollBack),
        (Backfill::Beginning, BackfillEvent::Changed { rows }) => (
            Backfill::Claiming,
            BackfillAction::Claim,
        ),
        (Backfill::Claiming, BackfillEvent::Changed { rows }) => if rows == 1 {
            (Backfill::Enqueueing, BackfillAction::Enqueue)
        } else {
            (Backfill::Over { done: false }, BackfillAction::RollBack)
        },
        (Backfill::Enqueueing, BackfillEvent::Changed { rows }) => (
            Backfill::Committing,
            BackfillAction::Commit,
        ),
        (Backfill::Committing, BackfillEvent::Changed { rows }) => (
            Backfill::Over { done: true },
            BackfillAction::Finish,
        ),
    }
}

/// A backfill commits only after this very run has written the marker, and a
/// run that did not write it takes everything back.
pub proof fn law_backfill_runs_once(at: Backfill, event: BackfillEvent)
    ensures
        backfill_step(at, event).1 is Enqueue ==> at is Claiming && event
            == (BackfillEvent::Changed { rows: 1 }),
        backfill_step(at, event).1 is Commit ==> at is Enqueueing && event is Changed,
        at is Claiming && event != (BackfillEvent::Changed { rows: 1 }) ==> backfill_step(
            at,
            event,
        ).1 is RollBack,
{
}

} // verus!
