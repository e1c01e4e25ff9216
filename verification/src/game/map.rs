//! Taking the mutations of the players, one after the other.

use vstd::prelude::*;
use crate::game::{MatchSession, MatchSessionView, MutationFailed, PlayerMutationEvent};

verus! {

/// The match after the first `upto` of `events` were taken in their order.
pub open spec fn match_after(session: MatchSessionView, events: Seq<PlayerMutationEvent>, upto: nat) -> MatchSessionView
    decreases upto,
{
    if upto == 0 {
        session
    } else {
        match_after(session, events, (upto - 1) as nat).apply_mutation(
            events[upto - 1].mutation,
            events[upto - 1].force,
        )
    }
}

/// The notices for those of the first `upto` of `events` that were refused,
/// in their order.
pub open spec fn failures_among(session: MatchSessionView, events: Seq<PlayerMutationEvent>, upto: nat) -> Seq<
    MutationFailed,
>
    decreases upto,
{
    if upto == 0 {
        Seq::empty()
    } else {
        let before = failures_among(session, events, (upto - 1) as nat);
        let event = events[upto - 1];
        if match_after(session, events, (upto - 1) as nat).apply_mutation_outcome(
            event.mutation,
            event.force,
        ).is_err() {
            before.push(MutationFailed { mutation: event.mutation })
        } else {
            before
        }
    }
}

/// Takes the mutations in their order, each on the match as the one before
/// left it, and returns a notice for each that was refused.
pub fn process_map_mutations(session: &mut MatchSession, mutation_events: &Vec<PlayerMutationEvent>) -> (failed:
    Vec<MutationFailed>)
    requires
        old(session).well_formed(),
    ensures
        final(session).well_formed(),
        final(session)@ == match_after(old(session)@, mutation_events@, mutation_events@.len()),
        failed@ == failures_among(old(session)@, mutation_events@, mutation_events@.len()),
{
    let mut failed: Vec<MutationFailed> = Vec::new();
    let mut i: usize = 0;
    while i < mutation_events.len()
        invariant
            i <= mutation_events.len(),
            session.well_formed(),
            session@ == match_after(old(session)@, mutation_events@, i as nat),
            failed@ == failures_among(old(session)@, mutation_events@, i as nat),
        decreases mutation_events.len() - i,
    {
        let event = mutation_events[i];
        match session.apply_mutation(event.mutation, event.force) {
            Ok(()) => {},
            Err(_) => {
                failed.push(MutationFailed { mutation: event.mutation });
            },
        }
        i += 1;
    }
    failed
}

} // verus!
