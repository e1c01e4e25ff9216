//! The fourth step: phage of opposing forces fight for the cells they both
//! want.

use vstd::prelude::*;
use crate::game::gamerunner::TransmissionEvents;
use crate::game::transmission::movement::{claimants, claimants_of, one_force, one_force_among};
use crate::game::transmission::rules::CombatRule;
use crate::game::transmission::{
    force_at, force_on, is_cell, is_cell_at, occupant_at, occupant_of, same_force, with_occupant,
    Resolution,
};
use crate::game::{Cell, GameMove, GameState, GameStateView, NodeId, NodeTenant, Occupant};

verus! {

/// Whether phage of opposing forces want `cell`: a claimant is of another
/// force than the phage on the cell or, where the cell is empty, than
/// another claimant.
pub open spec fn contested(board: GameStateView, cell: NodeId, sources: Seq<NodeId>) -> bool {
    is_cell(board, cell) && match occupant_of(board, cell) {
        Some(defender) => exists|i: int|
            0 <= i < sources.len() && force_on(board, #[trigger] sources[i]) != Some(defender.0),
        None => !one_force(board, sources),
    }
}

/// A fight for a cell in its course: the board, the phage that holds the
/// cell for now, the node it would come from (none where it is on the cell
/// already), and what has happened so far.
pub struct Fight {
    pub board: GameStateView,
    pub holder: Option<Occupant>,
    pub holder_from: Option<NodeId>,
    pub events: Seq<TransmissionEvents>,
}

/// The fight after the phage on `source` came up. A phage that is gone by
/// now does nothing. The first to come up for an empty cell holds it. An
/// ally of the holder stays where it is. An opponent fights the holder; the
/// loser is removed from the board, and the winner holds the cell.
pub open spec fn fight_step<R: CombatRule>(rule: R, cell: NodeId, fight: Fight, source: NodeId) -> Fight {
    match occupant_of(fight.board, source) {
        None => fight,
        Some(challenger) => match fight.holder {
            None => Fight { holder: Some(challenger), holder_from: Some(source), ..fight },
            Some(holder) => {
                if holder.0 == challenger.0 {
                    fight
                } else if rule.first_prevails(cell, holder, challenger) {
                    Fight {
                        board: with_occupant(fight.board, source, None),
                        events: fight.events.push(
                            TransmissionEvents::CombatOccured {
                                cell,
                                victor: (holder.0, holder.1),
                                lose: (challenger.0, challenger.1),
                            },
                        ),
                        ..fight
                    }
                } else {
                    let stood = match fight.holder_from {
                        Some(from) => from,
                        None => cell,
                    };
                    Fight {
                        board: with_occupant(fight.board, stood, None),
                        holder: Some(challenger),
                        holder_from: Some(source),
                        events: fight.events.push(
                            TransmissionEvents::CombatOccured {
                                cell,
                                victor: (challenger.0, challenger.1),
                                lose: (holder.0, holder.1),
                            },
                        ),
                    }
                }
            },
        },
    }
}

/// The fight after the phage on the first `upto` of `sources` came up, one
/// after the other.
pub open spec fn fight_among<R: CombatRule>(
    rule: R,
    cell: NodeId,
    start: Fight,
    sources: Seq<NodeId>,
    upto: nat,
) -> Fight
    decreases upto,
{
    if upto == 0 {
        start
    } else {
        fight_step(rule, cell, fight_among(rule, cell, start, sources, (upto - 1) as nat), sources[upto - 1])
    }
}

/// The end of a fight: the holder takes the cell. Where it came from another
/// node, it moves.
pub open spec fn settled(cell: NodeId, fight: Fight) -> Resolution {
    match (fight.holder, fight.holder_from) {
        (Some(holder), Some(from)) => Resolution {
            board: with_occupant(with_occupant(fight.board, cell, Some(holder)), from, None),
            events: fight.events.push(TransmissionEvents::PhageMoved { from, to: cell }),
        },
        _ => Resolution { board: fight.board, events: fight.events },
    }
}

/// The combat step at one cell. Where the cell is contested, the phage on it
/// holds it first, and the claimants come up in the order of the queue.
pub open spec fn fought_over<R: CombatRule>(
    rule: R,
    so_far: Resolution,
    queue: Seq<GameMove>,
    cell: NodeId,
) -> Resolution {
    let sources = claimants(so_far.board, queue, cell, queue.len());
    if contested(so_far.board, cell, sources) {
        let start = Fight {
            board: so_far.board,
            holder: occupant_of(so_far.board, cell),
            holder_from: None,
            events: so_far.events,
        };
        settled(cell, fight_among(rule, cell, start, sources, sources.len()))
    } else {
        so_far
    }
}

/// The combat step at the cells with an id below `upto`, by ascending id.
pub open spec fn fought<R: CombatRule>(rule: R, so_far: Resolution, queue: Seq<GameMove>, upto: nat) -> Resolution
    decreases upto,
{
    if upto == 0 {
        so_far
    } else {
        fought_over(rule, fought(rule, so_far, queue, (upto - 1) as nat), queue, NodeId((upto - 1) as u32))
    }
}

/// Whether phage of opposing forces want `cell`.
fn contested_at(board: &GameState, cell: NodeId, sources: &Vec<NodeId>) -> (yes: bool)
    ensures
        yes == contested(board@, cell, sources@),
{
    if !is_cell_at(board, cell) {
        return false;
    }
    match occupant_at(board, cell) {
        Some(defender) => {
            let mut i: usize = 0;
            while i < sources.len()
                invariant
                    i <= sources.len(),
                    is_cell(board@, cell),
                    occupant_of(board@, cell) == Some(defender),
                    forall|j: int| 0 <= j < i ==> force_on(board@, #[trigger] sources@[j]) == Some(defender.0),
                decreases sources.len() - i,
            {
                if !same_force(force_at(board, sources[i]), Some(defender.0)) {
                    proof {
                        assert(force_on(board@, sources@[i as int]) != Some(defender.0));
                    }
                    return true;
                }
                i += 1;
            }
            false
        },
        None => !one_force_among(board, sources),
    }
}

/// The combat step at one cell.
fn fight_over<R: CombatRule>(
    board: &mut GameState,
    queue: &Vec<GameMove>,
    cell: NodeId,
    rule: &R,
    events: &mut Vec<TransmissionEvents>,
)
    requires
        old(board).well_formed(),
    ensures
        final(board).well_formed(),
        (Resolution { board: final(board)@, events: final(events)@ }) == fought_over(
            *rule,
            Resolution { board: old(board)@, events: old(events)@ },
            queue@,
            cell,
        ),
{
    let sources = claimants_of(board, queue, cell);
    if !contested_at(board, cell, &sources) {
        return;
    }
    let mut holder: Option<Occupant> = occupant_at(board, cell);
    let mut holder_from: Option<NodeId> = None;
    let ghost start = Fight { board: board@, holder, holder_from, events: events@ };
    let mut i: usize = 0;
    while i < sources.len()
        invariant
            i <= sources.len(),
            board.well_formed(),
            (Fight { board: board@, holder, holder_from, events: events@ }) == fight_among(
                *rule,
                cell,
                start,
                sources@,
                i as nat,
            ),
        decreases sources.len() - i,
    {
        let source = sources[i];
        match occupant_at(board, source) {
            None => {},
            Some(challenger) => match holder {
                None => {
                    holder = Some(challenger);
                    holder_from = Some(source);
                },
                Some(held) => {
                    if held.0.0 == challenger.0.0 {
                    } else if rule.decide(cell, held, challenger) {
                        board.set_tenant(source, NodeTenant::Cell { cell: Cell { occupant: None } });
                        events.push(
                            TransmissionEvents::CombatOccured {
                                cell,
                                victor: (held.0, held.1),
                                lose: (challenger.0, challenger.1),
                            },
                        );
                    } else {
                        let stood = match holder_from {
                            Some(from) => from,
                            None => cell,
                        };
                        board.set_tenant(stood, NodeTenant::Cell { cell: Cell { occupant: None } });
                        events.push(
                            TransmissionEvents::CombatOccured {
                                cell,
                                victor: (challenger.0, challenger.1),
                                lose: (held.0, held.1),
                            },
                        );
                        holder = Some(challenger);
                        holder_from = Some(source);
                    }
                },
            },
        }
        i += 1;
    }
    match (holder, holder_from) {
        (Some(held), Some(from)) => {
            board.set_tenant(cell, NodeTenant::Cell { cell: Cell { occupant: Some(held) } });
            board.set_tenant(from, NodeTenant::Cell { cell: Cell { occupant: None } });
            events.push(TransmissionEvents::PhageMoved { from, to: cell });
        },
        _ => {},
    }
}

/// The combat step: the contested cells are fought over, the cells taken by
/// ascending id.
pub fn fight_for_cells<R: CombatRule>(
    board: &mut GameState,
    queue: &Vec<GameMove>,
    rule: &R,
    events: &mut Vec<TransmissionEvents>,
)
    requires
        old(board).well_formed(),
    ensures
        final(board).well_formed(),
        (Resolution { board: final(board)@, events: final(events)@ }) == fought(
            *rule,
            Resolution { board: old(board)@, events: old(events)@ },
            queue@,
            old(board)@.next_free_id.0 as nat,
        ),
{
    let limit = board.next_free_id().0;
    let ghost start = Resolution { board: board@, events: events@ };
    let mut n: u32 = 0;
    while n < limit
        invariant
            n <= limit,
            board.well_formed(),
            (Resolution { board: board@, events: events@ }) == fought(*rule, start, queue@, n as nat),
        decreases limit - n,
    {
        fight_over(board, queue, NodeId(n), rule, events);
        n += 1;
    }
}

} // verus!
