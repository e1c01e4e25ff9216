//! The second step: queued changes reach the replicators, and the
//! recombinators fire.

use vstd::prelude::*;
use crate::game::gamerunner::TransmissionEvents;
use crate::game::transmission::rules::RecombinatorRule;
use crate::game::transmission::Resolution;
use crate::game::{
    GameMove, GameState, GameStateView, Mutation, NodeId, NodeTenant, Recombinator, Replicator,
};

verus! {

/// The board after one queued move took effect on the replicators: a change
/// of type puts the new type on the replicator it names, where that node has
/// a replicator, and leaves its speed alone. Every other move leaves the
/// board as it is.
pub open spec fn retooled_by(board: GameStateView, queued: GameMove) -> GameStateView {
    match queued {
        GameMove::Mutate { mutation: Mutation::ChangeReplicatorType { replicator, new_type, .. } } => {
            if board.node_exists(replicator) {
                match board.nodes[replicator].tenant {
                    NodeTenant::Replicator { replicator: old } => board.set_tenant(
                        replicator,
                        NodeTenant::Replicator { replicator: Replicator { output: new_type, speed: old.speed } },
                    ),
                    _ => board,
                }
            } else {
                board
            }
        },
        _ => board,
    }
}

/// The board after the first `upto` queued moves took effect on the
/// replicators, one after the other.
pub open spec fn retooled(board: GameStateView, queue: Seq<GameMove>, upto: nat) -> GameStateView
    decreases upto,
{
    if upto == 0 {
        board
    } else {
        retooled_by(retooled(board, queue, (upto - 1) as nat), queue[upto - 1])
    }
}

/// Puts the queued changes of type on the replicators, in the order of the
/// queue. A later change of one replicator overrides an earlier one.
pub fn retool_replicators(board: &mut GameState, queue: &Vec<GameMove>)
    requires
        old(board).well_formed(),
    ensures
        final(board).well_formed(),
        final(board)@ == retooled(old(board)@, queue@, queue@.len()),
{
    let mut i: usize = 0;
    while i < queue.len()
        invariant
            i <= queue.len(),
            board.well_formed(),
            board@ == retooled(old(board)@, queue@, i as nat),
        decreases queue.len() - i,
    {
        match queue[i] {
            GameMove::Mutate { mutation: Mutation::ChangeReplicatorType { replicator, new_type, .. } } => {
                match board.node(replicator) {
                    Some(node) => match node.tenant {
                        NodeTenant::Replicator { replicator: old } => {
                            board.set_tenant(
                                replicator,
                                NodeTenant::Replicator {
                                    replicator: Replicator { output: new_type, speed: old.speed },
                                },
                            );
                        },
                        _ => {},
                    },
                    None => {},
                }
            },
            _ => {},
        }
        i += 1;
    }
}

/// A recombinator with the cell it is attached to.
#[derive(Clone, Copy, Debug, PartialEq, Eq)]
pub struct PlacedRecombinator {
    pub cell: NodeId,
    pub recombinator: Recombinator,
}

/// Whether a queued move asks for the recombinators on `cell` to fire.
pub open spec fn asks_for(queued: GameMove, cell: NodeId) -> bool {
    match queued {
        GameMove::Mutate { mutation: Mutation::TriggerRecombinator { target, .. } } => target == cell,
        _ => false,
    }
}

/// Whether a player has triggered the recombinators on `cell`.
pub open spec fn requested(queue: Seq<GameMove>, cell: NodeId) -> bool {
    exists|i: int| 0 <= i < queue.len() && asks_for(#[trigger] queue[i], cell)
}

/// Whether a recombinator fires: a player has triggered its cell, or the
/// rule finds its trigger met on the board.
pub open spec fn fires<R: RecombinatorRule>(
    rule: R,
    board: GameStateView,
    queue: Seq<GameMove>,
    placed: PlacedRecombinator,
) -> bool {
    requested(queue, placed.cell) || rule.trigger_met(board, placed.cell, placed.recombinator.trigger)
}

/// The step for one recombinator while the cell `cell` has its turn. A
/// recombinator on that cell that fires is told of, and then its effect
/// takes place as the rule has it.
pub open spec fn recombined_by<R: RecombinatorRule>(
    rule: R,
    so_far: Resolution,
    queue: Seq<GameMove>,
    placed: PlacedRecombinator,
    cell: NodeId,
) -> Resolution {
    if placed.cell == cell && fires(rule, so_far.board, queue, placed) {
        rule.effect_of(
            Resolution {
                board: so_far.board,
                events: so_far.events.push(
                    TransmissionEvents::RecombinatorTriggered { cell, recombinator: placed.recombinator },
                ),
            },
            cell,
            placed.recombinator.effect,
        )
    } else {
        so_far
    }
}

/// The step for the first `upto` recombinators while the cell `cell` has its
/// turn: those on the cell, in the order in which they were attached.
pub open spec fn recombined_at<R: RecombinatorRule>(
    rule: R,
    so_far: Resolution,
    queue: Seq<GameMove>,
    placed: Seq<PlacedRecombinator>,
    cell: NodeId,
    upto: nat,
) -> Resolution
    decreases upto,
{
    if upto == 0 {
        so_far
    } else {
        recombined_by(
            rule,
            recombined_at(rule, so_far, queue, placed, cell, (upto - 1) as nat),
            queue,
            placed[upto - 1],
            cell,
        )
    }
}

/// The recombinators of the cells with an id below `upto`, the cells taken
/// by ascending id. Each recombinator sees the board as the one before left
/// it.
pub open spec fn recombined<R: RecombinatorRule>(
    rule: R,
    so_far: Resolution,
    queue: Seq<GameMove>,
    placed: Seq<PlacedRecombinator>,
    upto: nat,
) -> Resolution
    decreases upto,
{
    if upto == 0 {
        so_far
    } else {
        recombined_at(
            rule,
            recombined(rule, so_far, queue, placed, (upto - 1) as nat),
            queue,
            placed,
            NodeId((upto - 1) as u32),
            placed.len(),
        )
    }
}

/// Whether a player has triggered the recombinators on `cell`.
fn is_requested(queue: &Vec<GameMove>, cell: NodeId) -> (yes: bool)
    ensures
        yes == requested(queue@, cell),
{
    let mut i: usize = 0;
    while i < queue.len()
        invariant
            i <= queue.len(),
            forall|j: int| 0 <= j < i ==> !asks_for(#[trigger] queue@[j], cell),
        decreases queue.len() - i,
    {
        match queue[i] {
            GameMove::Mutate { mutation: Mutation::TriggerRecombinator { target, .. } } => {
                if target == cell {
                    assert(asks_for(queue@[i as int], cell));
                    return true;
                }
            },
            _ => {},
        }
        i += 1;
    }
    false
}

/// Lets the recombinators on `cell` fire, in the order in which they were
/// attached.
fn recombine_at<R: RecombinatorRule>(
    board: &mut GameState,
    queue: &Vec<GameMove>,
    placed: &Vec<PlacedRecombinator>,
    cell: NodeId,
    rule: &R,
    events: &mut Vec<TransmissionEvents>,
)
    requires
        old(board).well_formed(),
    ensures
        final(board).well_formed(),
        (Resolution { board: final(board)@, events: final(events)@ }) == recombined_at(
            *rule,
            Resolution { board: old(board)@, events: old(events)@ },
            queue@,
            placed@,
            cell,
            placed@.len(),
        ),
{
    let asked = is_requested(queue, cell);
    let ghost start = Resolution { board: board@, events: events@ };
    let mut i: usize = 0;
    while i < placed.len()
        invariant
            i <= placed.len(),
            asked == requested(queue@, cell),
            board.well_formed(),
            (Resolution { board: board@, events: events@ }) == recombined_at(
                *rule,
                start,
                queue@,
                placed@,
                cell,
                i as nat,
            ),
        decreases placed.len() - i,
    {
        let one = placed[i];
        if one.cell == cell && (asked || rule.check_trigger(board, cell, one.recombinator.trigger)) {
            events.push(TransmissionEvents::RecombinatorTriggered { cell, recombinator: one.recombinator });
            rule.apply_effect(board, events, cell, one.recombinator.effect);
        }
        i += 1;
    }
}

/// The recombinators fire, the cells taken by ascending id and the
/// recombinators of a cell in the order in which they were attached.
pub fn recombine<R: RecombinatorRule>(
    board: &mut GameState,
    queue: &Vec<GameMove>,
    placed: &Vec<PlacedRecombinator>,
    rule: &R,
    events: &mut Vec<TransmissionEvents>,
)
    requires
        old(board).well_formed(),
    ensures
        final(board).well_formed(),
        (Resolution { board: final(board)@, events: final(events)@ }) == recombined(
            *rule,
            Resolution { board: old(board)@, events: old(events)@ },
            queue@,
            placed@,
            old(board)@.next_free_id.0 as nat,
        ),
{
    let limit = board.next_free_id().0;
    let ghost start = Resolution { board: board@, events: events@ };
    let mut n: u32 = 0;
    while n < limit
        invariant
            n <= limit,
            board.well_formed(),
            (Resolution { board: board@, events: events@ }) == recombined(*rule, start, queue@, placed@, n as nat),
        decreases limit - n,
    {
        recombine_at(board, queue, placed, NodeId(n), rule, events);
        n += 1;
    }
}

} // verus!
