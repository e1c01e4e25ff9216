//! The third step: phage move into cells that nobody contests.

use vstd::prelude::*;
use crate::game::distance::{in_edges, nexus_distance, nexus_distance_of};
use crate::game::gamerunner::TransmissionEvents;
use crate::game::transmission::{
    force_at, force_on, is_cell, is_cell_at, occupant_at, occupant_of, same_force, with_occupant,
    Resolution,
};
use crate::game::{Cell, Force, GameMove, GameState, GameStateView, NodeId, NodeTenant};

verus! {

/// The node from which a queued move would bring a phage into `cell`, where
/// the move can be made on `board`: it names a cell with a phage on it, the
/// target is another cell, and an edge connects the two.
pub open spec fn claim_on(board: GameStateView, queued: GameMove, cell: NodeId) -> Option<NodeId> {
    match queued {
        GameMove::MovePhage { vector } => {
            if vector.1 == cell && vector.0 != cell && occupant_of(board, vector.0) is Some && is_cell(
                board,
                cell,
            ) && board.vector_exists(vector) {
                Some(vector.0)
            } else {
                None
            }
        },
        _ => None,
    }
}

/// The nodes from which the first `upto` queued moves would bring a phage
/// into `cell`, in the order of the queue.
pub open spec fn claimants(board: GameStateView, queue: Seq<GameMove>, cell: NodeId, upto: nat) -> Seq<NodeId>
    decreases upto,
{
    if upto == 0 {
        Seq::empty()
    } else {
        let before = claimants(board, queue, cell, (upto - 1) as nat);
        match claim_on(board, queue[upto - 1], cell) {
            Some(source) => before.push(source),
            None => before,
        }
    }
}

/// Whether the phage on all of `sources` are of one force.
pub open spec fn one_force(board: GameStateView, sources: Seq<NodeId>) -> bool {
    forall|i: int| 0 <= i < sources.len() ==> force_on(board, #[trigger] sources[i]) == force_on(board, sources[0])
}

/// Whether the first distance is the greater. A node from which no path
/// leads to the nexus is farther than any node from which one does.
pub open spec fn farther(a: Option<nat>, b: Option<nat>) -> bool {
    match (a, b) {
        (None, None) => false,
        (None, Some(_)) => true,
        (Some(_), None) => false,
        (Some(x), Some(y)) => x > y,
    }
}

/// Where among the first `upto` of `sources` the node stands that is
/// farthest from the nexus of `force`; of several equally far, the first.
pub open spec fn farthest(board: GameStateView, force: Force, sources: Seq<NodeId>, upto: nat) -> nat
    decreases upto,
{
    if upto <= 1 {
        0
    } else {
        let best = farthest(board, force, sources, (upto - 1) as nat);
        if farther(
            nexus_distance_of(board, force, sources[upto - 1]),
            nexus_distance_of(board, force, sources[best as int]),
        ) {
            (upto - 1) as nat
        } else {
            best
        }
    }
}

/// The node whose phage moves into `cell` in the movement step, if one does.
/// That takes an empty cell and claims by phage of one force only; of
/// several such phage the one farthest from its nexus moves, and the others
/// stay.
pub open spec fn mover_into(board: GameStateView, queue: Seq<GameMove>, cell: NodeId) -> Option<NodeId> {
    let sources = claimants(board, queue, cell, queue.len());
    if is_cell(board, cell) && occupant_of(board, cell) is None && sources.len() > 0 && one_force(
        board,
        sources,
    ) {
        match occupant_of(board, sources[0]) {
            Some(first) => Some(sources[farthest(board, first.0, sources, sources.len()) as int]),
            None => None,
        }
    } else {
        None
    }
}

/// The movement step at one cell.
pub open spec fn moved_into(so_far: Resolution, queue: Seq<GameMove>, cell: NodeId) -> Resolution {
    match mover_into(so_far.board, queue, cell) {
        Some(source) => Resolution {
            board: with_occupant(
                with_occupant(so_far.board, cell, occupant_of(so_far.board, source)),
                source,
                None,
            ),
            events: so_far.events.push(TransmissionEvents::PhageMoved { from: source, to: cell }),
        },
        None => so_far,
    }
}

/// The movement step at the cells with an id below `upto`, by ascending id.
pub open spec fn moved(so_far: Resolution, queue: Seq<GameMove>, upto: nat) -> Resolution
    decreases upto,
{
    if upto == 0 {
        so_far
    } else {
        moved_into(moved(so_far, queue, (upto - 1) as nat), queue, NodeId((upto - 1) as u32))
    }
}

/// The node from which a queued move would bring a phage into `cell`, where
/// the move can be made.
fn claim_at(board: &GameState, queued: &GameMove, cell: NodeId) -> (source: Option<NodeId>)
    ensures
        source == claim_on(board@, *queued, cell),
{
    match queued {
        GameMove::MovePhage { vector } => {
            if vector.1 == cell && vector.0 != cell && occupant_at(board, vector.0).is_some() && is_cell_at(
                board,
                cell,
            ) && board.vector_exists(*vector) {
                Some(vector.0)
            } else {
                None
            }
        },
        _ => None,
    }
}

/// The nodes from which the queued moves would bring a phage into `cell`, in
/// the order of the queue.
pub fn claimants_of(board: &GameState, queue: &Vec<GameMove>, cell: NodeId) -> (sources: Vec<NodeId>)
    ensures
        sources@ == claimants(board@, queue@, cell, queue@.len()),
{
    let mut sources: Vec<NodeId> = Vec::new();
    let mut i: usize = 0;
    while i < queue.len()
        invariant
            i <= queue.len(),
            sources@ == claimants(board@, queue@, cell, i as nat),
        decreases queue.len() - i,
    {
        match claim_at(board, &queue[i], cell) {
            Some(source) => {
                sources.push(source);
            },
            None => {},
        }
        i += 1;
    }
    sources
}

/// Whether the phage on all of `sources` are of one force.
pub(crate) fn one_force_among(board: &GameState, sources: &Vec<NodeId>) -> (one: bool)
    ensures
        one == one_force(board@, sources@),
{
    if sources.len() == 0 {
        return true;
    }
    let first = force_at(board, sources[0]);
    let mut i: usize = 0;
    while i < sources.len()
        invariant
            i <= sources.len(),
            sources@.len() > 0,
            first == force_on(board@, sources@[0]),
            forall|j: int| 0 <= j < i ==> force_on(board@, #[trigger] sources@[j]) == first,
        decreases sources.len() - i,
    {
        if !same_force(force_at(board, sources[i]), first) {
            return false;
        }
        i += 1;
    }
    true
}

/// Whether the first distance is the greater.
fn is_farther(a: Option<u32>, b: Option<u32>) -> (yes: bool)
    ensures
        yes == farther(in_edges(a), in_edges(b)),
{
    match (a, b) {
        (None, None) => false,
        (None, Some(_)) => true,
        (Some(_), None) => false,
        (Some(x), Some(y)) => x > y,
    }
}

/// Where among `sources` the node stands that is farthest from the nexus of
/// `force`; of several equally far, the first.
fn farthest_of(board: &GameState, force: Force, sources: &Vec<NodeId>) -> (best: usize)
    requires
        board.well_formed(),
        sources@.len() > 0,
    ensures
        best < sources@.len(),
        best == farthest(board@, force, sources@, sources@.len()),
{
    let mut best: usize = 0;
    let mut best_distance = nexus_distance(board, force, sources[0]);
    let mut i: usize = 1;
    while i < sources.len()
        invariant
            board.well_formed(),
            1 <= i <= sources.len(),
            best < i,
            best == farthest(board@, force, sources@, i as nat),
            in_edges(best_distance) == nexus_distance_of(board@, force, sources@[best as int]),
        decreases sources.len() - i,
    {
        let distance = nexus_distance(board, force, sources[i]);
        if is_farther(distance, best_distance) {
            best = i;
            best_distance = distance;
        }
        i += 1;
    }
    best
}

/// The movement step at one cell.
fn move_into(board: &mut GameState, queue: &Vec<GameMove>, cell: NodeId, events: &mut Vec<TransmissionEvents>)
    requires
        old(board).well_formed(),
    ensures
        final(board).well_formed(),
        (Resolution { board: final(board)@, events: final(events)@ }) == moved_into(
            Resolution { board: old(board)@, events: old(events)@ },
            queue@,
            cell,
        ),
{
    if !is_cell_at(board, cell) || occupant_at(board, cell).is_some() {
        return;
    }
    let sources = claimants_of(board, queue, cell);
    if sources.len() == 0 || !one_force_among(board, &sources) {
        return;
    }
    match occupant_at(board, sources[0]) {
        Some(first) => {
            let source = sources[farthest_of(board, first.0, &sources)];
            let phage = occupant_at(board, source);
            board.set_tenant(cell, NodeTenant::Cell { cell: Cell { occupant: phage } });
            board.set_tenant(source, NodeTenant::Cell { cell: Cell { occupant: None } });
            events.push(TransmissionEvents::PhageMoved { from: source, to: cell });
        },
        None => {},
    }
}

/// The movement step: phage move into the cells that nobody contests, the
/// cells taken by ascending id.
pub fn move_phage(board: &mut GameState, queue: &Vec<GameMove>, events: &mut Vec<TransmissionEvents>)
    requires
        old(board).well_formed(),
    ensures
        final(board).well_formed(),
        (Resolution { board: final(board)@, events: final(events)@ }) == moved(
            Resolution { board: old(board)@, events: old(events)@ },
            queue@,
            old(board)@.next_free_id.0 as nat,
        ),
{
    let limit = board.next_free_id().0;
    let ghost start = Resolution { board: board@, events: events@ };
    let mut n: u32 = 0;
    while n < limit
        invariant
            n <= limit,
            board.well_formed(),
            (Resolution { board: board@, events: events@ }) == moved(start, queue@, n as nat),
        decreases limit - n,
    {
        move_into(board, queue, NodeId(n), events);
        n += 1;
    }
}

/// The farthest of some nodes is one of them, none of them is farther than
/// it, and every one before it is nearer.
pub proof fn farthest_is_first_among_the_farthest(
    board: GameStateView,
    force: Force,
    sources: Seq<NodeId>,
    upto: nat,
    i: int,
)
    requires
        0 <= i < upto <= sources.len(),
    ensures
        farthest(board, force, sources, upto) < upto,
        !farther(
            nexus_distance_of(board, force, sources[i]),
            nexus_distance_of(board, force, sources[farthest(board, force, sources, upto) as int]),
        ),
        i < farthest(board, force, sources, upto) ==> farther(
            nexus_distance_of(board, force, sources[farthest(board, force, sources, upto) as int]),
            nexus_distance_of(board, force, sources[i]),
        ),
    decreases upto,
{
    if upto > 1 {
        let fewer = (upto - 1) as nat;
        farthest_is_first_among_the_farthest(board, force, sources, fewer, 0);
        if i < fewer {
            farthest_is_first_among_the_farthest(board, force, sources, fewer, i);
        }
    }
}

/// A node claims a cell exactly when a queued move that can be made brings
/// its phage there.
pub proof fn claimants_are_the_sources_of_claims(
    board: GameStateView,
    queue: Seq<GameMove>,
    cell: NodeId,
    upto: nat,
    source: NodeId,
)
    requires
        upto <= queue.len(),
    ensures
        claimants(board, queue, cell, upto).contains(source) <==> exists|i: int|
            0 <= i < upto && claim_on(board, #[trigger] queue[i], cell) == Some(source),
    decreases upto,
{
    if upto == 0 {
        assert(!claimants(board, queue, cell, upto).contains(source));
    } else {
        let fewer = (upto - 1) as nat;
        claimants_are_the_sources_of_claims(board, queue, cell, fewer, source);
        let before = claimants(board, queue, cell, fewer);
        let all = claimants(board, queue, cell, upto);
        let last = claim_on(board, queue[upto - 1], cell);
        if all.contains(source) {
            let k = all.index_of(source);
            assert(all[k] == source);
            if k < before.len() {
                assert(before[k] == source);
                assert(before.contains(source));
                let i = choose|i: int| 0 <= i < fewer && claim_on(board, #[trigger] queue[i], cell) == Some(source);
                assert(claim_on(board, queue[i], cell) == Some(source));
            } else {
                assert(last == Some(source));
                assert(claim_on(board, queue[upto - 1], cell) == Some(source));
            }
        }
        if exists|i: int| 0 <= i < upto && claim_on(board, #[trigger] queue[i], cell) == Some(source) {
            let i = choose|i: int| 0 <= i < upto && claim_on(board, #[trigger] queue[i], cell) == Some(source);
            if i < fewer {
                assert(before.contains(source));
                let k = before.index_of(source);
                assert(before[k] == source);
                assert(all[k] == source);
            } else {
                assert(all[all.len() - 1] == source);
            }
        }
    }
}

} // verus!
