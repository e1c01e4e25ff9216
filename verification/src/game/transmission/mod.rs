//! What the board does to itself in a transmission phase. The outcome is a
//! function of the board, of what waits for the phase and of the rules:
//! nothing here draws a number or reads a clock.

use vstd::prelude::*;
use crate::game::gamerunner::TransmissionEvents;
use crate::game::{Cell, Force, GameMove, GameState, GameStateView, NodeId, NodeTenant, Occupant};

pub mod combat;
pub mod laws;
pub mod movement;
pub mod qubits;
pub mod recombination;
pub mod rules;

pub use combat::{contested, fight_for_cells, fought};
pub use movement::{claimants, claimants_of, move_phage, moved};
pub use qubits::{distribute_qubits, qubit_awards};
pub use recombination::{recombine, recombined, retool_replicators, retooled, PlacedRecombinator};
pub use rules::{
    CombatRule, DormantRecombinators, FirstComeRule, RecombinatorRule, StrengthRule,
    TransmissionRules,
};

verus! {

/// The board in the course of a transmission phase, with what has happened
/// to it so far.
pub struct Resolution {
    pub board: GameStateView,
    pub events: Seq<TransmissionEvents>,
}

/// The phage on the node `id`: a cell's occupant, and nothing on any other
/// tenant or where there is no such node.
pub open spec fn occupant_of(board: GameStateView, id: NodeId) -> Option<Occupant> {
    if board.node_exists(id) {
        match board.nodes[id].tenant {
            NodeTenant::Cell { cell } => cell.occupant,
            _ => None,
        }
    } else {
        None
    }
}

/// Whether the node `id` exists and has a cell on it.
pub open spec fn is_cell(board: GameStateView, id: NodeId) -> bool {
    board.node_exists(id) && board.nodes[id].tenant is Cell
}

/// The board with `occupant` on the cell `id`.
pub open spec fn with_occupant(board: GameStateView, id: NodeId, occupant: Option<Occupant>) -> GameStateView {
    board.set_tenant(id, NodeTenant::Cell { cell: Cell { occupant } })
}

/// The force of the phage on the node `id`, if a phage is there.
pub open spec fn force_on(board: GameStateView, id: NodeId) -> Option<Force> {
    match occupant_of(board, id) {
        Some(phage) => Some(phage.0),
        None => None,
    }
}

/// The phage on the node `id`.
pub fn occupant_at(board: &GameState, id: NodeId) -> (occupant: Option<Occupant>)
    ensures
        occupant == occupant_of(board@, id),
{
    match board.node(id) {
        Some(node) => match node.tenant {
            NodeTenant::Cell { cell } => cell.occupant,
            _ => None,
        },
        None => None,
    }
}

/// Whether the node `id` exists and has a cell on it.
pub fn is_cell_at(board: &GameState, id: NodeId) -> (cell: bool)
    ensures
        cell == is_cell(board@, id),
{
    match board.node(id) {
        Some(node) => match node.tenant {
            NodeTenant::Cell { .. } => true,
            _ => false,
        },
        None => false,
    }
}

/// Whether two forces, or their absence, are the same.
pub(crate) fn same_force(a: Option<Force>, b: Option<Force>) -> (same: bool)
    ensures
        same == (a == b),
{
    match (a, b) {
        (Some(x), Some(y)) => x.0 == y.0,
        (None, None) => true,
        _ => false,
    }
}

/// The force of the phage on the node `id`, if a phage is there.
pub(crate) fn force_at(board: &GameState, id: NodeId) -> (force: Option<Force>)
    ensures
        force == force_on(board@, id),
{
    match occupant_at(board, id) {
        Some(phage) => Some(phage.0),
        None => None,
    }
}

/// The whole transmission phase: qubits are distributed; the queued changes
/// of type reach the replicators and the recombinators fire; phage move into
/// cells that nobody contests; contested cells are fought over. Each step
/// sees the board as the step before left it.
pub open spec fn resolved<C: CombatRule, R: RecombinatorRule>(
    rules: TransmissionRules<C, R>,
    board: GameStateView,
    queue: Seq<GameMove>,
    placed: Seq<PlacedRecombinator>,
) -> Resolution {
    let awarded = Resolution { board, events: qubit_awards(board, board.next_free_id.0 as nat) };
    let retooled = Resolution { board: retooled(board, queue, queue.len()), events: awarded.events };
    let recombined = recombined(
        rules.recombinators,
        retooled,
        queue,
        placed,
        retooled.board.next_free_id.0 as nat,
    );
    let moved = moved(recombined, queue, recombined.board.next_free_id.0 as nat);
    fought(rules.combat, moved, queue, moved.board.next_free_id.0 as nat)
}

/// Runs the transmission phase on the board: the four steps in their fixed
/// order, each on the board as the step before left it. Returns what
/// happened, in the order in which it happened.
pub fn resolve_transmission<C: CombatRule, R: RecombinatorRule>(
    board: &mut GameState,
    queue: &Vec<GameMove>,
    placed: &Vec<PlacedRecombinator>,
    rules: &TransmissionRules<C, R>,
) -> (events: Vec<TransmissionEvents>)
    requires
        old(board).well_formed(),
    ensures
        final(board).well_formed(),
        final(board)@ == resolved(*rules, old(board)@, queue@, placed@).board,
        events@ == resolved(*rules, old(board)@, queue@, placed@).events,
{
    let mut events: Vec<TransmissionEvents> = Vec::new();
    distribute_qubits(board, &mut events);
    proof {
        assert(events@ =~= qubit_awards(board@, board@.next_free_id.0 as nat));
    }
    retool_replicators(board, queue);
    recombine(board, queue, placed, &rules.recombinators, &mut events);
    move_phage(board, queue, &mut events);
    fight_for_cells(board, queue, &rules.combat, &mut events);
    events
}

} // verus!
