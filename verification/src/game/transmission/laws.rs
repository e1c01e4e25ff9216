//! What holds of every transmission phase.

use vstd::prelude::*;
use crate::game::gamerunner::TransmissionEvents;
use crate::game::transmission::combat::{contested, fight_among, fought, Fight};
use crate::game::transmission::movement::{claimants, moved, mover_into};
use crate::game::transmission::qubits::qubit_awards;
use crate::game::transmission::recombination::{
    fires, recombined, recombined_at, retooled, PlacedRecombinator,
};
use crate::game::transmission::rules::{
    CombatRule, DormantRecombinators, RecombinatorRule, TransmissionRules,
};
use crate::game::transmission::{occupant_of, resolved, Resolution};
use crate::game::{
    Cell, GameMove, GameStateView, Mutation, NodeId, NodeTenant, RecombinatorEffect, Replicator,
};

verus! {

/// Whether two boards have the same nodes at the same places under the same
/// owners, the same edges, and the same name and numbers: whether they
/// differ in tenants at most.
pub open spec fn same_graph(a: GameStateView, b: GameStateView) -> bool {
    &&& a.vectors == b.vectors
    &&& a.next_free_id == b.next_free_id
    &&& a.name == b.name
    &&& a.num_players == b.num_players
    &&& forall|id: NodeId| a.nodes.dom().contains(id) <==> b.nodes.dom().contains(id)
    &&& forall|id: NodeId| #[trigger]
        a.nodes.dom().contains(id) ==> a.nodes[id].id == b.nodes[id].id && a.nodes[id].force
            == b.nodes[id].force && a.nodes[id].position == b.nodes[id].position
}

/// A board that differs in tenants at most from a well-formed board is well
/// formed.
pub proof fn same_graph_keeps_form(before: GameStateView, after: GameStateView)
    requires
        before.well_formed(),
        same_graph(before, after),
    ensures
        after.well_formed(),
{
    assert forall|id: NodeId| #[trigger] after.nodes.dom().contains(id) implies id.0 < after.next_free_id.0
        && after.nodes[id].id == id by {
        assert(before.nodes.dom().contains(id));
    }
    assert forall|i: int| 0 <= i < after.vectors.len() implies {
        let v = #[trigger] after.vectors[i];
        &&& v.0.0 <= v.1.0
        &&& after.nodes.dom().contains(v.0)
        &&& after.nodes.dom().contains(v.1)
    } by {
        let v = before.vectors[i];
        assert(before.nodes.dom().contains(v.0));
        assert(before.nodes.dom().contains(v.1));
    }
}

/// A change of tenant leaves the graph as it is.
proof fn tenant_keeps_graph(start: GameStateView, board: GameStateView, id: NodeId, tenant: NodeTenant)
    requires
        same_graph(start, board),
    ensures
        same_graph(start, board.set_tenant(id, tenant)),
{
    let after = board.set_tenant(id, tenant);
    assert forall|other: NodeId| start.nodes.dom().contains(other) <==> after.nodes.dom().contains(other) by {
        assert(start.nodes.dom().contains(other) <==> board.nodes.dom().contains(other));
    }
    assert forall|other: NodeId| #[trigger] start.nodes.dom().contains(other) implies start.nodes[other].id
        == after.nodes[other].id && start.nodes[other].force == after.nodes[other].force
        && start.nodes[other].position == after.nodes[other].position by {
        assert(board.nodes.dom().contains(other));
    }
}

/// The replicators change in the graph as it is.
proof fn retooling_keeps_graph(start: GameStateView, board: GameStateView, queue: Seq<GameMove>, upto: nat)
    requires
        same_graph(start, board),
    ensures
        same_graph(start, retooled(board, queue, upto)),
    decreases upto,
{
    if upto > 0 {
        retooling_keeps_graph(start, board, queue, (upto - 1) as nat);
        let so_far = retooled(board, queue, (upto - 1) as nat);
        match queue[upto - 1] {
            GameMove::Mutate { mutation: Mutation::ChangeReplicatorType { replicator, new_type, .. } } => {
                if so_far.node_exists(replicator) {
                    match so_far.nodes[replicator].tenant {
                        NodeTenant::Replicator { replicator: old } => {
                            tenant_keeps_graph(
                                start,
                                so_far,
                                replicator,
                                NodeTenant::Replicator {
                                    replicator: Replicator { output: new_type, speed: old.speed },
                                },
                            );
                        },
                        _ => {},
                    }
                }
            },
            _ => {},
        }
    }
}

/// Phage move in the graph as it is.
proof fn moving_keeps_graph(start: GameStateView, so_far: Resolution, queue: Seq<GameMove>, upto: nat)
    requires
        same_graph(start, so_far.board),
    ensures
        same_graph(start, moved(so_far, queue, upto).board),
    decreases upto,
{
    if upto > 0 {
        moving_keeps_graph(start, so_far, queue, (upto - 1) as nat);
        let before = moved(so_far, queue, (upto - 1) as nat).board;
        let cell = NodeId((upto - 1) as u32);
        match mover_into(before, queue, cell) {
            Some(source) => {
                let arrived = NodeTenant::Cell { cell: Cell { occupant: occupant_of(before, source) } };
                tenant_keeps_graph(start, before, cell, arrived);
                tenant_keeps_graph(
                    start,
                    before.set_tenant(cell, arrived),
                    source,
                    NodeTenant::Cell { cell: Cell { occupant: None } },
                );
            },
            None => {},
        }
    }
}

/// Phage fight in the graph as it is.
proof fn fighting_keeps_graph<R: CombatRule>(
    rule: R,
    start: GameStateView,
    cell: NodeId,
    begun: Fight,
    sources: Seq<NodeId>,
    upto: nat,
)
    requires
        same_graph(start, begun.board),
    ensures
        same_graph(start, fight_among(rule, cell, begun, sources, upto).board),
    decreases upto,
{
    if upto > 0 {
        fighting_keeps_graph(rule, start, cell, begun, sources, (upto - 1) as nat);
        let fight = fight_among(rule, cell, begun, sources, (upto - 1) as nat);
        let source = sources[upto - 1];
        let gone = NodeTenant::Cell { cell: Cell { occupant: None } };
        tenant_keeps_graph(start, fight.board, source, gone);
        tenant_keeps_graph(start, fight.board, cell, gone);
        if fight.holder_from is Some {
            tenant_keeps_graph(start, fight.board, fight.holder_from.unwrap(), gone);
        }
    }
}

/// Cells are fought over in the graph as it is.
proof fn combat_keeps_graph<R: CombatRule>(
    rule: R,
    start: GameStateView,
    so_far: Resolution,
    queue: Seq<GameMove>,
    upto: nat,
)
    requires
        same_graph(start, so_far.board),
    ensures
        same_graph(start, fought(rule, so_far, queue, upto).board),
    decreases upto,
{
    if upto > 0 {
        combat_keeps_graph(rule, start, so_far, queue, (upto - 1) as nat);
        let before = fought(rule, so_far, queue, (upto - 1) as nat);
        let cell = NodeId((upto - 1) as u32);
        let sources = claimants(before.board, queue, cell, queue.len());
        if contested(before.board, cell, sources) {
            let begun = Fight {
                board: before.board,
                holder: occupant_of(before.board, cell),
                holder_from: None,
                events: before.events,
            };
            fighting_keeps_graph(rule, start, cell, begun, sources, sources.len());
            let fight = fight_among(rule, cell, begun, sources, sources.len());
            match (fight.holder, fight.holder_from) {
                (Some(holder), Some(from)) => {
                    let held = NodeTenant::Cell { cell: Cell { occupant: Some(holder) } };
                    tenant_keeps_graph(start, fight.board, cell, held);
                    tenant_keeps_graph(
                        start,
                        fight.board.set_tenant(cell, held),
                        from,
                        NodeTenant::Cell { cell: Cell { occupant: None } },
                    );
                },
                _ => {},
            }
        }
    }
}

/// What holds of a rule whose effects change tenants only.
pub open spec fn effects_change_tenants_only<R: RecombinatorRule>(rule: R) -> bool {
    forall|so_far: Resolution, cell: NodeId, effect: RecombinatorEffect|
        same_graph(so_far.board, #[trigger] rule.effect_of(so_far, cell, effect).board)
}

/// Boards that differ in tenants at most from a third differ in tenants at
/// most from each other.
proof fn same_graph_carries_on(start: GameStateView, middle: GameStateView, end: GameStateView)
    requires
        same_graph(start, middle),
        same_graph(middle, end),
    ensures
        same_graph(start, end),
{
    assert forall|id: NodeId| start.nodes.dom().contains(id) <==> end.nodes.dom().contains(id) by {
        assert(start.nodes.dom().contains(id) <==> middle.nodes.dom().contains(id));
    }
    assert forall|id: NodeId| #[trigger] start.nodes.dom().contains(id) implies start.nodes[id].id
        == end.nodes[id].id && start.nodes[id].force == end.nodes[id].force && start.nodes[id].position
        == end.nodes[id].position by {
        assert(middle.nodes.dom().contains(id));
    }
}

/// The recombinators of one cell fire in the graph as it is.
proof fn recombining_at_keeps_graph<R: RecombinatorRule>(
    rule: R,
    start: GameStateView,
    so_far: Resolution,
    queue: Seq<GameMove>,
    placed: Seq<PlacedRecombinator>,
    cell: NodeId,
    upto: nat,
)
    requires
        effects_change_tenants_only(rule),
        same_graph(start, so_far.board),
    ensures
        same_graph(start, recombined_at(rule, so_far, queue, placed, cell, upto).board),
    decreases upto,
{
    if upto > 0 {
        recombining_at_keeps_graph(rule, start, so_far, queue, placed, cell, (upto - 1) as nat);
        let before = recombined_at(rule, so_far, queue, placed, cell, (upto - 1) as nat);
        let one = placed[upto - 1];
        if one.cell == cell && fires(rule, before.board, queue, one) {
            let told = Resolution {
                board: before.board,
                events: before.events.push(
                    TransmissionEvents::RecombinatorTriggered { cell, recombinator: one.recombinator },
                ),
            };
            same_graph_carries_on(start, before.board, rule.effect_of(told, cell, one.recombinator.effect).board);
        }
    }
}

/// The recombinators fire in the graph as it is.
proof fn recombining_keeps_graph<R: RecombinatorRule>(
    rule: R,
    start: GameStateView,
    so_far: Resolution,
    queue: Seq<GameMove>,
    placed: Seq<PlacedRecombinator>,
    upto: nat,
)
    requires
        effects_change_tenants_only(rule),
        same_graph(start, so_far.board),
    ensures
        same_graph(start, recombined(rule, so_far, queue, placed, upto).board),
    decreases upto,
{
    if upto > 0 {
        recombining_keeps_graph(rule, start, so_far, queue, placed, (upto - 1) as nat);
        recombining_at_keeps_graph(
            rule,
            start,
            recombined(rule, so_far, queue, placed, (upto - 1) as nat),
            queue,
            placed,
            NodeId((upto - 1) as u32),
            placed.len(),
        );
    }
}

/// Under rules whose recombinators change tenants only, the transmission
/// phase changes tenants and nothing else: the board keeps its nodes, their
/// places and owners, its edges, its name and its numbers, and a well-formed
/// board stays well formed.
pub proof fn resolution_keeps_the_graph<C: CombatRule, R: RecombinatorRule>(
    rules: TransmissionRules<C, R>,
    board: GameStateView,
    queue: Seq<GameMove>,
    placed: Seq<PlacedRecombinator>,
)
    requires
        effects_change_tenants_only(rules.recombinators),
    ensures
        same_graph(board, resolved(rules, board, queue, placed).board),
        board.well_formed() ==> resolved(rules, board, queue, placed).board.well_formed(),
{
    let limit = board.next_free_id.0 as nat;
    retooling_keeps_graph(board, board, queue, queue.len());
    let retooled = Resolution { board: retooled(board, queue, queue.len()), events: qubit_awards(board, limit) };
    recombining_keeps_graph(rules.recombinators, board, retooled, queue, placed, limit);
    let recombined = recombined(rules.recombinators, retooled, queue, placed, limit);
    moving_keeps_graph(board, recombined, queue, limit);
    combat_keeps_graph(rules.combat, board, moved(recombined, queue, limit), queue, limit);
    if board.well_formed() {
        same_graph_keeps_form(board, resolved(rules, board, queue, placed).board);
    }
}

/// The rule under which recombinators do nothing changes tenants only.
pub proof fn dormant_recombinators_change_nothing()
    ensures
        effects_change_tenants_only(DormantRecombinators {  }),
{
}

} // verus!
