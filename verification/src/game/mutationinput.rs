//! From keys and clicks to mutations.

use vstd::prelude::*;
use crate::game::controller::PlayerAction;
use crate::game::{Mutation, Node, NodeId, PhageType, PlayerMutationEvent, Vector};

verus! {

/// What every mutation made by a click costs.
pub const CLICK_COST: u32 = 10;

/// The kind of mutation that the next click makes. Only the kind counts: the
/// ids and the cost inside are not read.
#[derive(Clone, Copy, Debug, PartialEq, Eq)]
pub struct MutationSelection(pub Mutation);

/// The selection that a hot key stands for.
pub open spec fn selection_of(key: PlayerAction) -> Option<Mutation> {
    match key {
        PlayerAction::HotKey1 => Some(Mutation::TriggerRecombinator { target: NodeId(0), cost: 0 }),
        PlayerAction::HotKey2 => Some(
            Mutation::AddVector { relation: Vector(NodeId(0), NodeId(0)), cost: 0 },
        ),
        PlayerAction::HotKey3 => Some(
            Mutation::RemoveVector { relation: Vector(NodeId(0), NodeId(0)), cost: 0 },
        ),
        PlayerAction::HotKey4 => Some(
            Mutation::ChangeReplicatorType { replicator: NodeId(0), new_type: PhageType::UV, cost: 0 },
        ),
        _ => None,
    }
}

/// The selection after the keys in `pressed` went down together: that of the
/// highest hot key among them, and the old one where there is none.
pub open spec fn selection_after(selected: Mutation, pressed: Seq<PlayerAction>) -> Mutation {
    if pressed.contains(PlayerAction::HotKey4) {
        selection_of(PlayerAction::HotKey4).unwrap()
    } else if pressed.contains(PlayerAction::HotKey3) {
        selection_of(PlayerAction::HotKey3).unwrap()
    } else if pressed.contains(PlayerAction::HotKey2) {
        selection_of(PlayerAction::HotKey2).unwrap()
    } else if pressed.contains(PlayerAction::HotKey1) {
        selection_of(PlayerAction::HotKey1).unwrap()
    } else {
        selected
    }
}

/// Whether `key` is among `pressed`.
fn is_pressed(pressed: &Vec<PlayerAction>, key: PlayerAction) -> (found: bool)
    ensures
        found == pressed@.contains(key),
{
    let mut i: usize = 0;
    while i < pressed.len()
        invariant
            i <= pressed.len(),
            forall|j: int| 0 <= j < i ==> pressed@[j] != key,
        decreases pressed.len() - i,
    {
        if pressed[i] == key {
            return true;
        }
        i += 1;
    }
    false
}

/// Takes the keys that just went down and changes the selection to that of
/// the highest hot key among them. Other keys change nothing.
pub fn mutation_selection(selected: &mut MutationSelection, just_pressed: &Vec<PlayerAction>)
    ensures
        final(selected).0 == selection_after(old(selected).0, just_pressed@),
{
    if is_pressed(just_pressed, PlayerAction::HotKey1) {
        selected.0 = Mutation::TriggerRecombinator { target: NodeId(0), cost: 0 };
    }
    if is_pressed(just_pressed, PlayerAction::HotKey2) {
        selected.0 = Mutation::AddVector { relation: Vector(NodeId(0), NodeId(0)), cost: 0 };
    }
    if is_pressed(just_pressed, PlayerAction::HotKey3) {
        selected.0 = Mutation::RemoveVector { relation: Vector(NodeId(0), NodeId(0)), cost: 0 };
    }
    if is_pressed(just_pressed, PlayerAction::HotKey4) {
        selected.0 = Mutation::ChangeReplicatorType { replicator: NodeId(0), new_type: PhageType::UV, cost: 0 };
    }
}

/// Where the clicks stand: the node clicked first, while an edge waits for
/// its second end, and the mutations made so far.
pub struct Clicks {
    pub previous: Option<NodeId>,
    pub made: Seq<PlayerMutationEvent>,
}

/// The clicks after one more, on `node`. A mutation of one node is made at
/// once. An edge takes two clicks: the first is kept, the second makes the
/// mutation, for the edge between the two nodes with the smaller id first.
/// Every mutation is made in the name of the force that owns the node of the
/// click that made it.
pub open spec fn clicked(selected: Mutation, so_far: Clicks, node: Node) -> Clicks {
    match selected {
        Mutation::TriggerRecombinator { .. } => Clicks {
            previous: None,
            made: so_far.made.push(
                PlayerMutationEvent {
                    mutation: Mutation::TriggerRecombinator { target: node.id, cost: CLICK_COST },
                    force: node.force,
                },
            ),
        },
        Mutation::AddVector { .. } => match so_far.previous {
            Some(first) => Clicks {
                previous: None,
                made: so_far.made.push(
                    PlayerMutationEvent {
                        mutation: Mutation::AddVector {
                            relation: Vector(first, node.id).canonical(),
                            cost: CLICK_COST,
                        },
                        force: node.force,
                    },
                ),
            },
            None => Clicks { previous: Some(node.id), made: so_far.made },
        },
        Mutation::RemoveVector { .. } => match so_far.previous {
            Some(first) => Clicks {
                previous: None,
                made: so_far.made.push(
                    PlayerMutationEvent {
                        mutation: Mutation::RemoveVector {
                            relation: Vector(first, node.id).canonical(),
                            cost: CLICK_COST,
                        },
                        force: node.force,
                    },
                ),
            },
            None => Clicks { previous: Some(node.id), made: so_far.made },
        },
        Mutation::ChangeReplicatorType { .. } => Clicks {
            previous: None,
            made: so_far.made.push(
                PlayerMutationEvent {
                    mutation: Mutation::ChangeReplicatorType {
                        replicator: node.id,
                        new_type: PhageType::UV,
                        cost: CLICK_COST,
                    },
                    force: node.force,
                },
            ),
        },
    }
}

/// The clicks after the first `upto` of `nodes` were clicked in their order.
pub open spec fn clicked_through(selected: Mutation, start: Clicks, nodes: Seq<Node>, upto: nat) -> Clicks
    decreases upto,
{
    if upto == 0 {
        start
    } else {
        clicked(selected, clicked_through(selected, start, nodes, (upto - 1) as nat), nodes[upto - 1])
    }
}

/// Takes the nodes that were clicked, in the order of the clicks, and
/// returns the mutations that the clicks made. `previous_click` carries the
/// first end of an edge from one call to the next.
pub fn mutation_input(
    selected: &MutationSelection,
    clicked_nodes: &Vec<Node>,
    previous_click: &mut Option<NodeId>,
) -> (made: Vec<PlayerMutationEvent>)
    ensures
        (Clicks { previous: *final(previous_click), made: made@ }) == clicked_through(
            selected.0,
            Clicks { previous: *old(previous_click), made: Seq::empty() },
            clicked_nodes@,
            clicked_nodes@.len(),
        ),
{
    let mut made: Vec<PlayerMutationEvent> = Vec::new();
    let ghost start = Clicks { previous: *previous_click, made: Seq::empty() };
    let mut i: usize = 0;
    while i < clicked_nodes.len()
        invariant
            i <= clicked_nodes.len(),
            (Clicks { previous: *previous_click, made: made@ }) == clicked_through(
                selected.0,
                start,
                clicked_nodes@,
                i as nat,
            ),
        decreases clicked_nodes.len() - i,
    {
        let node = clicked_nodes[i];
        match selected.0 {
            Mutation::TriggerRecombinator { .. } => {
                *previous_click = None;
                made.push(
                    PlayerMutationEvent {
                        mutation: Mutation::TriggerRecombinator { target: node.id, cost: CLICK_COST },
                        force: node.force,
                    },
                );
            },
            Mutation::AddVector { .. } => match *previous_click {
                Some(first) => {
                    made.push(
                        PlayerMutationEvent {
                            mutation: Mutation::AddVector { relation: Vector::new(first, node.id), cost: CLICK_COST },
                            force: node.force,
                        },
                    );
                    *previous_click = None;
                },
                None => {
                    *previous_click = Some(node.id);
                },
            },
            Mutation::RemoveVector { .. } => match *previous_click {
                Some(first) => {
                    made.push(
                        PlayerMutationEvent {
                            mutation: Mutation::RemoveVector {
                                relation: Vector::new(first, node.id),
                                cost: CLICK_COST,
                            },
                            force: node.force,
                        },
                    );
                    *previous_click = None;
                },
                None => {
                    *previous_click = Some(node.id);
                },
            },
            Mutation::ChangeReplicatorType { .. } => {
                *previous_click = None;
                made.push(
                    PlayerMutationEvent {
                        mutation: Mutation::ChangeReplicatorType {
                            replicator: node.id,
                            new_type: PhageType::UV,
                            cost: CLICK_COST,
                        },
                        force: node.force,
                    },
                );
            },
        }
        i += 1;
    }
    made
}

} // verus!
