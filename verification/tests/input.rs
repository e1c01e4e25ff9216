use macrophage::game::controller::PlayerAction;
use macrophage::game::mutationinput::{mutation_input, mutation_selection, MutationSelection, CLICK_COST};
use macrophage::game::{
    Cell, Force, Mutation, Node, NodeId, NodeTenant, PhageType, PlayerMutationEvent, Position, Vector,
};

fn node(id: u32, force: u32) -> Node {
    Node {
        id: NodeId(id),
        position: Position { x: 0, y: 0, z: 0 },
        force: Force(force),
        tenant: NodeTenant::Cell { cell: Cell { occupant: None } },
    }
}

fn add() -> MutationSelection {
    MutationSelection(Mutation::AddVector { relation: Vector(NodeId(0), NodeId(0)), cost: 0 })
}

#[test]
fn hot_keys_select_the_kind_of_mutation() {
    let mut selected = add();
    mutation_selection(&mut selected, &vec![PlayerAction::Scream, PlayerAction::PanUp]);
    assert_eq!(selected, add());
    mutation_selection(&mut selected, &vec![]);
    assert_eq!(selected, add());
    mutation_selection(&mut selected, &vec![PlayerAction::HotKey1]);
    assert_eq!(selected.0, Mutation::TriggerRecombinator { target: NodeId(0), cost: 0 });
    mutation_selection(&mut selected, &vec![PlayerAction::ZoomIn, PlayerAction::HotKey3]);
    assert_eq!(selected.0, Mutation::RemoveVector { relation: Vector(NodeId(0), NodeId(0)), cost: 0 });
    mutation_selection(&mut selected, &vec![PlayerAction::HotKey2]);
    assert_eq!(selected, add());
    mutation_selection(&mut selected, &vec![PlayerAction::HotKey4, PlayerAction::HotKey1]);
    assert_eq!(
        selected.0,
        Mutation::ChangeReplicatorType { replicator: NodeId(0), new_type: PhageType::UV, cost: 0 }
    );
}

#[test]
fn an_edge_takes_two_clicks() {
    let mut previous = None;
    assert_eq!(CLICK_COST, 10);
    assert_eq!(mutation_input(&add(), &vec![node(5, 1)], &mut previous), vec![]);
    assert_eq!(previous, Some(NodeId(5)));
    assert_eq!(
        mutation_input(&add(), &vec![node(2, 3)], &mut previous),
        vec![PlayerMutationEvent {
            mutation: Mutation::AddVector { relation: Vector(NodeId(2), NodeId(5)), cost: 10 },
            force: Force(3),
        }]
    );
    assert_eq!(previous, None);
}

#[test]
fn clicks_in_one_call_are_taken_in_their_order() {
    let mut previous = None;
    let removing =
        MutationSelection(Mutation::RemoveVector { relation: Vector(NodeId(9), NodeId(9)), cost: 3 });
    let made = mutation_input(&removing, &vec![node(1, 1), node(4, 2), node(3, 3)], &mut previous);
    assert_eq!(
        made,
        vec![PlayerMutationEvent {
            mutation: Mutation::RemoveVector { relation: Vector(NodeId(1), NodeId(4)), cost: 10 },
            force: Force(2),
        }]
    );
    assert_eq!(previous, Some(NodeId(3)));
}

#[test]
fn a_mutation_of_one_node_is_made_at_once_and_forgets_the_first_click() {
    let mut previous = Some(NodeId(8));
    let trigger =
        MutationSelection(Mutation::TriggerRecombinator { target: NodeId(0), cost: 0 });
    assert_eq!(
        mutation_input(&trigger, &vec![node(1, 6)], &mut previous),
        vec![PlayerMutationEvent {
            mutation: Mutation::TriggerRecombinator { target: NodeId(1), cost: 10 },
            force: Force(6),
        }]
    );
    assert_eq!(previous, None);
    let mut previous = Some(NodeId(8));
    let change = MutationSelection(Mutation::ChangeReplicatorType {
        replicator: NodeId(0),
        new_type: PhageType::Sonic,
        cost: 0,
    });
    assert_eq!(
        mutation_input(&change, &vec![node(2, 7), node(3, 7)], &mut previous),
        vec![
            PlayerMutationEvent {
                mutation: Mutation::ChangeReplicatorType {
                    replicator: NodeId(2),
                    new_type: PhageType::UV,
                    cost: 10
                },
                force: Force(7),
            },
            PlayerMutationEvent {
                mutation: Mutation::ChangeReplicatorType {
                    replicator: NodeId(3),
                    new_type: PhageType::UV,
                    cost: 10
                },
                force: Force(7),
            },
        ]
    );
    assert_eq!(previous, None);
}
