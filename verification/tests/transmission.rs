use macrophage::game::codec::{load, save};
use macrophage::game::distance::nexus_distance;
use macrophage::game::gamerunner::{TransmissionEvents, TransmissionSubPhase};
use macrophage::game::transmission::{
    claimants_of, is_cell_at, occupant_at, resolve_transmission, DormantRecombinators,
    FirstComeRule, PlacedRecombinator, RecombinatorRule, Resolution, StrengthRule,
    TransmissionRules,
};
use macrophage::game::{
    Cell, Force, GameMove, GameState, GameStateView, Generator, Mutation, Nexus, NodeId,
    NodeTenant, Occupant, PhageType, Position, Recombinator, RecombinatorEffect,
    RecombinatorTriggers, Replicator, Vector,
};

fn origin() -> Position {
    Position { x: 0, y: 0, z: 0 }
}

fn board(forces: &[u32]) -> GameState {
    let mut map = GameState::new("t".to_string(), 2);
    for force in forces {
        map.create_node(Force(*force), origin());
    }
    map
}

fn phage(map: &mut GameState, id: u32, force: u32, kind: PhageType) {
    assert!(map.set_tenant(
        NodeId(id),
        NodeTenant::Cell { cell: Cell { occupant: Some(Occupant(Force(force), kind)) } }
    ));
}

fn go(from: u32, to: u32) -> GameMove {
    GameMove::MovePhage { vector: Vector(NodeId(from), NodeId(to)) }
}

fn first_come() -> TransmissionRules<FirstComeRule, DormantRecombinators> {
    TransmissionRules { combat: FirstComeRule {}, recombinators: DormantRecombinators {} }
}

fn strengths(uv: u32, electro: u32, sonic: u32, any: u32) -> TransmissionRules<StrengthRule, DormantRecombinators> {
    TransmissionRules {
        combat: StrengthRule { uv, electro, sonic, any },
        recombinators: DormantRecombinators {},
    }
}

fn even() -> TransmissionRules<StrengthRule, DormantRecombinators> {
    strengths(1, 1, 1, 1)
}

#[test]
fn the_steps_follow_each_other() {
    assert_eq!(TransmissionSubPhase::DistributeQubits.following(), Some(TransmissionSubPhase::ReCombinate));
    assert_eq!(TransmissionSubPhase::ReCombinate.following(), Some(TransmissionSubPhase::Movement));
    assert_eq!(TransmissionSubPhase::Movement.following(), Some(TransmissionSubPhase::Combat));
    assert_eq!(TransmissionSubPhase::Combat.following(), None);
}

#[test]
fn generators_give_their_amount_to_their_owner_by_ascending_id() {
    let mut map = board(&[3, 4, 9, 5]);
    map.set_tenant(NodeId(2), NodeTenant::Generator { generator: Generator { amt: 50, speed: 1 } });
    map.set_tenant(NodeId(0), NodeTenant::Generator { generator: Generator { amt: 7, speed: 2 } });
    map.set_tenant(NodeId(1), NodeTenant::Nexus { nexus: Nexus {} });
    let events = resolve_transmission(&mut map, &vec![], &vec![], &first_come());
    assert_eq!(
        events,
        vec![
            TransmissionEvents::QubitsDistributed { recipient: Force(3), qty: 7, source: NodeId(0) },
            TransmissionEvents::QubitsDistributed { recipient: Force(9), qty: 50, source: NodeId(2) },
        ]
    );
}

#[test]
fn nothing_queued_and_no_generator_changes_nothing() {
    let mut map = board(&[1, 2]);
    map.add_vector(Vector(NodeId(0), NodeId(1))).unwrap();
    phage(&mut map, 0, 1, PhageType::UV);
    let before = save(&map);
    let events = resolve_transmission(&mut map, &vec![], &vec![], &first_come());
    assert_eq!(events, vec![]);
    assert_eq!(save(&map), before);
}

#[test]
fn a_queued_change_of_type_reaches_the_replicator() {
    let mut map = board(&[1, 1]);
    map.set_tenant(
        NodeId(1),
        NodeTenant::Replicator { replicator: Replicator { output: PhageType::UV, speed: 3 } },
    );
    let queue = vec![
        GameMove::Mutate {
            mutation: Mutation::ChangeReplicatorType { replicator: NodeId(1), new_type: PhageType::Sonic, cost: 10 },
        },
        GameMove::Mutate {
            mutation: Mutation::ChangeReplicatorType { replicator: NodeId(0), new_type: PhageType::Any, cost: 10 },
        },
        GameMove::Mutate { mutation: Mutation::TriggerRecombinator { target: NodeId(0), cost: 10 } },
        GameMove::GiveQubits { source: Force(1), dest: Force(2), qty: 5 },
        GameMove::Mutate {
            mutation: Mutation::ChangeReplicatorType { replicator: NodeId(1), new_type: PhageType::Electro, cost: 10 },
        },
    ];
    let events = resolve_transmission(&mut map, &queue, &vec![], &first_come());
    assert_eq!(events, vec![]);
    assert_eq!(
        map.node(NodeId(1)).unwrap().tenant,
        NodeTenant::Replicator { replicator: Replicator { output: PhageType::Electro, speed: 3 } }
    );
    assert_eq!(map.node(NodeId(0)).unwrap().tenant, NodeTenant::Cell { cell: Cell { occupant: None } });
}

#[test]
fn a_phage_moves_into_an_empty_cell_along_an_edge() {
    let mut map = board(&[1, 2, 3]);
    map.add_vector(Vector(NodeId(0), NodeId(1))).unwrap();
    phage(&mut map, 0, 1, PhageType::Electro);
    let events = resolve_transmission(&mut map, &vec![go(0, 1)], &vec![], &first_come());
    assert_eq!(events, vec![TransmissionEvents::PhageMoved { from: NodeId(0), to: NodeId(1) }]);
    assert_eq!(occupant_at(&map, NodeId(0)), None);
    assert_eq!(occupant_at(&map, NodeId(1)), Some(Occupant(Force(1), PhageType::Electro)));
    assert_eq!(map.node(NodeId(1)).unwrap().force, Force(2));
}

#[test]
fn a_move_that_cannot_be_made_is_passed_over() {
    let mut map = board(&[1, 2, 3, 4]);
    map.add_vector(Vector(NodeId(0), NodeId(1))).unwrap();
    map.add_vector(Vector(NodeId(0), NodeId(3))).unwrap();
    map.set_tenant(NodeId(3), NodeTenant::Nexus { nexus: Nexus {} });
    phage(&mut map, 0, 1, PhageType::UV);
    let before = save(&map);
    // no edge, no phage, onto itself, not a cell, no such node
    let queue = vec![go(0, 2), go(1, 0), go(0, 0), go(0, 3), go(0, 9), go(9, 1)];
    let events = resolve_transmission(&mut map, &queue, &vec![], &first_come());
    assert_eq!(events, vec![]);
    assert_eq!(save(&map), before);
    assert!(is_cell_at(&map, NodeId(1)));
    assert!(!is_cell_at(&map, NodeId(3)));
    assert!(!is_cell_at(&map, NodeId(9)));
}

#[test]
fn claimants_come_in_the_order_of_the_queue() {
    let mut map = board(&[1, 1, 1, 1]);
    map.add_vector(Vector(NodeId(0), NodeId(3))).unwrap();
    map.add_vector(Vector(NodeId(1), NodeId(3))).unwrap();
    phage(&mut map, 0, 1, PhageType::UV);
    phage(&mut map, 1, 1, PhageType::UV);
    phage(&mut map, 2, 1, PhageType::UV);
    let queue = vec![go(1, 3), go(2, 3), go(0, 3), go(3, 0)];
    assert_eq!(claimants_of(&map, &queue, NodeId(3)), vec![NodeId(1), NodeId(0)]);
    assert_eq!(claimants_of(&map, &queue, NodeId(0)), Vec::<NodeId>::new());
}

#[test]
fn distance_to_the_nexus_counts_edges() {
    let mut map = board(&[1, 1, 1, 1, 2, 1]);
    map.set_tenant(NodeId(0), NodeTenant::Nexus { nexus: Nexus {} });
    map.set_tenant(NodeId(4), NodeTenant::Nexus { nexus: Nexus {} });
    map.add_vector(Vector(NodeId(0), NodeId(1))).unwrap();
    map.add_vector(Vector(NodeId(1), NodeId(2))).unwrap();
    map.add_vector(Vector(NodeId(2), NodeId(3))).unwrap();
    map.add_vector(Vector(NodeId(0), NodeId(3))).unwrap();
    map.add_vector(Vector(NodeId(3), NodeId(4))).unwrap();
    assert_eq!(nexus_distance(&map, Force(1), NodeId(0)), Some(0));
    assert_eq!(nexus_distance(&map, Force(1), NodeId(1)), Some(1));
    assert_eq!(nexus_distance(&map, Force(1), NodeId(2)), Some(2));
    assert_eq!(nexus_distance(&map, Force(1), NodeId(3)), Some(1));
    assert_eq!(nexus_distance(&map, Force(1), NodeId(4)), Some(2));
    assert_eq!(nexus_distance(&map, Force(1), NodeId(5)), None);
    assert_eq!(nexus_distance(&map, Force(1), NodeId(6)), None);
    assert_eq!(nexus_distance(&map, Force(2), NodeId(4)), Some(0));
    assert_eq!(nexus_distance(&map, Force(2), NodeId(1)), Some(3));
    assert_eq!(nexus_distance(&map, Force(3), NodeId(0)), None);
}

#[test]
fn of_two_allies_the_one_farther_from_its_nexus_moves() {
    // 0 is the nexus; 1 is next to it, 2 is two edges away; both want 3.
    let mut map = board(&[1, 1, 1, 1]);
    map.set_tenant(NodeId(0), NodeTenant::Nexus { nexus: Nexus {} });
    map.add_vector(Vector(NodeId(0), NodeId(1))).unwrap();
    map.add_vector(Vector(NodeId(1), NodeId(2))).unwrap();
    map.add_vector(Vector(NodeId(1), NodeId(3))).unwrap();
    map.add_vector(Vector(NodeId(2), NodeId(3))).unwrap();
    phage(&mut map, 1, 1, PhageType::UV);
    phage(&mut map, 2, 1, PhageType::Sonic);
    let events = resolve_transmission(&mut map, &vec![go(1, 3), go(2, 3)], &vec![], &first_come());
    assert_eq!(events, vec![TransmissionEvents::PhageMoved { from: NodeId(2), to: NodeId(3) }]);
    assert_eq!(occupant_at(&map, NodeId(3)), Some(Occupant(Force(1), PhageType::Sonic)));
    assert_eq!(occupant_at(&map, NodeId(2)), None);
    assert_eq!(occupant_at(&map, NodeId(1)), Some(Occupant(Force(1), PhageType::UV)));
}

#[test]
fn of_two_allies_equally_far_the_one_queued_first_moves() {
    let mut map = board(&[1, 1, 1, 1]);
    map.set_tenant(NodeId(0), NodeTenant::Nexus { nexus: Nexus {} });
    map.add_vector(Vector(NodeId(0), NodeId(1))).unwrap();
    map.add_vector(Vector(NodeId(0), NodeId(2))).unwrap();
    map.add_vector(Vector(NodeId(1), NodeId(3))).unwrap();
    map.add_vector(Vector(NodeId(2), NodeId(3))).unwrap();
    phage(&mut map, 1, 1, PhageType::UV);
    phage(&mut map, 2, 1, PhageType::Sonic);
    let events = resolve_transmission(&mut map, &vec![go(2, 3), go(1, 3)], &vec![], &first_come());
    assert_eq!(events, vec![TransmissionEvents::PhageMoved { from: NodeId(2), to: NodeId(3) }]);
}

#[test]
fn an_ally_cut_off_from_its_nexus_counts_as_farthest() {
    let mut map = board(&[1, 1, 1, 1]);
    map.set_tenant(NodeId(0), NodeTenant::Nexus { nexus: Nexus {} });
    map.add_vector(Vector(NodeId(0), NodeId(1))).unwrap();
    map.add_vector(Vector(NodeId(1), NodeId(3))).unwrap();
    map.add_vector(Vector(NodeId(2), NodeId(3))).unwrap();
    map.remove_vector(Vector(NodeId(0), NodeId(1))).unwrap();
    map.add_vector(Vector(NodeId(0), NodeId(2))).unwrap();
    phage(&mut map, 1, 1, PhageType::UV);
    phage(&mut map, 2, 1, PhageType::Sonic);
    // 2 is one edge from the nexus, 1 reaches it over 3 and 2
    assert_eq!(nexus_distance(&map, Force(1), NodeId(1)), Some(3));
    let events = resolve_transmission(&mut map, &vec![go(2, 3), go(1, 3)], &vec![], &first_come());
    assert_eq!(events, vec![TransmissionEvents::PhageMoved { from: NodeId(1), to: NodeId(3) }]);
}

#[test]
fn an_ally_does_not_move_onto_an_ally() {
    let mut map = board(&[1, 1]);
    map.add_vector(Vector(NodeId(0), NodeId(1))).unwrap();
    phage(&mut map, 0, 1, PhageType::UV);
    phage(&mut map, 1, 1, PhageType::Sonic);
    let events = resolve_transmission(&mut map, &vec![go(0, 1)], &vec![], &even());
    assert_eq!(events, vec![]);
    assert_eq!(occupant_at(&map, NodeId(0)), Some(Occupant(Force(1), PhageType::UV)));
    assert_eq!(occupant_at(&map, NodeId(1)), Some(Occupant(Force(1), PhageType::Sonic)));
}

#[test]
fn opponents_fight_for_an_empty_cell_and_the_first_keeps_it() {
    let mut map = board(&[1, 2, 3]);
    map.add_vector(Vector(NodeId(0), NodeId(2))).unwrap();
    map.add_vector(Vector(NodeId(1), NodeId(2))).unwrap();
    phage(&mut map, 0, 1, PhageType::UV);
    phage(&mut map, 1, 2, PhageType::Sonic);
    let events = resolve_transmission(&mut map, &vec![go(0, 2), go(1, 2)], &vec![], &first_come());
    assert_eq!(
        events,
        vec![
            TransmissionEvents::CombatOccured {
                cell: NodeId(2),
                victor: (Force(1), PhageType::UV),
                lose: (Force(2), PhageType::Sonic),
            },
            TransmissionEvents::PhageMoved { from: NodeId(0), to: NodeId(2) },
        ]
    );
    assert_eq!(occupant_at(&map, NodeId(0)), None);
    assert_eq!(occupant_at(&map, NodeId(1)), None);
    assert_eq!(occupant_at(&map, NodeId(2)), Some(Occupant(Force(1), PhageType::UV)));
}

#[test]
fn the_stronger_phage_takes_the_cell() {
    let mut map = board(&[1, 2, 3]);
    map.add_vector(Vector(NodeId(0), NodeId(2))).unwrap();
    map.add_vector(Vector(NodeId(1), NodeId(2))).unwrap();
    phage(&mut map, 0, 1, PhageType::UV);
    phage(&mut map, 1, 2, PhageType::Sonic);
    let rule = strengths(1, 1, 5, 1);
    assert_eq!(rule.combat.strength(PhageType::Sonic), 5);
    assert_eq!(rule.combat.strength(PhageType::UV), 1);
    let events = resolve_transmission(&mut map, &vec![go(0, 2), go(1, 2)], &vec![], &rule);
    assert_eq!(
        events,
        vec![
            TransmissionEvents::CombatOccured {
                cell: NodeId(2),
                victor: (Force(2), PhageType::Sonic),
                lose: (Force(1), PhageType::UV),
            },
            TransmissionEvents::PhageMoved { from: NodeId(1), to: NodeId(2) },
        ]
    );
    assert_eq!(occupant_at(&map, NodeId(0)), None);
    assert_eq!(occupant_at(&map, NodeId(1)), None);
    assert_eq!(occupant_at(&map, NodeId(2)), Some(Occupant(Force(2), PhageType::Sonic)));
}

#[test]
fn a_defender_that_prevails_stays_and_the_attacker_is_removed() {
    let mut map = board(&[1, 2]);
    map.add_vector(Vector(NodeId(0), NodeId(1))).unwrap();
    phage(&mut map, 0, 1, PhageType::UV);
    phage(&mut map, 1, 2, PhageType::Sonic);
    let events = resolve_transmission(&mut map, &vec![go(0, 1)], &vec![], &even());
    assert_eq!(
        events,
        vec![TransmissionEvents::CombatOccured {
            cell: NodeId(1),
            victor: (Force(2), PhageType::Sonic),
            lose: (Force(1), PhageType::UV),
        }]
    );
    assert_eq!(occupant_at(&map, NodeId(0)), None);
    assert_eq!(occupant_at(&map, NodeId(1)), Some(Occupant(Force(2), PhageType::Sonic)));
}

#[test]
fn an_attacker_that_prevails_takes_the_cell_of_the_defender() {
    let mut map = board(&[1, 2]);
    map.add_vector(Vector(NodeId(0), NodeId(1))).unwrap();
    phage(&mut map, 0, 1, PhageType::UV);
    phage(&mut map, 1, 2, PhageType::Sonic);
    let rule = strengths(9, 1, 5, 1);
    let events = resolve_transmission(&mut map, &vec![go(0, 1)], &vec![], &rule);
    assert_eq!(
        events,
        vec![
            TransmissionEvents::CombatOccured {
                cell: NodeId(1),
                victor: (Force(1), PhageType::UV),
                lose: (Force(2), PhageType::Sonic),
            },
            TransmissionEvents::PhageMoved { from: NodeId(0), to: NodeId(1) },
        ]
    );
    assert_eq!(occupant_at(&map, NodeId(0)), None);
    assert_eq!(occupant_at(&map, NodeId(1)), Some(Occupant(Force(1), PhageType::UV)));
}

#[test]
fn qubits_come_before_moves_and_moves_before_fights() {
    // cells 1 and 2 want 0 and fight for it; 3 moves into 4 uncontested; 5 is a generator
    let mut map = board(&[1, 1, 2, 1, 1, 6]);
    map.set_tenant(NodeId(5), NodeTenant::Generator { generator: Generator { amt: 3, speed: 1 } });
    map.add_vector(Vector(NodeId(0), NodeId(1))).unwrap();
    map.add_vector(Vector(NodeId(0), NodeId(2))).unwrap();
    map.add_vector(Vector(NodeId(3), NodeId(4))).unwrap();
    phage(&mut map, 1, 1, PhageType::UV);
    phage(&mut map, 2, 2, PhageType::UV);
    phage(&mut map, 3, 1, PhageType::Any);
    let events = resolve_transmission(&mut map, &vec![go(1, 0), go(2, 0), go(3, 4)], &vec![], &even());
    assert_eq!(
        events,
        vec![
            TransmissionEvents::QubitsDistributed { recipient: Force(6), qty: 3, source: NodeId(5) },
            TransmissionEvents::PhageMoved { from: NodeId(3), to: NodeId(4) },
            TransmissionEvents::CombatOccured {
                cell: NodeId(0),
                victor: (Force(1), PhageType::UV),
                lose: (Force(2), PhageType::UV),
            },
            TransmissionEvents::PhageMoved { from: NodeId(1), to: NodeId(0) },
        ]
    );
}

#[test]
fn the_same_start_gives_the_same_end() {
    let mut map = board(&[1, 1, 2, 1, 1, 6]);
    map.set_tenant(NodeId(5), NodeTenant::Generator { generator: Generator { amt: 3, speed: 1 } });
    map.add_vector(Vector(NodeId(0), NodeId(1))).unwrap();
    map.add_vector(Vector(NodeId(0), NodeId(2))).unwrap();
    map.add_vector(Vector(NodeId(3), NodeId(4))).unwrap();
    phage(&mut map, 1, 1, PhageType::UV);
    phage(&mut map, 2, 2, PhageType::Sonic);
    phage(&mut map, 3, 1, PhageType::Any);
    let queue = vec![go(1, 0), go(2, 0), go(3, 4)];
    let rule = strengths(1, 2, 3, 4);
    let snapshot = save(&map);
    let mut first = load(&snapshot).unwrap();
    let mut second = load(&snapshot).unwrap();
    let first_events = resolve_transmission(&mut first, &queue, &vec![], &rule);
    let second_events = resolve_transmission(&mut second, &queue, &vec![], &rule);
    assert_eq!(first_events, second_events);
    assert_eq!(first_events.len(), 4);
    assert_eq!(save(&first), save(&second));
    assert_ne!(save(&first), snapshot);
    // nodes, owners and edges are as before
    assert_eq!(first.vectors().clone(), map.vectors().clone());
    assert_eq!(first.next_free_id(), map.next_free_id());
    for n in 0..6 {
        assert_eq!(first.node(NodeId(n)).unwrap().force, map.node(NodeId(n)).unwrap().force);
    }
}

fn placed(cell: u32, trigger: RecombinatorTriggers, effect: RecombinatorEffect) -> PlacedRecombinator {
    PlacedRecombinator { cell: NodeId(cell), recombinator: Recombinator { trigger, effect } }
}

fn trigger(target: u32) -> GameMove {
    GameMove::Mutate { mutation: Mutation::TriggerRecombinator { target: NodeId(target), cost: 10 } }
}

#[test]
fn a_dormant_recombinator_fires_only_when_a_player_triggers_it() {
    let mut map = board(&[1, 2, 3]);
    let all = vec![
        placed(2, RecombinatorTriggers::PhageEntered, RecombinatorEffect::GiveOccupierAdvantage),
        placed(0, RecombinatorTriggers::OpposingNeighbors, RecombinatorEffect::GiveOccupierQubits { amt: 4 }),
        placed(1, RecombinatorTriggers::Qubits { qty: 1 }, RecombinatorEffect::DestroyPhageWithinRange(2)),
        placed(2, RecombinatorTriggers::CombatOccured, RecombinatorEffect::GiveOccupierQubits { amt: 9 }),
    ];
    let before = save(&map);
    assert_eq!(resolve_transmission(&mut map, &vec![], &all, &first_come()), vec![]);
    let events = resolve_transmission(&mut map, &vec![trigger(2), trigger(0), trigger(7)], &all, &first_come());
    assert_eq!(
        events,
        vec![
            TransmissionEvents::RecombinatorTriggered { cell: NodeId(0), recombinator: all[1].recombinator },
            TransmissionEvents::RecombinatorTriggered { cell: NodeId(2), recombinator: all[0].recombinator },
            TransmissionEvents::RecombinatorTriggered { cell: NodeId(2), recombinator: all[3].recombinator },
        ]
    );
    assert_eq!(save(&map), before);
}

/// A rule for these tests: a recombinator fires by itself where a phage is
/// on its cell, gives qubits to that phage's force, and destroys the phage
/// where its kind is the one named.
struct Keen;

impl RecombinatorRule for Keen {
    fn trigger_met(&self, _board: GameStateView, _cell: NodeId, _trigger: RecombinatorTriggers) -> bool {
        false
    }

    fn check_trigger(&self, board: &GameState, cell: NodeId, _trigger: RecombinatorTriggers) -> bool {
        occupant_at(board, cell).is_some()
    }

    fn effect_of(&self, so_far: Resolution, _cell: NodeId, _effect: RecombinatorEffect) -> Resolution {
        so_far
    }

    fn apply_effect(
        &self,
        board: &mut GameState,
        events: &mut Vec<TransmissionEvents>,
        cell: NodeId,
        effect: RecombinatorEffect,
    ) {
        match (effect, occupant_at(board, cell)) {
            (RecombinatorEffect::GiveOccupierQubits { amt }, Some(held)) => {
                events.push(TransmissionEvents::QubitsDistributed { recipient: held.0, qty: amt, source: cell });
            }
            (RecombinatorEffect::DestroyOccupierIfType { phage_type }, Some(held)) if held.1 == phage_type => {
                board.set_tenant(cell, NodeTenant::Cell { cell: Cell { occupant: None } });
            }
            _ => {}
        }
    }
}

#[test]
fn recombinators_fire_by_ascending_cell_before_anything_moves() {
    let mut map = board(&[1, 1, 1]);
    map.add_vector(Vector(NodeId(0), NodeId(1))).unwrap();
    map.add_vector(Vector(NodeId(1), NodeId(2))).unwrap();
    phage(&mut map, 0, 1, PhageType::UV);
    phage(&mut map, 1, 2, PhageType::Sonic);
    let all = vec![
        placed(1, RecombinatorTriggers::PhageEntered, RecombinatorEffect::DestroyOccupierIfType {
            phage_type: PhageType::Sonic,
        }),
        placed(1, RecombinatorTriggers::PhageEntered, RecombinatorEffect::GiveOccupierQubits { amt: 5 }),
        placed(0, RecombinatorTriggers::PhageEntered, RecombinatorEffect::GiveOccupierQubits { amt: 3 }),
        placed(2, RecombinatorTriggers::PhageEntered, RecombinatorEffect::GiveOccupierQubits { amt: 7 }),
    ];
    let rules = TransmissionRules { combat: FirstComeRule {}, recombinators: Keen };
    // the phage on 1 is destroyed before the phage on 0 moves there, so nobody fights
    let events = resolve_transmission(&mut map, &vec![go(0, 1)], &all, &rules);
    assert_eq!(
        events,
        vec![
            TransmissionEvents::RecombinatorTriggered { cell: NodeId(0), recombinator: all[2].recombinator },
            TransmissionEvents::QubitsDistributed { recipient: Force(1), qty: 3, source: NodeId(0) },
            TransmissionEvents::RecombinatorTriggered { cell: NodeId(1), recombinator: all[0].recombinator },
            TransmissionEvents::PhageMoved { from: NodeId(0), to: NodeId(1) },
        ]
    );
    assert_eq!(occupant_at(&map, NodeId(1)), Some(Occupant(Force(1), PhageType::UV)));
    assert_eq!(occupant_at(&map, NodeId(0)), None);
}
