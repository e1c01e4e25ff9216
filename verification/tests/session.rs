use macrophage::game::gamerunner::{
    run_game, should_run_game, GamePhase, GameRunnerEvent, GameRunnerRes, TransmissionEvents,
};
use macrophage::game::map::process_map_mutations;
use macrophage::game::transmission::{
    occupant_at, DormantRecombinators, FirstComeRule, PlacedRecombinator, TransmissionRules,
};
use macrophage::game::{
    Cell, Force, GameMove, GameState, Generator, MatchSession, Mutation, MutationFailed, NodeId,
    NodeTenant, Occupant, PhageType, PlayerActionError, PlayerMutationEvent, Position,
    Recombinator, RecombinatorEffect, RecombinatorTriggers, Replicator, SessionEvent, Vector,
};

fn origin() -> Position {
    Position { x: 0, y: 0, z: 0 }
}

fn session(forces: &[u32]) -> MatchSession {
    let mut map = GameState::new("s".to_string(), 2);
    for force in forces {
        map.create_node(Force(*force), origin());
    }
    MatchSession::new(map)
}

fn add(a: u32, b: u32) -> Mutation {
    Mutation::AddVector { relation: Vector(NodeId(a), NodeId(b)), cost: 10 }
}

fn remove(a: u32, b: u32) -> Mutation {
    Mutation::RemoveVector { relation: Vector(NodeId(a), NodeId(b)), cost: 10 }
}

fn left(phase: GamePhase) -> SessionEvent {
    SessionEvent::Runner(GameRunnerEvent::PhaseExited { phase })
}

fn entered(phase: GamePhase) -> SessionEvent {
    SessionEvent::Runner(GameRunnerEvent::PhaseEntered { phase })
}

#[test]
fn the_runner_starts_still_in_the_mutation_phase() {
    let runner = GameRunnerRes::default();
    assert!(!runner.run_game);
    assert_eq!(runner.game_phase, GamePhase::MutationPhase);
    assert!(!should_run_game(&runner));
    assert!(should_run_game(&GameRunnerRes { run_game: true, game_phase: GamePhase::MutationPhase }));
}

#[test]
fn three_steps_lead_round_the_phases() {
    let start = GamePhase::MutationPhase;
    assert_eq!(start.successor(), GamePhase::InterstitialPhase);
    assert_eq!(start.successor().successor(), GamePhase::TransmissionPhase);
    assert_eq!(start.successor().successor().successor(), GamePhase::MutationPhase);
    assert_eq!(GamePhase::TransmissionPhase.successor(), GamePhase::MutationPhase);
}

#[test]
fn each_signal_in_a_tick_makes_a_step() {
    let mut game = session(&[1, 1]);
    let rule = TransmissionRules { combat: FirstComeRule {}, recombinators: DormantRecombinators {} };
    assert_eq!(run_game(0, &mut game, &rule), vec![]);
    assert_eq!(game.phase(), GamePhase::MutationPhase);
    assert_eq!(
        run_game(2, &mut game, &rule),
        vec![
            left(GamePhase::MutationPhase),
            entered(GamePhase::InterstitialPhase),
            left(GamePhase::InterstitialPhase),
            entered(GamePhase::TransmissionPhase),
        ]
    );
    assert_eq!(game.phase(), GamePhase::TransmissionPhase);
    assert_eq!(
        run_game(1, &mut game, &rule),
        vec![left(GamePhase::TransmissionPhase), entered(GamePhase::MutationPhase)]
    );
    assert_eq!(game.phase(), GamePhase::MutationPhase);
    assert_eq!(run_game(3, &mut game, &rule).len(), 6);
    assert_eq!(game.phase(), GamePhase::MutationPhase);
    assert_eq!(run_game(4, &mut game, &rule).len(), 8);
    assert_eq!(game.phase(), GamePhase::InterstitialPhase);
}

#[test]
fn the_board_resolves_each_time_the_transmission_phase_is_left() {
    let mut map = GameState::new("s".to_string(), 2);
    map.create_node(Force(1), origin());
    map.create_node(Force(1), origin());
    map.create_node(Force(5), origin());
    map.set_tenant(NodeId(2), NodeTenant::Generator { generator: Generator { amt: 8, speed: 1 } });
    map.set_tenant(
        NodeId(0),
        NodeTenant::Cell { cell: Cell { occupant: Some(Occupant(Force(1), PhageType::UV)) } },
    );
    map.add_vector(Vector(NodeId(0), NodeId(1))).unwrap();
    let mut game = MatchSession::new(map);
    assert_eq!(game.queue_move(Vector(NodeId(0), NodeId(1))), Ok(()));
    let rule = TransmissionRules { combat: FirstComeRule {}, recombinators: DormantRecombinators {} };
    let award = SessionEvent::Transmission(TransmissionEvents::QubitsDistributed {
        recipient: Force(5),
        qty: 8,
        source: NodeId(2),
    });
    // six signals in one tick: twice round the phases, the queued move made the first time only
    assert_eq!(
        run_game(6, &mut game, &rule),
        vec![
            left(GamePhase::MutationPhase),
            entered(GamePhase::InterstitialPhase),
            left(GamePhase::InterstitialPhase),
            entered(GamePhase::TransmissionPhase),
            left(GamePhase::TransmissionPhase),
            award,
            SessionEvent::Transmission(TransmissionEvents::PhageMoved { from: NodeId(0), to: NodeId(1) }),
            entered(GamePhase::MutationPhase),
            left(GamePhase::MutationPhase),
            entered(GamePhase::InterstitialPhase),
            left(GamePhase::InterstitialPhase),
            entered(GamePhase::TransmissionPhase),
            left(GamePhase::TransmissionPhase),
            award,
            entered(GamePhase::MutationPhase),
        ]
    );
    assert_eq!(game.phase(), GamePhase::MutationPhase);
    assert_eq!(occupant_at(game.board(), NodeId(1)), Some(Occupant(Force(1), PhageType::UV)));
    assert_eq!(game.queue().len(), 0);
}

#[test]
fn a_match_goes_round_the_phases_and_tells_of_each() {
    let mut game = session(&[1, 1]);
    assert_eq!(game.phase(), GamePhase::MutationPhase);
    assert!(!game.is_running());
    let rule = TransmissionRules { combat: FirstComeRule {}, recombinators: DormantRecombinators {} };
    assert_eq!(
        game.advance(&rule),
        vec![left(GamePhase::MutationPhase), entered(GamePhase::InterstitialPhase)]
    );
    assert_eq!(game.phase(), GamePhase::InterstitialPhase);
    assert_eq!(
        game.advance(&rule),
        vec![left(GamePhase::InterstitialPhase), entered(GamePhase::TransmissionPhase)]
    );
    assert_eq!(game.phase(), GamePhase::TransmissionPhase);
    assert_eq!(
        game.advance(&rule),
        vec![left(GamePhase::TransmissionPhase), entered(GamePhase::MutationPhase)]
    );
    assert_eq!(game.phase(), GamePhase::MutationPhase);
}

#[test]
fn a_fresh_match_goes_round_the_phases_one_signal_at_a_time() {
    let mut game = session(&[1]);
    let rule = TransmissionRules { combat: FirstComeRule {}, recombinators: DormantRecombinators {} };
    assert_eq!(game.runner(), GameRunnerRes::default());
    assert_eq!(
        run_game(1, &mut game, &rule),
        vec![left(GamePhase::MutationPhase), entered(GamePhase::InterstitialPhase)]
    );
    assert_eq!(game.phase(), GamePhase::InterstitialPhase);
    assert_eq!(
        run_game(1, &mut game, &rule),
        vec![left(GamePhase::InterstitialPhase), entered(GamePhase::TransmissionPhase)]
    );
    assert_eq!(game.phase(), GamePhase::TransmissionPhase);
    assert_eq!(
        run_game(1, &mut game, &rule),
        vec![left(GamePhase::TransmissionPhase), entered(GamePhase::MutationPhase)]
    );
    assert_eq!(game.phase(), GamePhase::MutationPhase);
    assert_eq!(run_game(0, &mut game, &rule), vec![]);
    assert_eq!(game.phase(), GamePhase::MutationPhase);
    assert!(!game.is_running());
}

#[test]
fn beginning_and_completing_a_match_set_whether_it_is_to_be_ticked() {
    let mut game = session(&[1]);
    let rule = TransmissionRules { combat: FirstComeRule {}, recombinators: DormantRecombinators {} };
    assert!(!should_run_game(&game.runner()));
    assert_eq!(game.begin(), GameRunnerEvent::GameBegun);
    assert!(game.is_running());
    assert!(should_run_game(&game.runner()));
    assert_eq!(run_game(1, &mut game, &rule).len(), 2);
    assert_eq!(game.phase(), GamePhase::InterstitialPhase);
    assert!(should_run_game(&game.runner()));
    assert_eq!(game.complete(Force(2)), GameRunnerEvent::GameCompleted { victor: Force(2) });
    assert!(!game.is_running());
    assert!(!should_run_game(&game.runner()));
    assert_eq!(game.runner().game_phase, GamePhase::InterstitialPhase);
    // the tick itself does not look at the flag
    assert_eq!(run_game(2, &mut game, &rule).len(), 4);
    assert_eq!(game.phase(), GamePhase::MutationPhase);
    assert!(!game.is_running());
}

#[test]
fn mutations_are_taken_in_the_mutation_phase_only() {
    let mut game = session(&[1, 1]);
    let rule = TransmissionRules { combat: FirstComeRule {}, recombinators: DormantRecombinators {} };
    game.advance(&rule);
    assert_eq!(game.apply_mutation(add(0, 1), Force(1)), Err(PlayerActionError::WrongPhase));
    assert_eq!(game.queue_move(Vector(NodeId(0), NodeId(1))), Err(PlayerActionError::WrongPhase));
    game.advance(&rule);
    assert_eq!(game.apply_mutation(add(0, 1), Force(1)), Err(PlayerActionError::WrongPhase));
    assert_eq!(game.board().vectors().len(), 0);
    game.advance(&rule);
    assert_eq!(game.apply_mutation(add(0, 1), Force(1)), Ok(()));
    assert_eq!(game.board().vectors().clone(), vec![Vector(NodeId(0), NodeId(1))]);
}

#[test]
fn a_force_changes_only_what_it_holds() {
    let mut game = session(&[1, 1, 3]);
    assert!(game.holds(Force(1), NodeId(0)));
    assert!(game.holds(Force(1), NodeId(1)));
    assert!(!game.holds(Force(1), NodeId(2)));
    assert!(!game.holds(Force(1), NodeId(9)));
    assert_eq!(
        game.apply_mutation(add(1, 2), Force(1)),
        Err(PlayerActionError::NodeNotHeld(NodeId(2)))
    );
    assert_eq!(
        game.apply_mutation(add(2, 0), Force(1)),
        Err(PlayerActionError::NodeNotHeld(NodeId(2)))
    );
    assert_eq!(
        game.apply_mutation(add(0, 1), Force(3)),
        Err(PlayerActionError::NodeNotHeld(NodeId(0)))
    );
    assert_eq!(
        game.apply_mutation(Mutation::TriggerRecombinator { target: NodeId(2), cost: 10 }, Force(1)),
        Err(PlayerActionError::NodeNotHeld(NodeId(2)))
    );
    assert_eq!(game.board().vectors().len(), 0);
    assert_eq!(game.apply_mutation(add(1, 0), Force(1)), Ok(()));
    assert_eq!(game.board().vectors().clone(), vec![Vector(NodeId(0), NodeId(1))]);
}

#[test]
fn a_force_holds_the_cell_its_phage_is_on() {
    let mut map = GameState::new("s".to_string(), 2);
    map.create_node(Force(1), origin());
    map.create_node(Force(2), origin());
    map.create_node(Force(2), origin());
    for id in [0, 1] {
        map.set_tenant(
            NodeId(id),
            NodeTenant::Cell { cell: Cell { occupant: Some(Occupant(Force(3), PhageType::UV)) } },
        );
    }
    let mut game = MatchSession::new(map);
    assert!(game.holds(Force(3), NodeId(1)));
    assert!(game.holds(Force(2), NodeId(1)));
    assert!(game.holds(Force(1), NodeId(0)));
    assert!(!game.holds(Force(3), NodeId(2)));
    assert!(!game.holds(Force(1), NodeId(1)));
    assert_eq!(
        game.apply_mutation(add(1, 2), Force(3)),
        Err(PlayerActionError::NodeNotHeld(NodeId(2)))
    );
    assert_eq!(game.apply_mutation(add(0, 1), Force(3)), Ok(()));
    assert_eq!(game.apply_mutation(add(1, 2), Force(2)), Ok(()));
}

#[test]
fn a_force_makes_one_mutation_about_a_node_in_a_phase() {
    let mut game = session(&[1, 1, 1, 2, 2]);
    let rule = TransmissionRules { combat: FirstComeRule {}, recombinators: DormantRecombinators {} };
    assert_eq!(game.apply_mutation(add(0, 1), Force(1)), Ok(()));
    assert_eq!(
        game.apply_mutation(remove(0, 1), Force(1)),
        Err(PlayerActionError::AlreadyMutated(NodeId(0)))
    );
    assert_eq!(
        game.apply_mutation(add(1, 2), Force(1)),
        Err(PlayerActionError::AlreadyMutated(NodeId(1)))
    );
    assert_eq!(
        game.apply_mutation(add(2, 0), Force(1)),
        Err(PlayerActionError::AlreadyMutated(NodeId(0)))
    );
    assert_eq!(
        game.apply_mutation(Mutation::TriggerRecombinator { target: NodeId(1), cost: 10 }, Force(1)),
        Err(PlayerActionError::AlreadyMutated(NodeId(1)))
    );
    // a node that the force has not touched yet
    assert_eq!(
        game.apply_mutation(Mutation::TriggerRecombinator { target: NodeId(2), cost: 10 }, Force(1)),
        Ok(())
    );
    // another force, about its own nodes
    assert_eq!(game.apply_mutation(add(3, 4), Force(2)), Ok(()));
    assert_eq!(
        game.board().vectors().clone(),
        vec![Vector(NodeId(0), NodeId(1)), Vector(NodeId(3), NodeId(4))]
    );
    game.advance(&rule);
    game.advance(&rule);
    game.advance(&rule);
    assert_eq!(game.apply_mutation(remove(0, 1), Force(1)), Ok(()));
    assert_eq!(game.board().vectors().clone(), vec![Vector(NodeId(3), NodeId(4))]);
}

#[test]
fn the_board_answers_before_the_force_is_looked_at() {
    let mut game = session(&[1, 1]);
    assert_eq!(game.apply_mutation(add(0, 1), Force(1)), Ok(()));
    assert_eq!(game.apply_mutation(add(1, 0), Force(7)), Err(PlayerActionError::VectorExists));
    assert_eq!(
        game.apply_mutation(add(0, 5), Force(7)),
        Err(PlayerActionError::NodeIdDoesNotExist(NodeId(5)))
    );
    assert_eq!(
        game.apply_mutation(remove(1, 1), Force(2)),
        Err(PlayerActionError::VectorDoesNotExist { vector: Vector(NodeId(1), NodeId(1)) })
    );
    assert_eq!(
        game.apply_mutation(Mutation::TriggerRecombinator { target: NodeId(4), cost: 1 }, Force(1)),
        Err(PlayerActionError::NodeIdDoesNotExist(NodeId(4)))
    );
    assert_eq!(
        game.apply_mutation(
            Mutation::ChangeReplicatorType { replicator: NodeId(4), new_type: PhageType::UV, cost: 1 },
            Force(1)
        ),
        Err(PlayerActionError::NodeIdDoesNotExist(NodeId(4)))
    );
    assert_eq!(
        game.apply_mutation(
            Mutation::ChangeReplicatorType { replicator: NodeId(1), new_type: PhageType::UV, cost: 1 },
            Force(2)
        ),
        Err(PlayerActionError::NotAReplicator(NodeId(1)))
    );
}

#[test]
fn a_change_of_type_waits_for_the_transmission_phase() {
    let mut map = GameState::new("s".to_string(), 2);
    map.create_node(Force(1), origin());
    map.set_tenant(
        NodeId(0),
        NodeTenant::Replicator { replicator: Replicator { output: PhageType::UV, speed: 4 } },
    );
    let mut game = MatchSession::new(map);
    let change = Mutation::ChangeReplicatorType { replicator: NodeId(0), new_type: PhageType::Sonic, cost: 10 };
    assert_eq!(game.apply_mutation(change, Force(1)), Ok(()));
    assert_eq!(game.queue().clone(), vec![GameMove::Mutate { mutation: change }]);
    let rule = TransmissionRules { combat: FirstComeRule {}, recombinators: DormantRecombinators {} };
    game.advance(&rule);
    game.advance(&rule);
    assert_eq!(
        game.board().node(NodeId(0)).unwrap().tenant,
        NodeTenant::Replicator { replicator: Replicator { output: PhageType::UV, speed: 4 } }
    );
    assert_eq!(
        game.advance(&rule),
        vec![left(GamePhase::TransmissionPhase), entered(GamePhase::MutationPhase)]
    );
    assert_eq!(
        game.board().node(NodeId(0)).unwrap().tenant,
        NodeTenant::Replicator { replicator: Replicator { output: PhageType::Sonic, speed: 4 } }
    );
    assert_eq!(game.queue().len(), 0);
}

#[test]
fn leaving_the_transmission_phase_tells_what_the_board_did() {
    let mut map = GameState::new("s".to_string(), 2);
    map.create_node(Force(1), origin());
    map.create_node(Force(1), origin());
    map.create_node(Force(5), origin());
    map.set_tenant(NodeId(2), NodeTenant::Generator { generator: Generator { amt: 8, speed: 1 } });
    map.set_tenant(
        NodeId(0),
        NodeTenant::Cell { cell: Cell { occupant: Some(Occupant(Force(1), PhageType::UV)) } },
    );
    map.add_vector(Vector(NodeId(0), NodeId(1))).unwrap();
    let mut game = MatchSession::new(map);
    assert_eq!(game.queue_move(Vector(NodeId(0), NodeId(1))), Ok(()));
    let rule = TransmissionRules { combat: FirstComeRule {}, recombinators: DormantRecombinators {} };
    game.advance(&rule);
    game.advance(&rule);
    assert_eq!(
        game.advance(&rule),
        vec![
            left(GamePhase::TransmissionPhase),
            SessionEvent::Transmission(TransmissionEvents::QubitsDistributed {
                recipient: Force(5),
                qty: 8,
                source: NodeId(2)
            }),
            SessionEvent::Transmission(TransmissionEvents::PhageMoved { from: NodeId(0), to: NodeId(1) }),
            entered(GamePhase::MutationPhase),
        ]
    );
    assert_eq!(game.queue().len(), 0);
    let map = game.into_board();
    assert_eq!(occupant_at(&map, NodeId(1)), Some(Occupant(Force(1), PhageType::UV)));
    assert_eq!(occupant_at(&map, NodeId(0)), None);
}

#[test]
fn refused_mutations_are_told_in_their_order() {
    let mut game = session(&[1, 1, 2, 2]);
    let by = |mutation: Mutation, force: u32| PlayerMutationEvent { mutation, force: Force(force) };
    let events = vec![
        by(add(0, 1), 1),
        by(add(1, 0), 2),
        by(remove(0, 1), 2),
        by(add(2, 7), 2),
        by(add(2, 3), 2),
        by(Mutation::TriggerRecombinator { target: NodeId(0), cost: 10 }, 1),
        by(Mutation::TriggerRecombinator { target: NodeId(2), cost: 10 }, 1),
    ];
    let failed = process_map_mutations(&mut game, &events);
    assert_eq!(
        failed,
        vec![
            MutationFailed { mutation: add(1, 0) },
            MutationFailed { mutation: remove(0, 1) },
            MutationFailed { mutation: add(2, 7) },
            MutationFailed { mutation: Mutation::TriggerRecombinator { target: NodeId(0), cost: 10 } },
            MutationFailed { mutation: Mutation::TriggerRecombinator { target: NodeId(2), cost: 10 } },
        ]
    );
    assert_eq!(
        game.board().vectors().clone(),
        vec![Vector(NodeId(0), NodeId(1)), Vector(NodeId(2), NodeId(3))]
    );
    assert_eq!(process_map_mutations(&mut game, &vec![]), vec![]);
}

#[test]
fn a_triggered_recombinator_fires_in_the_transmission_phase() {
    let mut game = session(&[1, 2]);
    let recombinator = Recombinator {
        trigger: RecombinatorTriggers::NumberOfTransmissionPhases { phases: 3 },
        effect: RecombinatorEffect::GiveOccupierQubits { amt: 2 },
    };
    assert_eq!(
        game.attach_recombinator(NodeId(5), recombinator),
        Err(PlayerActionError::NodeIdDoesNotExist(NodeId(5)))
    );
    assert_eq!(game.attach_recombinator(NodeId(1), recombinator), Ok(()));
    assert_eq!(game.recombinators().clone(), vec![PlacedRecombinator { cell: NodeId(1), recombinator }]);
    let trigger = Mutation::TriggerRecombinator { target: NodeId(1), cost: 10 };
    assert_eq!(game.apply_mutation(trigger, Force(2)), Ok(()));
    let rule = TransmissionRules { combat: FirstComeRule {}, recombinators: DormantRecombinators {} };
    game.advance(&rule);
    game.advance(&rule);
    assert_eq!(
        game.advance(&rule),
        vec![
            left(GamePhase::TransmissionPhase),
            SessionEvent::Transmission(TransmissionEvents::RecombinatorTriggered { cell: NodeId(1), recombinator }),
            entered(GamePhase::MutationPhase),
        ]
    );
    // the trigger was used up; the recombinator stays
    game.advance(&rule);
    game.advance(&rule);
    assert_eq!(game.advance(&rule).len(), 2);
    assert_eq!(game.recombinators().len(), 1);
}
