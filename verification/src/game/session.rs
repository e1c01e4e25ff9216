//! A match: the board, the phase it is in, and what waits for the next
//! transmission phase.

use vstd::prelude::*;
use crate::game::gamerunner::{GamePhase, GameRunnerEvent, GameRunnerRes, TransmissionEvents};
use crate::game::transmission::{
    force_on, resolve_transmission, resolved, CombatRule, PlacedRecombinator, RecombinatorRule,
    TransmissionRules,
};
use crate::game::{
    Force, GameMove, GameState, GameStateView, Mutation, NodeId, NodeTenant, PlayerActionError,
    Recombinator, Vector,
};

verus! {

/// What a match tells the outside, in the order in which it happened.
#[derive(Clone, Copy, Debug, PartialEq, Eq)]
pub enum SessionEvent {
    Runner(GameRunnerEvent),
    Transmission(TransmissionEvents),
}

/// A match as a mathematical value.
pub struct MatchSessionView {
    pub board: GameStateView,
    pub runner: GameRunnerRes,
    /// What waits for the next transmission phase, in the order in which it
    /// came in.
    pub queue: Seq<GameMove>,
    /// Which force has changed which node in the current mutation phase.
    pub acted: Seq<(Force, NodeId)>,
    /// The recombinators of the match, in the order in which they were
    /// attached.
    pub recombinators: Seq<PlacedRecombinator>,
}

/// The events of a transmission phase as events of the match.
pub open spec fn as_session_events(events: Seq<TransmissionEvents>) -> Seq<SessionEvent> {
    Seq::new(events.len(), |i: int| SessionEvent::Transmission(events[i]))
}

impl MatchSessionView {
    /// A match on `board` that has not begun: in the mutation phase, with
    /// nothing waiting.
    pub open spec fn fresh(board: GameStateView) -> MatchSessionView {
        MatchSessionView {
            board,
            runner: GameRunnerRes { run_game: false, game_phase: GamePhase::MutationPhase },
            queue: Seq::empty(),
            acted: Seq::empty(),
            recombinators: Seq::empty(),
        }
    }

    /// Whether the board of the match is one that the operations produce.
    pub open spec fn well_formed(self) -> bool {
        self.board.well_formed()
    }

    /// Whether `force` owns the node `id` or has a phage on it.
    pub open spec fn holds(self, force: Force, id: NodeId) -> bool {
        self.board.node_exists(id) && (self.board.nodes[id].force == force || force_on(self.board, id) == Some(
            force,
        ))
    }

    /// The nodes that a mutation is about: its one node, or the two ends of
    /// its edge.
    pub open spec fn targets(mutation: Mutation) -> (NodeId, Option<NodeId>) {
        match mutation {
            Mutation::TriggerRecombinator { target, .. } => (target, None),
            Mutation::AddVector { relation, .. } => (relation.0, Some(relation.1)),
            Mutation::RemoveVector { relation, .. } => (relation.0, Some(relation.1)),
            Mutation::ChangeReplicatorType { replicator, .. } => (replicator, None),
        }
    }

    /// Whether a mutation is about the node `id`.
    pub open spec fn aims_at(mutation: Mutation, id: NodeId) -> bool {
        Self::targets(mutation).0 == id || Self::targets(mutation).1 == Some(id)
    }

    /// The first node of a mutation that `force` does not hold, if there is
    /// one.
    pub open spec fn unheld(self, mutation: Mutation, force: Force) -> Option<NodeId> {
        let (first, second) = Self::targets(mutation);
        if !self.holds(force, first) {
            Some(first)
        } else if second is Some && !self.holds(force, second.unwrap()) {
            second
        } else {
            None
        }
    }

    /// The first node of a mutation about which `force` has made a mutation
    /// in this phase already, if there is one.
    pub open spec fn spent(self, mutation: Mutation, force: Force) -> Option<NodeId> {
        let (first, second) = Self::targets(mutation);
        if self.acted.contains((force, first)) {
            Some(first)
        } else if second is Some && self.acted.contains((force, second.unwrap())) {
            second
        } else {
            None
        }
    }

    /// The marks that an accepted mutation leaves: one for each node it is
    /// about.
    pub open spec fn marks(mutation: Mutation, force: Force) -> Seq<(Force, NodeId)> {
        let (first, second) = Self::targets(mutation);
        match second {
            Some(other) => seq![(force, first), (force, other)],
            None => seq![(force, first)],
        }
    }

    /// Whether the board can take the mutation, whoever asks: an edge to add
    /// must be new and between nodes of the board, an edge to remove must be
    /// there, a recombinator's node must exist, and a replicator's node must
    /// exist and have a replicator on it.
    pub open spec fn standing(self, mutation: Mutation) -> Result<(), PlayerActionError> {
        match mutation {
            Mutation::AddVector { relation, .. } => self.board.add_vector_outcome(relation),
            Mutation::RemoveVector { relation, .. } => self.board.remove_vector_outcome(relation),
            Mutation::TriggerRecombinator { target, .. } => if self.board.node_exists(target) {
                Ok(())
            } else {
                Err(PlayerActionError::NodeIdDoesNotExist(target))
            },
            Mutation::ChangeReplicatorType { replicator, .. } => if !self.board.node_exists(replicator) {
                Err(PlayerActionError::NodeIdDoesNotExist(replicator))
            } else if !(self.board.nodes[replicator].tenant is Replicator) {
                Err(PlayerActionError::NotAReplicator(replicator))
            } else {
                Ok(())
            },
        }
    }

    /// What a mutation by `force` answers. Outside the mutation phase it is
    /// `WrongPhase`. Then the board must be able to take the mutation. Then
    /// the force must hold every node that the mutation is about, and must
    /// not have made a mutation about any of them in this phase. Of several
    /// nodes at fault the first is named.
    pub open spec fn apply_mutation_outcome(self, mutation: Mutation, force: Force) -> Result<
        (),
        PlayerActionError,
    > {
        if self.runner.game_phase != GamePhase::MutationPhase {
            Err(PlayerActionError::WrongPhase)
        } else if self.standing(mutation).is_err() {
            self.standing(mutation)
        } else {
            match self.unheld(mutation, force) {
                Some(id) => Err(PlayerActionError::NodeNotHeld(id)),
                None => match self.spent(mutation, force) {
                    Some(id) => Err(PlayerActionError::AlreadyMutated(id)),
                    None => Ok(()),
                },
            }
        }
    }

    /// The match after a mutation by `force`. A refused mutation changes
    /// nothing. An accepted one is marked against every node it is about;
    /// an edge is added or removed at once, and the other mutations wait for
    /// the next transmission phase.
    pub open spec fn apply_mutation(self, mutation: Mutation, force: Force) -> MatchSessionView {
        if self.apply_mutation_outcome(mutation, force).is_ok() {
            let acted = self.acted + Self::marks(mutation, force);
            match mutation {
                Mutation::AddVector { relation, .. } => MatchSessionView {
                    board: self.board.add_vector(relation),
                    acted,
                    ..self
                },
                Mutation::RemoveVector { relation, .. } => MatchSessionView {
                    board: self.board.remove_vector(relation),
                    acted,
                    ..self
                },
                _ => MatchSessionView { queue: self.queue.push(GameMove::Mutate { mutation }), acted, ..self },
            }
        } else {
            self
        }
    }

    /// What queueing a move of a phage answers: moves are taken during the
    /// mutation phase only.
    pub open spec fn queue_move_outcome(self) -> Result<(), PlayerActionError> {
        if self.runner.game_phase != GamePhase::MutationPhase {
            Err(PlayerActionError::WrongPhase)
        } else {
            Ok(())
        }
    }

    /// The match after a move of the phage on the first node of `vector` to
    /// its second node was queued.
    pub open spec fn queue_move(self, vector: Vector) -> MatchSessionView {
        if self.queue_move_outcome().is_ok() {
            MatchSessionView { queue: self.queue.push(GameMove::MovePhage { vector }), ..self }
        } else {
            self
        }
    }

    /// What attaching a recombinator to `cell` answers: the cell must be a
    /// node of the board.
    pub open spec fn attach_recombinator_outcome(self, cell: NodeId) -> Result<(), PlayerActionError> {
        if self.board.node_exists(cell) {
            Ok(())
        } else {
            Err(PlayerActionError::NodeIdDoesNotExist(cell))
        }
    }

    /// The match after a recombinator was attached to `cell`: with it as the
    /// last of its recombinators where the cell exists.
    pub open spec fn attach_recombinator(self, cell: NodeId, recombinator: Recombinator) -> MatchSessionView {
        if self.board.node_exists(cell) {
            MatchSessionView {
                recombinators: self.recombinators.push(PlacedRecombinator { cell, recombinator }),
                ..self
            }
        } else {
            self
        }
    }

    /// The match one phase on. Leaving the transmission phase, the board
    /// resolves what waited for it, and the new mutation phase starts with
    /// nothing waiting and no node marked.
    pub open spec fn advance<C: CombatRule, R: RecombinatorRule>(
        self,
        rules: TransmissionRules<C, R>,
    ) -> MatchSessionView {
        let runner = GameRunnerRes { game_phase: self.runner.game_phase.next(), ..self.runner };
        if self.runner.game_phase == GamePhase::TransmissionPhase {
            MatchSessionView {
                board: resolved(rules, self.board, self.queue, self.recombinators).board,
                runner,
                queue: Seq::empty(),
                acted: Seq::empty(),
                ..self
            }
        } else {
            MatchSessionView { runner, ..self }
        }
    }

    /// The match `steps` phases on, each step taken on the match as the step
    /// before left it.
    pub open spec fn advanced<C: CombatRule, R: RecombinatorRule>(
        self,
        rules: TransmissionRules<C, R>,
        steps: nat,
    ) -> MatchSessionView
        decreases steps,
    {
        if steps == 0 {
            self
        } else {
            self.advanced(rules, (steps - 1) as nat).advance(rules)
        }
    }

    /// What `steps` steps tell, one step after the other.
    pub open spec fn advanced_events<C: CombatRule, R: RecombinatorRule>(
        self,
        rules: TransmissionRules<C, R>,
        steps: nat,
    ) -> Seq<SessionEvent>
        decreases steps,
    {
        if steps == 0 {
            Seq::empty()
        } else {
            self.advanced_events(rules, (steps - 1) as nat) + self.advanced(
                rules,
                (steps - 1) as nat,
            ).advance_events(rules)
        }
    }

    /// What one step tells: the phase left, then, out of the transmission
    /// phase, what happened on the board, then the phase entered.
    pub open spec fn advance_events<C: CombatRule, R: RecombinatorRule>(
        self,
        rules: TransmissionRules<C, R>,
    ) -> Seq<SessionEvent> {
        let left = seq![SessionEvent::Runner(GameRunnerEvent::PhaseExited { phase: self.runner.game_phase })];
        let entered = SessionEvent::Runner(
            GameRunnerEvent::PhaseEntered { phase: self.runner.game_phase.next() },
        );
        if self.runner.game_phase == GamePhase::TransmissionPhase {
            (left + as_session_events(
                resolved(rules, self.board, self.queue, self.recombinators).events,
            )).push(entered)
        } else {
            left.push(entered)
        }
    }
}

/// A match. It owns its board, its phase and its queue; nothing else changes
/// them.
pub struct MatchSession {
    board: GameState,
    runner: GameRunnerRes,
    queue: Vec<GameMove>,
    acted: Vec<(Force, NodeId)>,
    recombinators: Vec<PlacedRecombinator>,
}

impl View for MatchSession {
    type V = MatchSessionView;

    closed spec fn view(&self) -> MatchSessionView {
        MatchSessionView {
            board: self.board@,
            runner: self.runner,
            queue: self.queue@,
            acted: self.acted@,
            recombinators: self.recombinators@,
        }
    }
}

impl MatchSession {
    /// Whether the board of the match is one that the operations produce.
    pub open spec fn well_formed(&self) -> bool {
        self@.well_formed()
    }

    /// A match on `board` that has not begun.
    pub fn new(board: GameState) -> (session: MatchSession)
        requires
            board.well_formed(),
        ensures
            session.well_formed(),
            session@ == MatchSessionView::fresh(board@),
    {
        MatchSession {
            board,
            runner: GameRunnerRes { run_game: false, game_phase: GamePhase::MutationPhase },
            queue: Vec::new(),
            acted: Vec::new(),
            recombinators: Vec::new(),
        }
    }

    /// The board.
    pub fn board(&self) -> (board: &GameState)
        ensures
            board@ == self@.board,
    {
        &self.board
    }

    /// The phase the match is in.
    pub fn phase(&self) -> (phase: GamePhase)
        ensures
            phase == self@.runner.game_phase,
    {
        self.runner.game_phase
    }

    /// Whether the match runs, and the phase it is in.
    pub fn runner(&self) -> (runner: GameRunnerRes)
        ensures
            runner == self@.runner,
    {
        self.runner
    }

    /// Whether the match runs.
    pub fn is_running(&self) -> (running: bool)
        ensures
            running == self@.runner.run_game,
    {
        self.runner.run_game
    }

    /// What waits for the next transmission phase.
    pub fn queue(&self) -> (queue: &Vec<GameMove>)
        ensures
            queue@ == self@.queue,
    {
        &self.queue
    }

    /// The recombinators of the match, in the order in which they were
    /// attached.
    pub fn recombinators(&self) -> (placed: &Vec<PlacedRecombinator>)
        ensures
            placed@ == self@.recombinators,
    {
        &self.recombinators
    }

    /// Attaches a recombinator to a cell. It is refused with
    /// `NodeIdDoesNotExist` where the cell is no node of the board.
    pub fn attach_recombinator(&mut self, cell: NodeId, recombinator: Recombinator) -> (outcome: Result<
        (),
        PlayerActionError,
    >)
        ensures
            outcome == old(self)@.attach_recombinator_outcome(cell),
            final(self)@ == old(self)@.attach_recombinator(cell, recombinator),
    {
        if self.board.node_exists(cell) {
            self.recombinators.push(PlacedRecombinator { cell, recombinator });
            Ok(())
        } else {
            Err(PlayerActionError::NodeIdDoesNotExist(cell))
        }
    }

    /// Gives the board back and ends the match.
    pub fn into_board(self) -> (board: GameState)
        ensures
            board@ == self@.board,
    {
        self.board
    }

    /// Starts the match and tells so.
    pub fn begin(&mut self) -> (event: GameRunnerEvent)
        ensures
            final(self)@ == (MatchSessionView {
                runner: GameRunnerRes { run_game: true, ..old(self)@.runner },
                ..old(self)@
            }),
            event == GameRunnerEvent::GameBegun,
    {
        self.runner.run_game = true;
        GameRunnerEvent::GameBegun
    }

    /// Stops the match in favour of `victor` and tells so.
    pub fn complete(&mut self, victor: Force) -> (event: GameRunnerEvent)
        ensures
            final(self)@ == (MatchSessionView {
                runner: GameRunnerRes { run_game: false, ..old(self)@.runner },
                ..old(self)@
            }),
            event == (GameRunnerEvent::GameCompleted { victor }),
    {
        self.runner.run_game = false;
        GameRunnerEvent::GameCompleted { victor }
    }

    /// Whether `force` owns the node `id` or has a phage on it.
    pub fn holds(&self, force: Force, id: NodeId) -> (held: bool)
        ensures
            held == self@.holds(force, id),
    {
        match self.board.node(id) {
            Some(node) => {
                if node.force == force {
                    true
                } else {
                    match node.tenant {
                        NodeTenant::Cell { cell } => match cell.occupant {
                            Some(phage) => phage.0 == force,
                            None => false,
                        },
                        _ => false,
                    }
                }
            },
            None => false,
        }
    }

    /// The nodes that a mutation is about.
    fn targets_of(mutation: &Mutation) -> (nodes: (NodeId, Option<NodeId>))
        ensures
            nodes == MatchSessionView::targets(*mutation),
    {
        match mutation {
            Mutation::TriggerRecombinator { target, .. } => (*target, None),
            Mutation::AddVector { relation, .. } => (relation.0, Some(relation.1)),
            Mutation::RemoveVector { relation, .. } => (relation.0, Some(relation.1)),
            Mutation::ChangeReplicatorType { replicator, .. } => (*replicator, None),
        }
    }

    /// Whether the board can take the mutation, whoever asks.
    fn standing(&self, mutation: &Mutation) -> (answer: Result<(), PlayerActionError>)
        ensures
            answer == self@.standing(*mutation),
    {
        match mutation {
            Mutation::AddVector { relation, .. } => {
                if self.board.vector_exists(*relation) {
                    Err(PlayerActionError::VectorExists)
                } else if !self.board.node_exists(relation.0) {
                    Err(PlayerActionError::NodeIdDoesNotExist(relation.0))
                } else if !self.board.node_exists(relation.1) {
                    Err(PlayerActionError::NodeIdDoesNotExist(relation.1))
                } else {
                    Ok(())
                }
            },
            Mutation::RemoveVector { relation, .. } => {
                if self.board.vector_exists(*relation) {
                    Ok(())
                } else {
                    Err(PlayerActionError::VectorDoesNotExist { vector: *relation })
                }
            },
            Mutation::TriggerRecombinator { target, .. } => {
                if self.board.node_exists(*target) {
                    Ok(())
                } else {
                    Err(PlayerActionError::NodeIdDoesNotExist(*target))
                }
            },
            Mutation::ChangeReplicatorType { replicator, .. } => match self.board.node(*replicator) {
                None => Err(PlayerActionError::NodeIdDoesNotExist(*replicator)),
                Some(node) => match node.tenant {
                    NodeTenant::Replicator { .. } => Ok(()),
                    _ => Err(PlayerActionError::NotAReplicator(*replicator)),
                },
            },
        }
    }

    /// Whether `force` has made a mutation about the node `through` in this
    /// mutation phase.
    fn has_acted(&self, force: Force, through: NodeId) -> (yes: bool)
        ensures
            yes == self@.acted.contains((force, through)),
    {
        let mut i: usize = 0;
        while i < self.acted.len()
            invariant
                i <= self.acted.len(),
                forall|j: int| 0 <= j < i ==> self.acted@[j] != (force, through),
            decreases self.acted.len() - i,
        {
            let entry = self.acted[i];
            if entry.0 == force && entry.1 == through {
                assert(self.acted@[i as int] == (force, through));
                return true;
            }
            i += 1;
        }
        false
    }

    /// Takes a mutation from `force`. It is refused with `WrongPhase` outside
    /// the mutation phase; with the board's own answer where the board
    /// cannot take it; with `NodeNotHeld` where the force neither owns nor
    /// occupies a node that the mutation is about; and with `AlreadyMutated`
    /// where the force has made a mutation about such a node in this phase.
    /// A refused mutation changes nothing. An accepted edge is added or
    /// removed at once; the other mutations wait for the next transmission
    /// phase.
    pub fn apply_mutation(&mut self, mutation: Mutation, acting_force: Force) -> (outcome: Result<
        (),
        PlayerActionError,
    >)
        requires
            old(self).well_formed(),
        ensures
            final(self).well_formed(),
            outcome == old(self)@.apply_mutation_outcome(mutation, acting_force),
            final(self)@ == old(self)@.apply_mutation(mutation, acting_force),
    {
        match self.runner.game_phase {
            GamePhase::MutationPhase => {},
            _ => {
                return Err(PlayerActionError::WrongPhase);
            },
        }
        match self.standing(&mutation) {
            Err(refusal) => {
                return Err(refusal);
            },
            Ok(()) => {},
        }
        let (first, second) = Self::targets_of(&mutation);
        if !self.holds(acting_force, first) {
            return Err(PlayerActionError::NodeNotHeld(first));
        }
        match second {
            Some(other) => {
                if !self.holds(acting_force, other) {
                    return Err(PlayerActionError::NodeNotHeld(other));
                }
            },
            None => {},
        }
        if self.has_acted(acting_force, first) {
            return Err(PlayerActionError::AlreadyMutated(first));
        }
        match second {
            Some(other) => {
                if self.has_acted(acting_force, other) {
                    return Err(PlayerActionError::AlreadyMutated(other));
                }
            },
            None => {},
        }
        self.acted.push((acting_force, first));
        match second {
            Some(other) => {
                self.acted.push((acting_force, other));
            },
            None => {},
        }
        proof {
            assert(self.acted@ =~= old(self)@.acted + MatchSessionView::marks(mutation, acting_force));
        }
        match mutation {
            Mutation::AddVector { relation, .. } => {
                let _ = self.board.add_vector(relation);
            },
            Mutation::RemoveVector { relation, .. } => {
                let _ = self.board.remove_vector(relation);
            },
            _ => {
                self.queue.push(GameMove::Mutate { mutation });
            },
        }
        Ok(())
    }

    /// Queues a move of the phage on the first node of `vector` to its second
    /// node, for the next transmission phase. It is refused with `WrongPhase`
    /// outside the mutation phase. Whether the move can be made is decided
    /// when the transmission phase comes.
    pub fn queue_move(&mut self, vector: Vector) -> (outcome: Result<(), PlayerActionError>)
        ensures
            outcome == old(self)@.queue_move_outcome(),
            final(self)@ == old(self)@.queue_move(vector),
    {
        match self.runner.game_phase {
            GamePhase::MutationPhase => {
                self.queue.push(GameMove::MovePhage { vector });
                Ok(())
            },
            _ => Err(PlayerActionError::WrongPhase),
        }
    }

    /// Goes on to the next phase and returns what happened, in order: the
    /// phase left, then, out of the transmission phase, what the board did,
    /// then the phase entered.
    pub fn advance<C: CombatRule, R: RecombinatorRule>(&mut self, rules: &TransmissionRules<C, R>) -> (events:
        Vec<SessionEvent>)
        requires
            old(self).well_formed(),
        ensures
            final(self).well_formed(),
            final(self)@ == old(self)@.advance(*rules),
            events@ == old(self)@.advance_events(*rules),
    {
        let left = self.runner.game_phase;
        let entered = left.successor();
        let mut events: Vec<SessionEvent> = Vec::new();
        events.push(SessionEvent::Runner(GameRunnerEvent::PhaseExited { phase: left }));
        match left {
            GamePhase::TransmissionPhase => {
                let happened = resolve_transmission(&mut self.board, &self.queue, &self.recombinators, rules);
                let mut i: usize = 0;
                let ghost first = events@;
                while i < happened.len()
                    invariant
                        i <= happened.len(),
                        events@ == first + as_session_events(happened@.take(i as int)),
                    decreases happened.len() - i,
                {
                    events.push(SessionEvent::Transmission(happened[i]));
                    proof {
                        assert(events@ =~= first + as_session_events(happened@.take(i + 1)));
                    }
                    i += 1;
                }
                proof {
                    assert(happened@.take(i as int) == happened@);
                }
                self.queue = Vec::new();
                self.acted = Vec::new();
            },
            _ => {},
        }
        self.runner.game_phase = entered;
        events.push(SessionEvent::Runner(GameRunnerEvent::PhaseEntered { phase: entered }));
        proof {
            assert(events@ =~= old(self)@.advance_events(*rules));
        }
        events
    }
}

/// Three steps lead a match from the mutation phase back to it, through the
/// interstitial phase and the transmission phase. Each step tells first of
/// the phase it leaves and last of the phase it enters. The first two steps
/// tell nothing else and leave the board, the queue and the marks alone; the
/// third tells in between what the board did.
pub proof fn three_steps_come_round<C: CombatRule, R: RecombinatorRule>(
    rules: TransmissionRules<C, R>,
    session: MatchSessionView,
)
    requires
        session.runner.game_phase == GamePhase::MutationPhase,
    ensures
        session.advance(rules).runner.game_phase == GamePhase::InterstitialPhase,
        session.advance(rules).advance(rules).runner.game_phase == GamePhase::TransmissionPhase,
        session.advance(rules).advance(rules).advance(rules).runner.game_phase == GamePhase::MutationPhase,
        session.advance_events(rules) == seq![
            SessionEvent::Runner(GameRunnerEvent::PhaseExited { phase: GamePhase::MutationPhase }),
            SessionEvent::Runner(GameRunnerEvent::PhaseEntered { phase: GamePhase::InterstitialPhase }),
        ],
        session.advance(rules).advance_events(rules) == seq![
            SessionEvent::Runner(GameRunnerEvent::PhaseExited { phase: GamePhase::InterstitialPhase }),
            SessionEvent::Runner(GameRunnerEvent::PhaseEntered { phase: GamePhase::TransmissionPhase }),
        ],
        session.advance(rules).advance(rules) == (MatchSessionView {
            runner: GameRunnerRes { game_phase: GamePhase::TransmissionPhase, ..session.runner },
            ..session
        }),
        session.advance(rules).advance(rules).advance_events(rules).first() == SessionEvent::Runner(
            GameRunnerEvent::PhaseExited { phase: GamePhase::TransmissionPhase },
        ),
        session.advance(rules).advance(rules).advance_events(rules).last() == SessionEvent::Runner(
            GameRunnerEvent::PhaseEntered { phase: GamePhase::MutationPhase },
        ),
        session.advance(rules).advance(rules).advance_events(rules).len() == resolved(
            rules,
            session.board,
            session.queue,
            session.recombinators,
        ).events.len() + 2,
        session.advance(rules).advance(rules).advance(rules).board == resolved(
            rules,
            session.board,
            session.queue,
            session.recombinators,
        ).board,
        session.advance(rules).advance(rules).advance(rules).queue.len() == 0,
        session.advance(rules).advance(rules).advance(rules).acted.len() == 0,
        session.advanced(rules, 1) == session.advance(rules),
        session.advanced_events(rules, 1) == session.advance_events(rules),
        session.advanced(rules, 2) == session.advance(rules).advance(rules),
        session.advanced(rules, 3) == session.advance(rules).advance(rules).advance(rules),
        session.advanced(rules, 2).runner.game_phase == GamePhase::TransmissionPhase,
        session.advanced_events(rules, 2) == session.advance_events(rules) + session.advance(
            rules,
        ).advance_events(rules),
{
    reveal_with_fuel(MatchSessionView::advanced, 4);
    reveal_with_fuel(MatchSessionView::advanced_events, 4);
    assert(session.advanced_events(rules, 1) =~= session.advance_events(rules));
    let first = session.advance_events(rules);
    assert(first =~= seq![
        SessionEvent::Runner(GameRunnerEvent::PhaseExited { phase: GamePhase::MutationPhase }),
        SessionEvent::Runner(GameRunnerEvent::PhaseEntered { phase: GamePhase::InterstitialPhase }),
    ]);
    let second = session.advance(rules).advance_events(rules);
    assert(second =~= seq![
        SessionEvent::Runner(GameRunnerEvent::PhaseExited { phase: GamePhase::InterstitialPhase }),
        SessionEvent::Runner(GameRunnerEvent::PhaseEntered { phase: GamePhase::TransmissionPhase }),
    ]);
}

/// A match that is taken on by a number of steps is in the phase that so
/// many steps lead to, and has told two events or more for each step. No
/// signal leaves it as it is; one signal more is one step more.
pub proof fn each_signal_is_a_step<C: CombatRule, R: RecombinatorRule>(
    rules: TransmissionRules<C, R>,
    session: MatchSessionView,
    steps: nat,
)
    ensures
        session.advanced(rules, 0) == session,
        session.advanced_events(rules, 0).len() == 0,
        session.advanced(rules, steps + 1) == session.advanced(rules, steps).advance(rules),
        session.advanced_events(rules, steps + 1) == session.advanced_events(rules, steps)
            + session.advanced(rules, steps).advance_events(rules),
        session.advanced(rules, 1) == session.advance(rules),
        session.advanced_events(rules, 1) == session.advance_events(rules),
        session.advanced(rules, steps).runner.game_phase == session.runner.game_phase.after(steps),
        session.advanced(rules, steps).runner.run_game == session.runner.run_game,
        session.advanced_events(rules, steps).len() >= 2 * steps,
    decreases steps,
{
    reveal_with_fuel(MatchSessionView::advanced, 2);
    reveal_with_fuel(MatchSessionView::advanced_events, 2);
    assert(session.advanced_events(rules, 1) =~= session.advance_events(rules));
    if steps > 0 {
        each_signal_is_a_step(rules, session, (steps - 1) as nat);
    }
}

/// Outside the mutation phase a match takes no mutation, whatever it is and
/// whoever asks, and stays as it is.
pub proof fn mutations_wait_for_their_phase(session: MatchSessionView, mutation: Mutation, force: Force)
    requires
        session.runner.game_phase != GamePhase::MutationPhase,
    ensures
        session.apply_mutation_outcome(mutation, force) == Err::<(), PlayerActionError>(
            PlayerActionError::WrongPhase,
        ),
        session.apply_mutation(mutation, force) == session,
{
}

/// A force makes one mutation about a node in a mutation phase: once it has
/// made one, a second about the same node is refused, whatever else the
/// second is about.
pub proof fn one_mutation_about_a_node(
    session: MatchSessionView,
    first: Mutation,
    second: Mutation,
    force: Force,
    node: NodeId,
)
    requires
        session.apply_mutation_outcome(first, force).is_ok(),
        MatchSessionView::aims_at(first, node),
        MatchSessionView::aims_at(second, node),
    ensures
        session.apply_mutation(first, force).apply_mutation_outcome(second, force).is_err(),
{
    let after = session.apply_mutation(first, force);
    let marks = MatchSessionView::marks(first, force);
    let before = session.acted.len() as int;
    assert(after.acted == session.acted + marks);
    if MatchSessionView::targets(first).0 == node {
        assert(after.acted[before] == (force, node));
    } else {
        assert(after.acted[before + 1] == (force, node));
    }
    assert(after.acted.contains((force, node)));
}

} // verus!
