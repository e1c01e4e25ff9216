//! The phases of a match and the machine that steps through them.

use vstd::prelude::*;
use crate::game::transmission::{CombatRule, RecombinatorRule, TransmissionRules};
use crate::game::{Force, MatchSession, NodeId, PhageType, Recombinator, SessionEvent};

verus! {

/// The steps of the transmission phase, in the order in which they run.
#[derive(Clone, Copy, Debug, PartialEq, Eq, Structural)]
pub enum TransmissionSubPhase {
    /// Qubits go from enriched nodes to the forces that own them.
    DistributeQubits,
    /// Recombinators fire.
    ReCombinate,
    /// Phage move into cells that nobody contests.
    Movement,
    /// Phage of opposing forces that want the same cell fight for it.
    Combat,
}

impl TransmissionSubPhase {
    /// The four steps in their fixed order.
    pub open spec fn order() -> Seq<TransmissionSubPhase> {
        seq![
            TransmissionSubPhase::DistributeQubits,
            TransmissionSubPhase::ReCombinate,
            TransmissionSubPhase::Movement,
            TransmissionSubPhase::Combat,
        ]
    }

    /// The step that follows this one, if one does.
    pub open spec fn spec_following(self) -> Option<TransmissionSubPhase> {
        match self {
            TransmissionSubPhase::DistributeQubits => Some(TransmissionSubPhase::ReCombinate),
            TransmissionSubPhase::ReCombinate => Some(TransmissionSubPhase::Movement),
            TransmissionSubPhase::Movement => Some(TransmissionSubPhase::Combat),
            TransmissionSubPhase::Combat => None,
        }
    }

    /// The step that follows this one, if one does.
    pub fn following(&self) -> (next: Option<TransmissionSubPhase>)
        ensures
            next == self.spec_following(),
    {
        match self {
            TransmissionSubPhase::DistributeQubits => Some(TransmissionSubPhase::ReCombinate),
            TransmissionSubPhase::ReCombinate => Some(TransmissionSubPhase::Movement),
            TransmissionSubPhase::Movement => Some(TransmissionSubPhase::Combat),
            TransmissionSubPhase::Combat => None,
        }
    }
}

/// Each step is followed by the next in the fixed order, and the last by
/// none.
pub proof fn steps_follow_their_order(i: int)
    requires
        0 <= i < 4,
    ensures
        TransmissionSubPhase::order().len() == 4,
        i < 3 ==> TransmissionSubPhase::order()[i].spec_following() == Some(TransmissionSubPhase::order()[i + 1]),
        i == 3 ==> TransmissionSubPhase::order()[i].spec_following() is None,
{
}

/// What happened to the board during a transmission phase, told so that
/// others can show it.
#[derive(Clone, Copy, Debug, PartialEq, Eq)]
pub enum TransmissionEvents {
    /// A phage moved from one cell to another.
    PhageMoved { from: NodeId, to: NodeId },
    /// Two phage fought for a cell.
    CombatOccured { cell: NodeId, victor: (Force, PhageType), lose: (Force, PhageType) },
    /// A recombinator fired.
    RecombinatorTriggered { cell: NodeId, recombinator: Recombinator },
    /// A force received qubits from a node.
    QubitsDistributed { recipient: Force, qty: u32, source: NodeId },
}

/// The signal to go on to the next phase. Who sends it, and when, is the
/// caller's business.
#[derive(Clone, Copy, Debug, PartialEq, Eq)]
pub struct AdvanceGamePhaseEvent {}

/// What the runner tells others about the match as a whole.
#[derive(Clone, Copy, Debug, PartialEq, Eq)]
pub enum GameRunnerEvent {
    GameBegun,
    GameCompleted { victor: Force },
    PhaseEntered { phase: GamePhase },
    PhaseExited { phase: GamePhase },
}

/// The phases of a match. They follow each other in a cycle without end.
#[derive(Clone, Copy, Debug, PartialEq, Eq, Structural)]
pub enum GamePhase {
    /// Players submit mutations.
    MutationPhase,
    /// A pause in which messages catch up.
    InterstitialPhase,
    /// The board updates itself.
    TransmissionPhase,
}

impl GamePhase {
    /// The phase that follows this one.
    pub open spec fn next(self) -> GamePhase {
        match self {
            GamePhase::MutationPhase => GamePhase::InterstitialPhase,
            GamePhase::InterstitialPhase => GamePhase::TransmissionPhase,
            GamePhase::TransmissionPhase => GamePhase::MutationPhase,
        }
    }

    /// The phase that `steps` steps lead to from this one.
    pub open spec fn after(self, steps: nat) -> GamePhase
        decreases steps,
    {
        if steps == 0 {
            self
        } else {
            self.after((steps - 1) as nat).next()
        }
    }

    /// The phase that follows this one.
    pub fn successor(&self) -> (phase: GamePhase)
        ensures
            phase == self.next(),
    {
        match self {
            GamePhase::MutationPhase => GamePhase::InterstitialPhase,
            GamePhase::InterstitialPhase => GamePhase::TransmissionPhase,
            GamePhase::TransmissionPhase => GamePhase::MutationPhase,
        }
    }
}

/// Whether the match runs, and the phase it is in. A match keeps one of
/// these; it is stepped with the match, through `run_game`.
#[derive(Clone, Copy, Debug, PartialEq, Eq)]
pub struct GameRunnerRes {
    pub run_game: bool,
    pub game_phase: GamePhase,
}

impl Default for GameRunnerRes {
    /// A match that does not run yet and will start in the mutation phase.
    fn default() -> (runner: Self)
        ensures
            !runner.run_game,
            runner.game_phase == GamePhase::MutationPhase,
    {
        GameRunnerRes { run_game: false, game_phase: GamePhase::MutationPhase }
    }
}

/// Whether the match is to be ticked.
pub fn should_run_game(runner: &GameRunnerRes) -> (run: bool)
    ensures
        run == runner.run_game,
{
    runner.run_game
}

/// One tick of the runner. The match goes on by one phase for each signal to
/// advance that came in since the last tick, in the order of the signals;
/// leaving the transmission phase, the board resolves what waited for it,
/// each time that phase is left. What happened is returned in the order in
/// which it happened. Where no signal came in, nothing changes and nothing
/// is told. Whether a match is to be ticked at all is asked of
/// `should_run_game` by whoever ticks it; the tick itself does not look at
/// that.
pub fn run_game<C: CombatRule, R: RecombinatorRule>(
    advance_signals: usize,
    session: &mut MatchSession,
    rules: &TransmissionRules<C, R>,
) -> (events: Vec<SessionEvent>)
    requires
        old(session).well_formed(),
    ensures
        final(session).well_formed(),
        final(session)@ == old(session)@.advanced(*rules, advance_signals as nat),
        events@ == old(session)@.advanced_events(*rules, advance_signals as nat),
{
    let mut events: Vec<SessionEvent> = Vec::new();
    let mut taken: usize = 0;
    while taken < advance_signals
        invariant
            taken <= advance_signals,
            session.well_formed(),
            session@ == old(session)@.advanced(*rules, taken as nat),
            events@ == old(session)@.advanced_events(*rules, taken as nat),
        decreases advance_signals - taken,
    {
        let mut step = session.advance(rules);
        events.append(&mut step);
        taken += 1;
    }
    events
}

/// Every step leads to the next phase, so three steps more lead to the same
/// phase as none, and two signals lead from the mutation phase to the
/// transmission phase.
pub proof fn steps_go_round(phase: GamePhase, steps: nat)
    ensures
        phase.after(0) == phase,
        phase.after(steps + 1) == phase.after(steps).next(),
        phase.after(steps + 3) == phase.after(steps),
        GamePhase::MutationPhase.after(1) == GamePhase::InterstitialPhase,
        GamePhase::MutationPhase.after(2) == GamePhase::TransmissionPhase,
        GamePhase::MutationPhase.after(3) == GamePhase::MutationPhase,
{
    reveal_with_fuel(GamePhase::after, 4);
}

/// Three steps lead from any phase back to it; from the mutation phase they
/// pass through the interstitial phase and then the transmission phase.
pub proof fn phases_cycle(phase: GamePhase)
    ensures
        phase.next().next().next() == phase,
        phase.next() != phase,
        GamePhase::MutationPhase.next() == GamePhase::InterstitialPhase,
        GamePhase::MutationPhase.next().next() == GamePhase::TransmissionPhase,
        GamePhase::MutationPhase.next().next().next() == GamePhase::MutationPhase,
{
}

} // verus!
