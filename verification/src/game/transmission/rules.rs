//! The rules that the board leaves open.

use vstd::prelude::*;
use crate::game::gamerunner::TransmissionEvents;
use crate::game::transmission::Resolution;
use crate::game::{
    GameState, GameStateView, NodeId, Occupant, PhageType, RecombinatorEffect, RecombinatorTriggers,
};

verus! {

/// How a fight between two phage of opposing forces ends. The board does not
/// know; whoever sets up the match says.
pub trait CombatRule {
    /// Whether `first` beats `second` in a fight for `cell`.
    spec fn first_prevails(&self, cell: NodeId, first: Occupant, second: Occupant) -> bool;

    /// Whether `first` beats `second` in a fight for `cell`.
    fn decide(&self, cell: NodeId, first: Occupant, second: Occupant) -> (first_wins: bool)
        ensures
            first_wins == self.first_prevails(cell, first, second),
    ;
}

/// The rule under which whoever holds or claimed a cell first keeps it.
pub struct FirstComeRule {}

impl CombatRule for FirstComeRule {
    open spec fn first_prevails(&self, cell: NodeId, first: Occupant, second: Occupant) -> bool {
        true
    }

    fn decide(&self, cell: NodeId, first: Occupant, second: Occupant) -> (first_wins: bool) {
        true
    }
}

/// A rule that goes by the kind of phage: each kind has a strength, and the
/// first of two phage prevails where it is at least as strong as the second.
pub struct StrengthRule {
    pub uv: u32,
    pub electro: u32,
    pub sonic: u32,
    pub any: u32,
}

impl StrengthRule {
    /// The strength of a kind of phage under this rule.
    pub open spec fn strength_of(&self, phage: PhageType) -> u32 {
        match phage {
            PhageType::UV => self.uv,
            PhageType::Electro => self.electro,
            PhageType::Sonic => self.sonic,
            PhageType::Any => self.any,
        }
    }

    /// The strength of a kind of phage under this rule.
    pub fn strength(&self, phage: PhageType) -> (strength: u32)
        ensures
            strength == self.strength_of(phage),
    {
        match phage {
            PhageType::UV => self.uv,
            PhageType::Electro => self.electro,
            PhageType::Sonic => self.sonic,
            PhageType::Any => self.any,
        }
    }
}

impl CombatRule for StrengthRule {
    open spec fn first_prevails(&self, cell: NodeId, first: Occupant, second: Occupant) -> bool {
        self.strength_of(first.1) >= self.strength_of(second.1)
    }

    fn decide(&self, cell: NodeId, first: Occupant, second: Occupant) -> (first_wins: bool) {
        self.strength(first.1) >= self.strength(second.1)
    }
}

/// What the recombinators of a match do. The board does not know; whoever
/// sets up the match says.
pub trait RecombinatorRule {
    /// Whether the trigger of a recombinator on `cell` is met on `board`.
    spec fn trigger_met(&self, board: GameStateView, cell: NodeId, trigger: RecombinatorTriggers) -> bool;

    /// Whether the trigger of a recombinator on `cell` is met on `board`.
    fn check_trigger(&self, board: &GameState, cell: NodeId, trigger: RecombinatorTriggers) -> (met: bool)
        requires
            board.well_formed(),
        ensures
            met == self.trigger_met(board@, cell, trigger),
    ;

    /// The board and the events after the effect of a recombinator on `cell`
    /// took place.
    spec fn effect_of(&self, so_far: Resolution, cell: NodeId, effect: RecombinatorEffect) -> Resolution;

    /// Lets the effect of a recombinator on `cell` take place.
    fn apply_effect(
        &self,
        board: &mut GameState,
        events: &mut Vec<TransmissionEvents>,
        cell: NodeId,
        effect: RecombinatorEffect,
    )
        requires
            old(board).well_formed(),
        ensures
            final(board).well_formed(),
            (Resolution { board: final(board)@, events: final(events)@ }) == self.effect_of(
                Resolution { board: old(board)@, events: old(events)@ },
                cell,
                effect,
            ),
    ;
}

/// The rule under which no trigger is ever met and no effect changes
/// anything: a recombinator fires only when a player triggers it, and then
/// does no more than tell that it fired.
pub struct DormantRecombinators {}

impl RecombinatorRule for DormantRecombinators {
    open spec fn trigger_met(&self, board: GameStateView, cell: NodeId, trigger: RecombinatorTriggers) -> bool {
        false
    }

    fn check_trigger(&self, board: &GameState, cell: NodeId, trigger: RecombinatorTriggers) -> (met: bool) {
        false
    }

    open spec fn effect_of(&self, so_far: Resolution, cell: NodeId, effect: RecombinatorEffect) -> Resolution {
        so_far
    }

    fn apply_effect(
        &self,
        board: &mut GameState,
        events: &mut Vec<TransmissionEvents>,
        cell: NodeId,
        effect: RecombinatorEffect,
    ) {
    }
}

/// The rules that a match is played by.
pub struct TransmissionRules<C, R> {
    pub combat: C,
    pub recombinators: R,
}

} // verus!
