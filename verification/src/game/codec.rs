//! Storing a board as bytes and reading it back.

use vstd::prelude::*;
use vstd::utf8::encode_utf8;
use crate::game::parts::{assembled, assembling_the_parts_restores, entries_below, parts_of};
use crate::game::transmission::{
    resolved, CombatRule, PlacedRecombinator, RecombinatorRule, TransmissionRules,
};
use crate::game::wire::{encode_parts, encoded, parse_parts, parsed, parsing_the_encoding_restores};
use crate::game::{CodecError, GameMove, GameState, GameStateView};

verus! {

/// The bytes of a board.
pub open spec fn stored(board: GameStateView) -> Seq<u8> {
    encoded(parts_of(board))
}

/// The board that the bytes tell of, or what is wrong with them: first what
/// is wrong with the bytes as such, then what is wrong with the board they
/// spell.
pub open spec fn restored(bytes: Seq<u8>) -> Result<GameStateView, CodecError> {
    match parsed(bytes) {
        Ok(parts) => assembled(parts),
        Err(fault) => Err(fault),
    }
}

/// A board has at most as many nodes as it has handed out ids.
proof fn entries_are_few(board: GameStateView, upto: nat)
    ensures
        entries_below(board, upto).len() <= upto,
    decreases upto,
{
    if upto > 0 {
        entries_are_few(board, (upto - 1) as nat);
    }
}

/// A well-formed board that is stored and read back is the board it was:
/// its nodes, its edges in their order, its name and its numbers.
pub proof fn load_of_save_restores(board: GameStateView)
    requires
        board.well_formed(),
        board.vectors.len() <= u64::MAX,
        encode_utf8(board.name).len() <= u64::MAX,
    ensures
        restored(stored(board)) == Ok::<GameStateView, CodecError>(board),
{
    entries_are_few(board, board.next_free_id.0 as nat);
    parsing_the_encoding_restores(parts_of(board));
    assembling_the_parts_restores(board);
}

/// The transmission phase is a function of what it starts from: the same
/// board, the same queue, the same recombinators and the same rules give the
/// same board, the same events in the same order, and the same bytes when
/// the board is stored.
pub proof fn resolution_is_determined<C: CombatRule, R: RecombinatorRule>(
    rules: TransmissionRules<C, R>,
    first: GameStateView,
    first_queue: Seq<GameMove>,
    first_placed: Seq<PlacedRecombinator>,
    second: GameStateView,
    second_queue: Seq<GameMove>,
    second_placed: Seq<PlacedRecombinator>,
)
    requires
        first == second,
        first_queue == second_queue,
        first_placed == second_placed,
    ensures
        resolved(rules, first, first_queue, first_placed).board == resolved(
            rules,
            second,
            second_queue,
            second_placed,
        ).board,
        resolved(rules, first, first_queue, first_placed).events == resolved(
            rules,
            second,
            second_queue,
            second_placed,
        ).events,
        stored(resolved(rules, first, first_queue, first_placed).board) == stored(
            resolved(rules, second, second_queue, second_placed).board,
        ),
{
}

/// The bytes of the board. Read back with `load`, they give the board again.
pub fn save(state: &GameState) -> (bytes: Vec<u8>)
    requires
        state.well_formed(),
    ensures
        bytes@ == stored(state@),
        restored(bytes@) == Ok::<GameStateView, CodecError>(state@),
{
    let parts = state.to_parts();
    let bytes = encode_parts(&parts);
    proof {
        assembling_the_parts_restores(state@);
    }
    bytes
}

/// Reads a board from its bytes, or says what is wrong with them. Faults of
/// the bytes as such come first: `Truncated`, `InvalidName`, `UnknownTenant`,
/// `UnknownOccupancy`, `UnknownPhage`, `TrailingBytes`. Then come the faults
/// of the board that the bytes spell: `NodeIdMismatch`, `NodeIdOutOfRange`,
/// `DuplicateNodeId`, `BadVector`. A board that comes out is well formed.
pub fn load(bytes: &[u8]) -> (outcome: Result<GameState, CodecError>)
    ensures
        match outcome {
            Ok(state) => state.well_formed() && restored(bytes@) == Ok::<GameStateView, CodecError>(state@),
            Err(fault) => restored(bytes@) == Err::<GameStateView, CodecError>(fault),
        },
{
    match parse_parts(bytes) {
        Ok(parts) => GameState::from_parts(parts),
        Err(fault) => Err(fault),
    }
}

} // verus!
