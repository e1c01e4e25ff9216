//! The first step: qubits go from the generators to their owners.

use vstd::prelude::*;
use crate::game::gamerunner::TransmissionEvents;
use crate::game::{GameState, GameStateView, NodeId, NodeTenant};

verus! {

/// The awards of qubits from the generators with an id below `upto`, by
/// ascending id: each generator gives its amount to the force that owns its
/// node.
pub open spec fn qubit_awards(board: GameStateView, upto: nat) -> Seq<TransmissionEvents>
    decreases upto,
{
    if upto == 0 {
        Seq::empty()
    } else {
        let id = NodeId((upto - 1) as u32);
        let before = qubit_awards(board, (upto - 1) as nat);
        if board.node_exists(id) {
            match board.nodes[id].tenant {
                NodeTenant::Generator { generator } => before.push(
                    TransmissionEvents::QubitsDistributed {
                        recipient: board.nodes[id].force,
                        qty: generator.amt,
                        source: id,
                    },
                ),
                _ => before,
            }
        } else {
            before
        }
    }
}

/// Awards the qubits of every generator on the board, by ascending id.
pub fn distribute_qubits(board: &GameState, events: &mut Vec<TransmissionEvents>)
    ensures
        final(events)@ == old(events)@ + qubit_awards(board@, board@.next_free_id.0 as nat),
{
    let limit = board.next_free_id().0;
    let mut n: u32 = 0;
    let ghost start = events@;
    proof {
        assert(start + qubit_awards(board@, 0) =~= start);
    }
    while n < limit
        invariant
            n <= limit,
            limit == board@.next_free_id.0,
            events@ == start + qubit_awards(board@, n as nat),
        decreases limit - n,
    {
        let id = NodeId(n);
        let ghost before = qubit_awards(board@, n as nat);
        match board.node(id) {
            Some(node) => match node.tenant {
                NodeTenant::Generator { generator } => {
                    let award = TransmissionEvents::QubitsDistributed {
                        recipient: node.force,
                        qty: generator.amt,
                        source: id,
                    };
                    events.push(award);
                    proof {
                        assert((start + before).push(award) =~= start + before.push(award));
                    }
                },
                _ => {},
            },
            None => {},
        }
        n += 1;
    }
}

} // verus!
