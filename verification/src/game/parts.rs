//! A board taken apart into plain values, and put together again.

use vstd::prelude::*;
use crate::game::{CodecError, GameState, GameStateView, Node, NodeId, Vector};

verus! {

/// What a stored board holds, before anything is known of it: the nodes each
/// with the id it is stored under, in any order, and the edges in their
/// order.
pub struct MapParts {
    pub name: String,
    pub num_players: u32,
    pub next_free_id: NodeId,
    pub nodes: Vec<(NodeId, Node)>,
    pub vectors: Vec<Vector>,
}

/// The parts of a board as a mathematical value.
pub struct MapPartsView {
    pub name: Seq<char>,
    pub num_players: u32,
    pub next_free_id: NodeId,
    pub nodes: Seq<(NodeId, Node)>,
    pub vectors: Seq<Vector>,
}

impl View for MapParts {
    type V = MapPartsView;

    open spec fn view(&self) -> MapPartsView {
        MapPartsView {
            name: self.name@,
            num_players: self.num_players,
            next_free_id: self.next_free_id,
            nodes: self.nodes@,
            vectors: self.vectors@,
        }
    }
}

/// The nodes of the board with an id below `upto`, each with its id, by
/// ascending id.
pub open spec fn entries_below(board: GameStateView, upto: nat) -> Seq<(NodeId, Node)>
    decreases upto,
{
    if upto == 0 {
        Seq::empty()
    } else {
        let id = NodeId((upto - 1) as u32);
        let before = entries_below(board, (upto - 1) as nat);
        if board.node_exists(id) {
            before.push((id, board.nodes[id]))
        } else {
            before
        }
    }
}

/// The board taken apart: its nodes by ascending id, its edges in their
/// order.
pub open spec fn parts_of(board: GameStateView) -> MapPartsView {
    MapPartsView {
        name: board.name,
        num_players: board.num_players,
        next_free_id: board.next_free_id,
        nodes: entries_below(board, board.next_free_id.0 as nat),
        vectors: board.vectors,
    }
}

/// The board with one more node on it. The node must be stored under its
/// own id, the board must have handed that id out, and no node may have it
/// yet.
pub open spec fn seat(board: GameStateView, entry: (NodeId, Node)) -> Result<GameStateView, CodecError> {
    if entry.1.id != entry.0 {
        Err(CodecError::NodeIdMismatch(entry.0))
    } else if entry.0.0 >= board.next_free_id.0 {
        Err(CodecError::NodeIdOutOfRange(entry.0))
    } else if board.node_exists(entry.0) {
        Err(CodecError::DuplicateNodeId(entry.0))
    } else {
        Ok(GameStateView { nodes: board.nodes.insert(entry.0, entry.1), ..board })
    }
}

/// The board with the first `upto` of `entries` on it, or the fault of the
/// first entry that has one.
pub open spec fn seated(board: GameStateView, entries: Seq<(NodeId, Node)>, upto: nat) -> Result<
    GameStateView,
    CodecError,
>
    decreases upto,
{
    if upto == 0 {
        Ok(board)
    } else {
        match seated(board, entries, (upto - 1) as nat) {
            Ok(so_far) => seat(so_far, entries[upto - 1]),
            Err(fault) => Err(fault),
        }
    }
}

/// The board with one more edge, added as a player would add it.
pub open spec fn connect(board: GameStateView, vector: Vector) -> Result<GameStateView, CodecError> {
    match board.add_vector_outcome(vector) {
        Ok(()) => Ok(board.add_vector(vector)),
        Err(reason) => Err(CodecError::BadVector { vector, reason }),
    }
}

/// The board with the first `upto` of `vectors` added, or the fault of the
/// first edge that has one.
pub open spec fn connected(board: GameStateView, vectors: Seq<Vector>, upto: nat) -> Result<
    GameStateView,
    CodecError,
>
    decreases upto,
{
    if upto == 0 {
        Ok(board)
    } else {
        match connected(board, vectors, (upto - 1) as nat) {
            Ok(so_far) => connect(so_far, vectors[upto - 1]),
            Err(fault) => Err(fault),
        }
    }
}

/// The board put together from its parts: first the nodes, then the edges.
/// The first fault found is the answer.
pub open spec fn assembled(parts: MapPartsView) -> Result<GameStateView, CodecError> {
    let bare = GameStateView {
        next_free_id: parts.next_free_id,
        ..GameStateView::empty(parts.name, parts.num_players)
    };
    match seated(bare, parts.nodes, parts.nodes.len()) {
        Ok(with_nodes) => connected(with_nodes, parts.vectors, parts.vectors.len()),
        Err(fault) => Err(fault),
    }
}

/// A fault found among the nodes is the answer, however many follow.
proof fn fault_among_nodes_stays(board: GameStateView, entries: Seq<(NodeId, Node)>, at: nat, upto: nat)
    requires
        at <= upto,
        seated(board, entries, at) is Err,
    ensures
        seated(board, entries, upto) == seated(board, entries, at),
    decreases upto,
{
    if at < upto {
        fault_among_nodes_stays(board, entries, at, (upto - 1) as nat);
    }
}

/// A fault found among the edges is the answer, however many follow.
proof fn fault_among_edges_stays(board: GameStateView, vectors: Seq<Vector>, at: nat, upto: nat)
    requires
        at <= upto,
        connected(board, vectors, at) is Err,
    ensures
        connected(board, vectors, upto) == connected(board, vectors, at),
    decreases upto,
{
    if at < upto {
        fault_among_edges_stays(board, vectors, at, (upto - 1) as nat);
    }
}

impl GameState {
    /// Takes the board apart.
    pub fn to_parts(&self) -> (parts: MapParts)
        ensures
            parts@ == parts_of(self@),
    {
        let limit = self.next_free_id().0;
        let mut nodes: Vec<(NodeId, Node)> = Vec::new();
        let mut n: u32 = 0;
        while n < limit
            invariant
                n <= limit,
                limit == self@.next_free_id.0,
                nodes@ == entries_below(self@, n as nat),
            decreases limit - n,
        {
            let id = NodeId(n);
            match self.node(id) {
                Some(node) => {
                    nodes.push((id, node));
                },
                None => {},
            }
            n += 1;
        }
        let edges = self.vectors();
        let mut vectors: Vec<Vector> = Vec::new();
        let mut i: usize = 0;
        while i < edges.len()
            invariant
                i <= edges.len(),
                vectors@ == edges@.take(i as int),
            decreases edges.len() - i,
        {
            vectors.push(edges[i]);
            proof {
                assert(edges@.take(i + 1) =~= edges@.take(i as int).push(edges@[i as int]));
            }
            i += 1;
        }
        proof {
            assert(edges@.take(i as int) == edges@);
        }
        MapParts {
            name: self.name().clone(),
            num_players: self.num_players(),
            next_free_id: self.next_free_id(),
            nodes,
            vectors,
        }
    }

    /// Puts a board together from its parts, or says what is wrong with them:
    /// a node stored under another id than its own, an id that the board has
    /// not handed out, an id that two nodes share, or an edge that the board
    /// would not have taken. The first fault found is the answer, the nodes
    /// looked at before the edges. A board that comes out is well formed.
    pub fn from_parts(parts: MapParts) -> (outcome: Result<GameState, CodecError>)
        ensures
            match outcome {
                Ok(state) => state.well_formed() && assembled(parts@) == Ok::<GameStateView, CodecError>(state@),
                Err(fault) => assembled(parts@) == Err::<GameStateView, CodecError>(fault),
            },
    {
        let ghost whole = parts@;
        let MapParts { name, num_players, next_free_id, nodes, vectors } = parts;
        let mut state = GameState::starting_at(name, num_players, next_free_id);
        let ghost bare = state@;
        let mut i: usize = 0;
        while i < nodes.len()
            invariant
                i <= nodes.len(),
                whole == parts@,
                nodes@ == whole.nodes,
                vectors@ == whole.vectors,
                bare == (GameStateView {
                    next_free_id: whole.next_free_id,
                    ..GameStateView::empty(whole.name, whole.num_players)
                }),
                next_free_id == whole.next_free_id,
                state.well_formed(),
                state@.vectors.len() == 0,
                state@.next_free_id == next_free_id,
                seated(bare, nodes@, i as nat) == Ok::<GameStateView, CodecError>(state@),
            decreases nodes.len() - i,
        {
            let (key, node) = nodes[i];
            proof {
                assert(seated(bare, nodes@, (i + 1) as nat) == seat(state@, nodes@[i as int]));
                if seat(state@, nodes@[i as int]) is Err {
                    fault_among_nodes_stays(bare, nodes@, (i + 1) as nat, nodes@.len());
                }
            }
            if node.id != key {
                return Err(CodecError::NodeIdMismatch(key));
            }
            if key.0 >= next_free_id.0 {
                return Err(CodecError::NodeIdOutOfRange(key));
            }
            if state.node_exists(key) {
                return Err(CodecError::DuplicateNodeId(key));
            }
            state.seat(node);
            i += 1;
        }
        let ghost with_nodes = state@;
        let mut j: usize = 0;
        while j < vectors.len()
            invariant
                j <= vectors.len(),
                whole == parts@,
                vectors@ == whole.vectors,
                assembled(whole) == connected(with_nodes, vectors@, vectors@.len()),
                state.well_formed(),
                connected(with_nodes, vectors@, j as nat) == Ok::<GameStateView, CodecError>(state@),
            decreases vectors.len() - j,
        {
            let vector = vectors[j];
            proof {
                assert(connected(with_nodes, vectors@, (j + 1) as nat) == connect(state@, vectors@[j as int]));
                if connect(state@, vectors@[j as int]) is Err {
                    fault_among_edges_stays(with_nodes, vectors@, (j + 1) as nat, vectors@.len());
                }
            }
            match state.add_vector(vector) {
                Ok(()) => {},
                Err(reason) => {
                    return Err(CodecError::BadVector { vector, reason });
                },
            }
            j += 1;
        }
        Ok(state)
    }
}

/// The board with only its nodes of an id below `upto`, and without edges.
spec fn nodes_below(board: GameStateView, upto: nat) -> GameStateView {
    GameStateView {
        nodes: Map::new(|id: NodeId| board.nodes.dom().contains(id) && id.0 < upto, |id: NodeId| board.nodes[id]),
        vectors: Seq::empty(),
        ..board
    }
}

/// Seating the first entries of a list does not look at the later ones.
proof fn seating_reads_a_prefix(
    board: GameStateView,
    entries: Seq<(NodeId, Node)>,
    longer: Seq<(NodeId, Node)>,
    upto: nat,
)
    requires
        upto <= entries.len(),
        upto <= longer.len(),
        forall|i: int| 0 <= i < upto ==> entries[i] == longer[i],
    ensures
        seated(board, entries, upto) == seated(board, longer, upto),
    decreases upto,
{
    if upto > 0 {
        seating_reads_a_prefix(board, entries, longer, (upto - 1) as nat);
    }
}

/// The nodes of a board, seated one after the other by ascending id, give
/// the board's nodes back.
proof fn seating_restores_nodes(board: GameStateView, upto: nat)
    requires
        board.well_formed(),
        upto <= board.next_free_id.0,
    ensures
        seated(
            nodes_below(board, 0),
            entries_below(board, upto),
            entries_below(board, upto).len(),
        ) == Ok::<GameStateView, CodecError>(nodes_below(board, upto)),
    decreases upto,
{
    if upto > 0 {
        let fewer = (upto - 1) as nat;
        let id = NodeId(fewer as u32);
        let before = entries_below(board, fewer);
        seating_restores_nodes(board, fewer);
        if board.node_exists(id) {
            let now = entries_below(board, upto);
            assert(now == before.push((id, board.nodes[id])));
            seating_reads_a_prefix(nodes_below(board, 0), before, now, before.len());
            let so_far = nodes_below(board, fewer);
            assert(board.nodes[id].id == id);
            assert(!so_far.node_exists(id));
            assert(so_far.nodes.insert(id, board.nodes[id]) =~= nodes_below(board, upto).nodes);
        } else {
            assert(nodes_below(board, fewer).nodes =~= nodes_below(board, upto).nodes);
        }
    }
}

/// The board with all its nodes and the first `upto` of its edges.
spec fn edges_upto(board: GameStateView, upto: nat) -> GameStateView {
    GameStateView { vectors: board.vectors.take(upto as int), ..board }
}

/// The edges of a board, added one after the other in their order, give the
/// board's edges back.
proof fn connecting_restores_edges(board: GameStateView, upto: nat)
    requires
        board.well_formed(),
        upto <= board.vectors.len(),
    ensures
        connected(edges_upto(board, 0), board.vectors, upto) == Ok::<GameStateView, CodecError>(
            edges_upto(board, upto),
        ),
    decreases upto,
{
    if upto > 0 {
        let fewer = (upto - 1) as nat;
        connecting_restores_edges(board, fewer);
        let so_far = edges_upto(board, fewer);
        let edge = board.vectors[fewer as int];
        assert(edge.canonical() == edge);
        assert(board.nodes.dom().contains(edge.0));
        assert(board.nodes.dom().contains(edge.1));
        if so_far.vectors.contains(edge) {
            let i = so_far.vectors.index_of(edge);
            assert(board.vectors[i] == edge);
        }
        assert(so_far.vectors.push(edge) =~= board.vectors.take(upto as int));
    }
}

/// A well-formed board that is taken apart and put together again is the
/// board it was.
pub proof fn assembling_the_parts_restores(board: GameStateView)
    requires
        board.well_formed(),
    ensures
        assembled(parts_of(board)) == Ok::<GameStateView, CodecError>(board),
{
    let parts = parts_of(board);
    let limit = board.next_free_id.0 as nat;
    seating_restores_nodes(board, limit);
    connecting_restores_edges(board, board.vectors.len());
    let bare = GameStateView {
        next_free_id: parts.next_free_id,
        ..GameStateView::empty(parts.name, parts.num_players)
    };
    assert(nodes_below(board, 0).nodes =~= bare.nodes);
    assert(nodes_below(board, 0) == bare);
    assert(nodes_below(board, limit).nodes =~= board.nodes);
    assert(board.vectors.take(0) =~= Seq::<Vector>::empty());
    assert(nodes_below(board, limit) == edges_upto(board, 0));
    assert(board.vectors.take(board.vectors.len() as int) =~= board.vectors);
    assert(edges_upto(board, board.vectors.len()) == board);
}

} // verus!
