//! The board: nodes, the edges between them, and the operations on both.

use vstd::prelude::*;
use crate::game::nodes::{table_nodes, NodeTable};
use crate::game::{Cell, Force, Node, NodeId, NodeTenant, PlayerActionError, Position, Vector};

verus! {

/// The board as a mathematical value.
pub struct GameStateView {
    pub nodes: Map<NodeId, Node>,
    pub vectors: Seq<Vector>,
    pub num_players: u32,
    pub name: Seq<char>,
    pub next_free_id: NodeId,
}

/// The nodes that the edges in `vectors` connect to `id`, in the order of the
/// edges. An edge from a node to itself names that node twice.
pub open spec fn neighbors_along(vectors: Seq<Vector>, id: NodeId) -> Seq<NodeId>
    decreases vectors.len(),
{
    if vectors.len() == 0 {
        Seq::empty()
    } else {
        let v = vectors.last();
        let before = neighbors_along(vectors.drop_last(), id);
        let first = if v.0 == id {
            before.push(v.1)
        } else {
            before
        };
        if v.1 == id {
            first.push(v.0)
        } else {
            first
        }
    }
}

impl GameStateView {
    /// A board with the given name and number of players, and nothing on it.
    pub open spec fn empty(name: Seq<char>, num_players: u32) -> GameStateView {
        GameStateView {
            nodes: Map::empty(),
            vectors: Seq::empty(),
            num_players,
            name,
            next_free_id: NodeId(0),
        }
    }

    /// What holds of every board that the operations produce: a node is
    /// stored under its own id, every id in use is below the next free one,
    /// every edge has its smaller id first and connects two nodes of the
    /// board, and no edge occurs twice.
    pub open spec fn well_formed(self) -> bool {
        &&& forall|id: NodeId| #[trigger]
            self.nodes.dom().contains(id) ==> id.0 < self.next_free_id.0 && self.nodes[id].id == id
        &&& forall|i: int|
            0 <= i < self.vectors.len() ==> {
                let v = #[trigger] self.vectors[i];
                &&& v.0.0 <= v.1.0
                &&& self.nodes.dom().contains(v.0)
                &&& self.nodes.dom().contains(v.1)
            }
        &&& forall|i: int, j: int|
            0 <= i < j < self.vectors.len() ==> self.vectors[i] != self.vectors[j]
    }

    /// Whether `id` names a node of the board.
    pub open spec fn node_exists(self, id: NodeId) -> bool {
        self.nodes.dom().contains(id)
    }

    /// Whether the edge is on the board, whichever way round it is given.
    pub open spec fn vector_exists(self, vector: Vector) -> bool {
        self.vectors.contains(vector.canonical())
    }

    /// The board after a node was created for `force` at `position`.
    pub open spec fn create_node(self, force: Force, position: Position) -> GameStateView {
        let id = self.next_free_id;
        let node = Node { id, position, force, tenant: NodeTenant::Cell { cell: Cell { occupant: None } } };
        GameStateView {
            nodes: self.nodes.insert(id, node),
            next_free_id: NodeId((id.0 + 1) as u32),
            ..self
        }
    }

    /// What adding `vector` answers: the edge must be new, and both its
    /// endpoints must be nodes of the board. The first endpoint is looked at
    /// first.
    pub open spec fn add_vector_outcome(self, vector: Vector) -> Result<(), PlayerActionError> {
        if self.vector_exists(vector) {
            Err(PlayerActionError::VectorExists)
        } else if !self.node_exists(vector.0) {
            Err(PlayerActionError::NodeIdDoesNotExist(vector.0))
        } else if !self.node_exists(vector.1) {
            Err(PlayerActionError::NodeIdDoesNotExist(vector.1))
        } else {
            Ok(())
        }
    }

    /// The board after adding `vector`: with the edge as its last one where
    /// the answer is `Ok`, unchanged where it is not.
    pub open spec fn add_vector(self, vector: Vector) -> GameStateView {
        if self.add_vector_outcome(vector).is_ok() {
            GameStateView { vectors: self.vectors.push(vector.canonical()), ..self }
        } else {
            self
        }
    }

    /// What removing `vector` answers: the edge must be on the board.
    pub open spec fn remove_vector_outcome(self, vector: Vector) -> Result<(), PlayerActionError> {
        if self.vector_exists(vector) {
            Ok(())
        } else {
            Err(PlayerActionError::VectorDoesNotExist { vector })
        }
    }

    /// The board after removing `vector`: without the edge where it was
    /// there, the other edges in their order, and unchanged where it was not.
    pub open spec fn remove_vector(self, vector: Vector) -> GameStateView {
        if self.vector_exists(vector) {
            let at = self.vectors.index_of(vector.canonical());
            GameStateView { vectors: self.vectors.remove(at), ..self }
        } else {
            self
        }
    }

    /// The nodes connected to `id`, in the order in which their edges were
    /// added.
    pub open spec fn neighbors(self, id: NodeId) -> Seq<NodeId> {
        neighbors_along(self.vectors, id)
    }

    /// The board with `tenant` on the node `id`, where that node exists.
    pub open spec fn set_tenant(self, id: NodeId, tenant: NodeTenant) -> GameStateView {
        if self.node_exists(id) {
            GameStateView { nodes: self.nodes.insert(id, Node { tenant, ..self.nodes[id] }), ..self }
        } else {
            self
        }
    }
}

/// A well-formed board stays well formed when a node is put on it under its
/// own id, an id below the next free one, and the next free id does not go
/// down.
pub proof fn form_kept_with_node(before: GameStateView, after: GameStateView, node: Node)
    requires
        before.well_formed(),
        after.nodes == before.nodes.insert(node.id, node),
        after.vectors == before.vectors,
        before.next_free_id.0 <= after.next_free_id.0,
        node.id.0 < after.next_free_id.0,
    ensures
        after.well_formed(),
{
    assert forall|other: NodeId| #[trigger] after.nodes.dom().contains(other) implies other.0
        < after.next_free_id.0 && after.nodes[other].id == other by {
        if other != node.id {
            assert(before.nodes.dom().contains(other));
        }
    }
    assert forall|i: int| 0 <= i < after.vectors.len() implies {
        let v = #[trigger] after.vectors[i];
        &&& v.0.0 <= v.1.0
        &&& after.nodes.dom().contains(v.0)
        &&& after.nodes.dom().contains(v.1)
    } by {
        let v = before.vectors[i];
        assert(before.nodes.dom().contains(v.0));
        assert(before.nodes.dom().contains(v.1));
    }
}

/// The board. It owns its nodes and edges; they change only through the
/// operations below.
pub struct GameState {
    nodes: NodeTable,
    vectors: Vec<Vector>,
    num_players: u32,
    name: String,
    next_free_id: NodeId,
}

impl View for GameState {
    type V = GameStateView;

    closed spec fn view(&self) -> GameStateView {
        GameStateView {
            nodes: table_nodes(self.nodes),
            vectors: self.vectors@,
            num_players: self.num_players,
            name: self.name@,
            next_free_id: self.next_free_id,
        }
    }
}

impl GameState {
    /// Whether the board is one that the operations produce.
    pub open spec fn well_formed(&self) -> bool {
        self@.well_formed()
    }

    /// A board with nothing on it.
    pub fn new(name: String, num_players: u32) -> (state: GameState)
        ensures
            state.well_formed(),
            state@ == GameStateView::empty(name@, num_players),
    {
        GameState {
            nodes: NodeTable::new(),
            vectors: Vec::new(),
            num_players,
            name,
            next_free_id: NodeId(0),
        }
    }

    /// A board with nothing on it that hands out its ids from
    /// `next_free_id` on.
    pub(crate) fn starting_at(name: String, num_players: u32, next_free_id: NodeId) -> (state: GameState)
        ensures
            state.well_formed(),
            state@ == (GameStateView { next_free_id, ..GameStateView::empty(name@, num_players) }),
    {
        GameState { nodes: NodeTable::new(), vectors: Vec::new(), num_players, name, next_free_id }
    }

    /// Puts `node` on a board without edges, under an id that the board has
    /// handed out and that no node has yet.
    pub(crate) fn seat(&mut self, node: Node)
        requires
            old(self).well_formed(),
            old(self)@.vectors.len() == 0,
            node.id.0 < old(self)@.next_free_id.0,
            !old(self)@.node_exists(node.id),
        ensures
            final(self).well_formed(),
            final(self)@ == (GameStateView { nodes: old(self)@.nodes.insert(node.id, node), ..old(self)@ }),
    {
        self.nodes.insert(node.id, node);
        proof {
            form_kept_with_node(old(self)@, self@, node);
        }
    }

    /// The board's name.
    pub fn name(&self) -> (name: &String)
        ensures
            name@ == self@.name,
    {
        &self.name
    }

    /// For how many players the board is laid out.
    pub fn num_players(&self) -> (n: u32)
        ensures
            n == self@.num_players,
    {
        self.num_players
    }

    /// The id that the next node will get.
    pub fn next_free_id(&self) -> (id: NodeId)
        ensures
            id == self@.next_free_id,
    {
        self.next_free_id
    }

    /// The edges, in the order in which they were added.
    pub fn vectors(&self) -> (vectors: &Vec<Vector>)
        ensures
            vectors@ == self@.vectors,
    {
        &self.vectors
    }

    /// The node that `id` names, if it names one.
    pub fn node(&self, id: NodeId) -> (node: Option<Node>)
        ensures
            node == if self@.node_exists(id) {
                Some(self@.nodes[id])
            } else {
                None
            },
    {
        match self.nodes.get(id) {
            Some(node) => Some(*node),
            None => None,
        }
    }

    /// Whether `id` names a node of the board.
    pub fn node_exists(&self, id: NodeId) -> (found: bool)
        ensures
            found == self@.node_exists(id),
    {
        self.nodes.contains_key(id)
    }

    /// Puts a new node on the board, owned by `force`, with an empty cell on
    /// it, and returns its id: the next free one, which no node had before.
    pub fn create_node(&mut self, force: Force, position: Position) -> (id: NodeId)
        requires
            old(self).well_formed(),
            old(self)@.next_free_id.0 < u32::MAX,
        ensures
            final(self).well_formed(),
            id == old(self)@.next_free_id,
            !old(self)@.node_exists(id),
            final(self)@.next_free_id.0 == id.0 + 1,
            final(self)@ == old(self)@.create_node(force, position),
    {
        let id = self.next_free_id;
        let node = Node { id, position, force, tenant: NodeTenant::Cell { cell: Cell { occupant: None } } };
        self.nodes.insert(id, node);
        self.next_free_id = NodeId(id.0 + 1);
        proof {
            form_kept_with_node(old(self)@, self@, node);
        }
        id
    }

    /// Puts `tenant` on the node `id` and says whether that node exists.
    pub fn set_tenant(&mut self, id: NodeId, tenant: NodeTenant) -> (done: bool)
        requires
            old(self).well_formed(),
        ensures
            final(self).well_formed(),
            done == old(self)@.node_exists(id),
            final(self)@ == old(self)@.set_tenant(id, tenant),
    {
        match self.node(id) {
            Some(node) => {
                self.nodes.insert(id, Node { tenant, ..node });
                proof {
                    form_kept_with_node(old(self)@, self@, Node { tenant, ..node });
                }
                true
            },
            None => false,
        }
    }

    /// Where the edge `wanted` stands among the edges, if it does.
    fn find_vector(&self, wanted: Vector) -> (at: Option<usize>)
        ensures
            match at {
                Some(i) => i < self@.vectors.len() && self@.vectors[i as int] == wanted,
                None => !self@.vectors.contains(wanted),
            },
    {
        let mut i: usize = 0;
        while i < self.vectors.len()
            invariant
                i <= self.vectors.len(),
                forall|j: int| 0 <= j < i ==> self.vectors@[j] != wanted,
            decreases self.vectors.len() - i,
        {
            if self.vectors[i] == wanted {
                return Some(i);
            }
            i += 1;
        }
        None
    }

    /// Whether the edge is on the board, whichever way round it is given.
    pub fn vector_exists(&self, vector: Vector) -> (found: bool)
        ensures
            found == self@.vector_exists(vector),
    {
        self.find_vector(vector.to_canonical()).is_some()
    }

    /// Adds an edge. It is refused with `VectorExists` where the board has
    /// it already, and with `NodeIdDoesNotExist` where an endpoint names no
    /// node, the first such endpoint being reported. Otherwise it becomes the
    /// last edge of the board, stored with its smaller id first.
    pub fn add_vector(&mut self, vector: Vector) -> (outcome: Result<(), PlayerActionError>)
        requires
            old(self).well_formed(),
        ensures
            final(self).well_formed(),
            outcome == old(self)@.add_vector_outcome(vector),
            final(self)@ == old(self)@.add_vector(vector),
    {
        if self.vector_exists(vector) {
            return Err(PlayerActionError::VectorExists);
        }
        if !self.nodes.contains_key(vector.0) {
            return Err(PlayerActionError::NodeIdDoesNotExist(vector.0));
        }
        if !self.nodes.contains_key(vector.1) {
            return Err(PlayerActionError::NodeIdDoesNotExist(vector.1));
        }
        self.vectors.push(vector.to_canonical());
        Ok(())
    }

    /// Removes an edge, whichever way round it is given. It is refused with
    /// `VectorDoesNotExist` where the board does not have it. The other edges
    /// keep their order.
    pub fn remove_vector(&mut self, to_remove: Vector) -> (outcome: Result<(), PlayerActionError>)
        requires
            old(self).well_formed(),
        ensures
            final(self).well_formed(),
            outcome == old(self)@.remove_vector_outcome(to_remove),
            final(self)@ == old(self)@.remove_vector(to_remove),
    {
        match self.find_vector(to_remove.to_canonical()) {
            Some(index) => {
                self.vectors.remove(index);
                Ok(())
            },
            None => Err(PlayerActionError::VectorDoesNotExist { vector: to_remove }),
        }
    }

    /// The nodes connected to `id`, in the order in which their edges were
    /// added.
    pub fn get_all_neighbors(&self, id: NodeId) -> (neighbors: Vec<NodeId>)
        ensures
            neighbors@ == self@.neighbors(id),
    {
        let mut to_return: Vec<NodeId> = Vec::new();
        let mut i: usize = 0;
        while i < self.vectors.len()
            invariant
                i <= self.vectors.len(),
                to_return@ == neighbors_along(self.vectors@.take(i as int), id),
            decreases self.vectors.len() - i,
        {
            let vector = self.vectors[i];
            proof {
                let upto = self.vectors@.take(i + 1);
                assert(upto.drop_last() == self.vectors@.take(i as int));
                assert(upto.last() == vector);
            }
            if vector.0 == id {
                to_return.push(vector.1);
            }
            if vector.1 == id {
                to_return.push(vector.0);
            }
            i += 1;
        }
        proof {
            assert(self.vectors@.take(i as int) == self.vectors@);
        }
        to_return
    }
}

/// An edge is on the board whichever way round it is asked for.
pub proof fn vector_exists_is_symmetric(board: GameStateView, a: NodeId, b: NodeId)
    ensures
        board.vector_exists(Vector(a, b)) == board.vector_exists(Vector(b, a)),
{
    if a.0 == b.0 {
        assert(a == b);
    }
    assert(Vector(a, b).canonical() == Vector(b, a).canonical());
}

/// Adding an edge that the board takes and then removing it leaves the board
/// as it was.
pub proof fn add_then_remove_restores(board: GameStateView, vector: Vector)
    requires
        board.well_formed(),
        board.add_vector_outcome(vector).is_ok(),
    ensures
        board.add_vector(vector).remove_vector_outcome(vector).is_ok(),
        board.add_vector(vector).remove_vector(vector) == board,
{
    let edge = vector.canonical();
    let added = board.add_vector(vector);
    let last = board.vectors.len() as int;
    assert(added.vectors[last] == edge);
    assert(added.vectors.contains(edge));
    let at = added.vectors.index_of(edge);
    assert(0 <= at < added.vectors.len() && added.vectors[at] == edge);
    if at != last {
        assert(board.vectors[at] == edge);
        assert(board.vectors.contains(edge));
    }
    assert(added.vectors.remove(at) =~= board.vectors);
}

/// The board takes an edge once: adding it a second time is refused with
/// `VectorExists` and changes nothing.
pub proof fn add_twice_is_refused(board: GameStateView, vector: Vector)
    requires
        board.add_vector_outcome(vector).is_ok(),
    ensures
        board.add_vector(vector).add_vector_outcome(vector) == Err::<(), PlayerActionError>(
            PlayerActionError::VectorExists,
        ),
        board.add_vector(vector).add_vector(vector) == board.add_vector(vector),
{
    let added = board.add_vector(vector);
    assert(added.vectors[board.vectors.len() as int] == vector.canonical());
    assert(added.vectors.contains(vector.canonical()));
}

/// An edge from a node of the board to an id that names no node is refused
/// with `NodeIdDoesNotExist` of that id, and the board stays as it was.
pub proof fn add_to_missing_node_is_refused(board: GameStateView, existing: NodeId, missing: NodeId)
    requires
        board.well_formed(),
        board.node_exists(existing),
        !board.node_exists(missing),
    ensures
        board.add_vector_outcome(Vector(existing, missing)) == Err::<(), PlayerActionError>(
            PlayerActionError::NodeIdDoesNotExist(missing),
        ),
        board.add_vector(Vector(existing, missing)) == board,
{
    let edge = Vector(existing, missing).canonical();
    if board.vectors.contains(edge) {
        let i = board.vectors.index_of(edge);
        assert(board.nodes.dom().contains(board.vectors[i].0));
        assert(board.nodes.dom().contains(board.vectors[i].1));
    }
}

/// Ids go up by one with every node created, and the id that a new node gets
/// names no node before: of two nodes created one after the other on a
/// well-formed board, the second has the greater id, and both are new.
pub proof fn created_ids_increase(
    board: GameStateView,
    first_force: Force,
    first_position: Position,
    second_force: Force,
    second_position: Position,
)
    requires
        board.well_formed(),
        board.next_free_id.0 + 1 < u32::MAX,
    ensures
        GameStateView::empty(board.name, board.num_players).next_free_id == NodeId(0),
        !board.node_exists(board.next_free_id),
        board.create_node(first_force, first_position).well_formed(),
        board.create_node(first_force, first_position).next_free_id.0 == board.next_free_id.0 + 1,
        !board.create_node(first_force, first_position).node_exists(
            board.create_node(first_force, first_position).next_free_id,
        ),
        board.create_node(first_force, first_position).create_node(
            second_force,
            second_position,
        ).next_free_id.0 == board.next_free_id.0 + 2,
{
    let once = board.create_node(first_force, first_position);
    form_kept_with_node(board, once, once.nodes[board.next_free_id]);
}

/// Changing edges or tenants never moves the next free id, so an id once
/// handed out is never handed out again.
pub proof fn only_create_node_moves_next_free_id(board: GameStateView, vector: Vector, id: NodeId, tenant: NodeTenant)
    ensures
        board.add_vector(vector).next_free_id == board.next_free_id,
        board.remove_vector(vector).next_free_id == board.next_free_id,
        board.set_tenant(id, tenant).next_free_id == board.next_free_id,
{
}

/// A node is among the neighbours of `id` exactly when an edge of the board
/// connects the two.
pub proof fn neighbors_are_the_connected_nodes(board: GameStateView, id: NodeId, other: NodeId)
    requires
        board.well_formed(),
    ensures
        board.neighbors(id).contains(other) <==> board.vector_exists(Vector(id, other)),
{
    neighbors_along_contains(board.vectors, id, other);
    let edge = Vector(id, other).canonical();
    if board.vectors.contains(edge) {
        let i = board.vectors.index_of(edge);
        assert(board.vectors[i] == edge);
    }
    if exists|i: int| 0 <= i < board.vectors.len() && connects(#[trigger] board.vectors[i], id, other) {
        let i = choose|i: int| 0 <= i < board.vectors.len() && connects(#[trigger] board.vectors[i], id, other);
        let v = board.vectors[i];
        assert(v.0.0 <= v.1.0);
        assert(v == edge);
        assert(board.vectors.contains(edge));
    }
}

/// Whether `edge` has `id` at one end and `other` at the other.
pub open spec fn connects(edge: Vector, id: NodeId, other: NodeId) -> bool {
    (edge.0 == id && edge.1 == other) || (edge.1 == id && edge.0 == other)
}

/// The neighbours along a list of edges hold `other` exactly when one of the
/// edges connects it to `id`.
proof fn neighbors_along_contains(vectors: Seq<Vector>, id: NodeId, other: NodeId)
    ensures
        neighbors_along(vectors, id).contains(other) <==> exists|i: int|
            0 <= i < vectors.len() && connects(#[trigger] vectors[i], id, other),
    decreases vectors.len(),
{
    if vectors.len() == 0 {
        assert(!neighbors_along(vectors, id).contains(other));
    } else {
        let v = vectors.last();
        let rest = vectors.drop_last();
        neighbors_along_contains(rest, id, other);
        let before = neighbors_along(rest, id);
        let first = if v.0 == id {
            before.push(v.1)
        } else {
            before
        };
        let all = neighbors_along(vectors, id);
        if all.contains(other) {
            let k = all.index_of(other);
            assert(all[k] == other);
            if before.contains(other) {
                let i = choose|i: int| 0 <= i < rest.len() && connects(#[trigger] rest[i], id, other);
                assert(vectors[i] == rest[i]);
            } else {
                if k < before.len() {
                    assert(before[k] == other);
                    assert(before.contains(other));
                }
                assert(connects(vectors[vectors.len() - 1], id, other));
            }
        }
        if exists|i: int| 0 <= i < vectors.len() && connects(#[trigger] vectors[i], id, other) {
            let i = choose|i: int| 0 <= i < vectors.len() && connects(#[trigger] vectors[i], id, other);
            if i < rest.len() {
                assert(rest[i] == vectors[i]);
                assert(before.contains(other));
                let k = before.index_of(other);
                assert(before[k] == other);
                assert(all[k] == other);
            } else {
                assert(vectors[i] == v);
                if v.0 == id && v.1 == other {
                    assert(first[before.len() as int] == other);
                    assert(all[before.len() as int] == other);
                } else {
                    assert(all[all.len() - 1] == other);
                }
            }
        }
    }
}

} // verus!
