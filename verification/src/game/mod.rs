//! The board and the pieces on it.

use vstd::prelude::*;

pub mod codec;
pub mod controller;
pub mod distance;
pub mod gamerunner;
pub mod map;
pub mod mutationinput;
pub mod nodes;
pub mod parts;
pub mod session;
pub mod state;
pub mod transmission;
pub mod wire;

pub use session::{MatchSession, MatchSessionView, SessionEvent};
pub use state::{GameState, GameStateView};

verus! {

/// Handle of a node on the board. The board hands them out in increasing
/// order, starting at zero, and never hands one out twice.
#[derive(Clone, Copy, Debug, PartialEq, Eq, Structural, Hash, PartialOrd, Ord)]
pub struct NodeId(pub u32);

/// A player or team.
#[derive(Clone, Copy, Debug, PartialEq, Eq, Structural, Hash)]
pub struct Force(pub u32);

/// The kinds of phage.
#[derive(Clone, Copy, Debug, PartialEq, Eq, Structural, Hash)]
pub enum PhageType {
    UV,
    Electro,
    Sonic,
    Any,
}

/// The force that holds a cell and the kind of phage it holds it with.
#[derive(Clone, Copy, Debug, PartialEq, Eq)]
pub struct Occupant(pub Force, pub PhageType);

/// The plain tenant of a node: room for one phage.
#[derive(Clone, Copy, Debug, PartialEq, Eq)]
pub struct Cell {
    pub occupant: Option<Occupant>,
}

/// A tenant that produces phage.
#[derive(Clone, Copy, Debug, PartialEq, Eq)]
pub struct Replicator {
    pub output: PhageType,
    /// How many transmission phases it takes to produce one phage.
    pub speed: u32,
}

/// The home of a force.
#[derive(Clone, Copy, Debug, PartialEq, Eq)]
pub struct Nexus {}

/// A tenant that yields qubits.
#[derive(Clone, Copy, Debug, PartialEq, Eq)]
pub struct Generator {
    pub amt: u32,
    pub speed: u32,
}

/// What stands on a node. A node has exactly one tenant at a time.
#[derive(Clone, Copy, Debug, PartialEq, Eq)]
pub enum NodeTenant {
    Cell { cell: Cell },
    Replicator { replicator: Replicator },
    Nexus { nexus: Nexus },
    Generator { generator: Generator },
}

/// Where a node is drawn. The rules never read it. Each coordinate is kept as
/// the bit pattern of a single-precision number, so that it passes through the
/// board unchanged.
#[derive(Clone, Copy, Debug, PartialEq, Eq, Structural)]
pub struct Position {
    pub x: u32,
    pub y: u32,
    pub z: u32,
}

/// A location on the board that can be connected to other locations.
#[derive(Clone, Copy, Debug, PartialEq, Eq)]
pub struct Node {
    pub id: NodeId,
    pub position: Position,
    pub force: Force,
    pub tenant: NodeTenant,
}

/// An undirected edge between two nodes. The board stores every edge with
/// the smaller id first.
#[derive(Clone, Copy, Debug, PartialEq, Eq, Structural, Hash)]
pub struct Vector(pub NodeId, pub NodeId);

impl Vector {
    /// The same edge with the smaller id first.
    pub open spec fn canonical(self) -> Vector {
        if self.0.0 <= self.1.0 {
            self
        } else {
            Vector(self.1, self.0)
        }
    }

    /// The edge between two nodes, with the smaller id first.
    pub fn new(id_1: NodeId, id_2: NodeId) -> (v: Vector)
        ensures
            v == Vector(id_1, id_2).canonical(),
    {
        if id_1.0 < id_2.0 {
            Vector(id_1, id_2)
        } else {
            Vector(id_2, id_1)
        }
    }

    /// Whether the first id is strictly below the second.
    pub fn is_well_formed(&self) -> (b: bool)
        ensures
            b == (self.0.0 < self.1.0),
    {
        self.1.0 > self.0.0
    }

    /// The edge with the smaller id first, computed.
    pub fn to_canonical(self) -> (v: Vector)
        ensures
            v == self.canonical(),
    {
        if self.0.0 <= self.1.0 {
            self
        } else {
            Vector(self.1, self.0)
        }
    }
}

/// Why the board refused a change.
#[derive(Clone, Copy, Debug, PartialEq, Eq)]
pub enum PlayerActionError {
    /// The edge is already on the board.
    VectorExists,
    /// The edge is not on the board.
    VectorDoesNotExist { vector: Vector },
    BadVectorFormat,
    /// An endpoint names no node.
    NodeIdDoesNotExist(NodeId),
    /// Changes are taken during the mutation phase only.
    WrongPhase,
    /// The force neither owns nor occupies a node that the change is about.
    NodeNotHeld(NodeId),
    /// The force has changed this node already in this mutation phase.
    AlreadyMutated(NodeId),
    /// The node has no replicator on it.
    NotAReplicator(NodeId),
}

/// A change to the board that a player asks for.
#[derive(Clone, Copy, Debug, PartialEq, Eq)]
pub enum Mutation {
    TriggerRecombinator { target: NodeId, cost: u32 },
    AddVector { relation: Vector, cost: u32 },
    RemoveVector { relation: Vector, cost: u32 },
    ChangeReplicatorType { replicator: NodeId, new_type: PhageType, cost: u32 },
}

/// What a recombinator does when it fires.
#[derive(Clone, Copy, Debug, PartialEq, Eq)]
pub enum RecombinatorEffect {
    DestroyPhageWithinRange(u32),
    GiveOccupierQubits { amt: u32 },
    GiveOccupierAdvantage,
    DestroyOccupierIfType { phage_type: PhageType },
    PullPhageForCombat(Vector),
}

/// What makes a recombinator fire.
#[derive(Clone, Copy, Debug, PartialEq, Eq)]
pub enum RecombinatorTriggers {
    NumberOfTransmissionPhases { phases: u32 },
    PhageEntered,
    PhageExited,
    CombatOccured,
    Qubits { qty: u32 },
    VectorAdded { dest: NodeId },
    VectorRemoved { dest: NodeId },
    OpposingNeighbors,
}

/// A trigger with the effect it sets off.
#[derive(Clone, Copy, Debug, PartialEq, Eq)]
pub struct Recombinator {
    pub trigger: RecombinatorTriggers,
    pub effect: RecombinatorEffect,
}

/// The special purposes a cell can serve.
#[derive(Clone, Copy, Debug, PartialEq, Eq)]
pub enum CellType {
    Transit,
    Recombinator { recombinator: Recombinator },
    Generator { qubits_per_phase: u32 },
}

/// Handle of an edge.
#[derive(Clone, Copy, Debug, PartialEq, Eq)]
pub struct VectorId(pub u32);

/// What a player can do in a turn.
#[derive(Clone, Copy, Debug, PartialEq, Eq)]
pub enum GameMove {
    /// Move the phage on the first node of `vector` to its second node.
    MovePhage { vector: Vector },
    Mutate { mutation: Mutation },
    GiveQubits { source: Force, dest: Force, qty: u32 },
}

/// The level that is being played, if one is.
pub struct LevelManagerRes {
    pub current_level: Option<String>,
}

/// Why a stored board could not be read.
#[derive(Clone, Copy, Debug, PartialEq, Eq)]
pub enum CodecError {
    /// The bytes end before the board does.
    Truncated,
    /// The name is not text.
    InvalidName,
    /// A tenant of a kind that the board does not know.
    UnknownTenant(u8),
    /// A phage of a kind that the board does not know.
    UnknownPhage(u8),
    /// A cell that is neither empty nor occupied.
    UnknownOccupancy(u8),
    /// Bytes follow the end of the board.
    TrailingBytes,
    /// A node is stored under another id than its own.
    NodeIdMismatch(NodeId),
    /// A node has an id that the board has not handed out.
    NodeIdOutOfRange(NodeId),
    /// Two nodes have one id.
    DuplicateNodeId(NodeId),
    /// An edge that the board would not have taken.
    BadVector { vector: Vector, reason: PlayerActionError },
}

/// A mutation together with the force that asks for it.
#[derive(Clone, Copy, Debug, PartialEq, Eq)]
pub struct PlayerMutationEvent {
    pub mutation: Mutation,
    pub force: Force,
}

/// Notice that a mutation was refused.
#[derive(Clone, Copy, Debug, PartialEq, Eq)]
pub struct MutationFailed {
    pub mutation: Mutation,
}

} // verus!
