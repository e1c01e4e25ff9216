//! The bytes of a stored board.
//!
//! A stored board is, in this order: the length of its name in bytes and the
//! name as UTF-8; the number of players; the next free id; the number of
//! nodes and one record of 39 bytes for each; the number of edges and the
//! two ends of each. Numbers are little-endian, of four bytes, lengths and
//! counts of eight.
//!
//! Whether bytes are text is asked of `String::from_utf8`, through `text_of`,
//! whose contract is taken on trust.

use vstd::prelude::*;
use vstd::bytes::{
    lemma_auto_spec_u32_to_from_le_bytes, lemma_auto_spec_u64_to_from_le_bytes,
    spec_u32_from_le_bytes, spec_u32_to_le_bytes, spec_u64_from_le_bytes, spec_u64_to_le_bytes,
    u32_from_le_bytes, u32_to_le_bytes, u64_from_le_bytes, u64_to_le_bytes,
};
use vstd::slice::{slice_subrange, slice_to_vec};
use vstd::utf8::{
    decode_utf8, encode_utf8, encode_utf8_decode_utf8, encode_utf8_valid_utf8, valid_utf8,
};
use crate::game::parts::{MapParts, MapPartsView};
use crate::game::{
    Cell, CodecError, Force, Generator, Nexus, Node, NodeId, NodeTenant, Occupant, PhageType,
    Position, Replicator, Vector,
};

verus! {

/// A node as it is stored, in 39 bytes: every field it can have, at a fixed
/// place. A field that the node's tenant has no use for is stored as zero
/// and not read.
pub struct NodeRecord {
    pub key: u32,
    pub id: u32,
    pub x: u32,
    pub y: u32,
    pub z: u32,
    pub force: u32,
    pub tenant: u8,
    pub occupancy: u8,
    pub phage: u8,
    pub holder: u32,
    pub amount: u32,
    pub speed: u32,
}

/// The number that stands for a kind of phage.
pub open spec fn phage_tag(phage: PhageType) -> u8 {
    match phage {
        PhageType::UV => 0,
        PhageType::Electro => 1,
        PhageType::Sonic => 2,
        PhageType::Any => 3,
    }
}

/// The kind of phage that a number stands for.
pub open spec fn phage_of(tag: u8) -> Result<PhageType, CodecError> {
    if tag == 0 {
        Ok(PhageType::UV)
    } else if tag == 1 {
        Ok(PhageType::Electro)
    } else if tag == 2 {
        Ok(PhageType::Sonic)
    } else if tag == 3 {
        Ok(PhageType::Any)
    } else {
        Err(CodecError::UnknownPhage(tag))
    }
}

/// The record of a node stored under `entry.0`.
pub open spec fn record_of(entry: (NodeId, Node)) -> NodeRecord {
    let node = entry.1;
    let plain = NodeRecord {
        key: entry.0.0,
        id: node.id.0,
        x: node.position.x,
        y: node.position.y,
        z: node.position.z,
        force: node.force.0,
        tenant: 0,
        occupancy: 0,
        phage: 0,
        holder: 0,
        amount: 0,
        speed: 0,
    };
    match node.tenant {
        NodeTenant::Cell { cell } => match cell.occupant {
            None => plain,
            Some(occupant) => NodeRecord {
                occupancy: 1,
                phage: phage_tag(occupant.1),
                holder: occupant.0.0,
                ..plain
            },
        },
        NodeTenant::Replicator { replicator } => NodeRecord {
            tenant: 1,
            phage: phage_tag(replicator.output),
            speed: replicator.speed,
            ..plain
        },
        NodeTenant::Nexus { nexus } => NodeRecord { tenant: 2, ..plain },
        NodeTenant::Generator { generator } => NodeRecord {
            tenant: 3,
            amount: generator.amt,
            speed: generator.speed,
            ..plain
        },
    }
}

/// The tenant that a record tells of, or what is wrong with the record.
pub open spec fn tenant_of(record: NodeRecord) -> Result<NodeTenant, CodecError> {
    if record.tenant == 0 {
        if record.occupancy == 0 {
            Ok(NodeTenant::Cell { cell: Cell { occupant: None } })
        } else if record.occupancy == 1 {
            match phage_of(record.phage) {
                Ok(phage) => Ok(
                    NodeTenant::Cell { cell: Cell { occupant: Some(Occupant(Force(record.holder), phage)) } },
                ),
                Err(fault) => Err(fault),
            }
        } else {
            Err(CodecError::UnknownOccupancy(record.occupancy))
        }
    } else if record.tenant == 1 {
        match phage_of(record.phage) {
            Ok(output) => Ok(
                NodeTenant::Replicator { replicator: Replicator { output, speed: record.speed } },
            ),
            Err(fault) => Err(fault),
        }
    } else if record.tenant == 2 {
        Ok(NodeTenant::Nexus { nexus: Nexus {  } })
    } else if record.tenant == 3 {
        Ok(NodeTenant::Generator { generator: Generator { amt: record.amount, speed: record.speed } })
    } else {
        Err(CodecError::UnknownTenant(record.tenant))
    }
}

/// The node that a record tells of, with the id it is stored under.
pub open spec fn node_of(record: NodeRecord) -> Result<(NodeId, Node), CodecError> {
    match tenant_of(record) {
        Ok(tenant) => Ok(
            (
                NodeId(record.key),
                Node {
                    id: NodeId(record.id),
                    position: Position { x: record.x, y: record.y, z: record.z },
                    force: Force(record.force),
                    tenant,
                },
            ),
        ),
        Err(fault) => Err(fault),
    }
}

/// The number of four bytes at `at`.
pub open spec fn word_at(bytes: Seq<u8>, at: int) -> u32 {
    spec_u32_from_le_bytes(bytes.subrange(at, at + 4))
}

/// The number of eight bytes at `at`.
pub open spec fn long_at(bytes: Seq<u8>, at: int) -> u64 {
    spec_u64_from_le_bytes(bytes.subrange(at, at + 8))
}

/// The record at `at`.
pub open spec fn record_at(bytes: Seq<u8>, at: int) -> NodeRecord {
    NodeRecord {
        key: word_at(bytes, at),
        id: word_at(bytes, at + 4),
        x: word_at(bytes, at + 8),
        y: word_at(bytes, at + 12),
        z: word_at(bytes, at + 16),
        force: word_at(bytes, at + 20),
        tenant: bytes[at + 24],
        occupancy: bytes[at + 25],
        phage: bytes[at + 26],
        holder: word_at(bytes, at + 27),
        amount: word_at(bytes, at + 31),
        speed: word_at(bytes, at + 35),
    }
}

/// The bytes of a record.
pub open spec fn put_record(record: NodeRecord) -> Seq<u8> {
    spec_u32_to_le_bytes(record.key) + spec_u32_to_le_bytes(record.id) + spec_u32_to_le_bytes(record.x)
        + spec_u32_to_le_bytes(record.y) + spec_u32_to_le_bytes(record.z) + spec_u32_to_le_bytes(
        record.force,
    ) + seq![record.tenant, record.occupancy, record.phage] + spec_u32_to_le_bytes(record.holder)
        + spec_u32_to_le_bytes(record.amount) + spec_u32_to_le_bytes(record.speed)
}

/// The first `count` nodes of those stored from `at` on, or the fault of the
/// first that has one.
pub open spec fn entries_at(bytes: Seq<u8>, at: int, count: nat) -> Result<Seq<(NodeId, Node)>, CodecError>
    decreases count,
{
    if count == 0 {
        Ok(Seq::empty())
    } else {
        match entries_at(bytes, at, (count - 1) as nat) {
            Err(fault) => Err(fault),
            Ok(before) => if bytes.len() < at + 39 * count {
                Err(CodecError::Truncated)
            } else {
                match node_of(record_at(bytes, at + 39 * (count - 1))) {
                    Ok(entry) => Ok(before.push(entry)),
                    Err(fault) => Err(fault),
                }
            },
        }
    }
}

/// The bytes of the first `count` of `entries`.
pub open spec fn put_entries(entries: Seq<(NodeId, Node)>, count: nat) -> Seq<u8>
    decreases count,
{
    if count == 0 {
        Seq::empty()
    } else {
        put_entries(entries, (count - 1) as nat) + put_record(record_of(entries[count - 1]))
    }
}

/// The edge at `at`.
pub open spec fn vector_at(bytes: Seq<u8>, at: int) -> Vector {
    Vector(NodeId(word_at(bytes, at)), NodeId(word_at(bytes, at + 4)))
}

/// The bytes of an edge.
pub open spec fn put_vector(vector: Vector) -> Seq<u8> {
    spec_u32_to_le_bytes(vector.0.0) + spec_u32_to_le_bytes(vector.1.0)
}

/// The first `count` edges of those stored from `at` on.
pub open spec fn vectors_at(bytes: Seq<u8>, at: int, count: nat) -> Result<Seq<Vector>, CodecError>
    decreases count,
{
    if count == 0 {
        Ok(Seq::empty())
    } else {
        match vectors_at(bytes, at, (count - 1) as nat) {
            Err(fault) => Err(fault),
            Ok(before) => if bytes.len() < at + 8 * count {
                Err(CodecError::Truncated)
            } else {
                Ok(before.push(vector_at(bytes, at + 8 * (count - 1))))
            },
        }
    }
}

/// The bytes of the first `count` of `vectors`.
pub open spec fn put_vectors(vectors: Seq<Vector>, count: nat) -> Seq<u8>
    decreases count,
{
    if count == 0 {
        Seq::empty()
    } else {
        put_vectors(vectors, (count - 1) as nat) + put_vector(vectors[count - 1])
    }
}

/// The bytes of a board's parts.
pub open spec fn encoded(parts: MapPartsView) -> Seq<u8> {
    let name = encode_utf8(parts.name);
    spec_u64_to_le_bytes(name.len() as u64) + name + spec_u32_to_le_bytes(parts.num_players)
        + spec_u32_to_le_bytes(parts.next_free_id.0) + spec_u64_to_le_bytes(parts.nodes.len() as u64)
        + put_entries(parts.nodes, parts.nodes.len()) + spec_u64_to_le_bytes(parts.vectors.len() as u64)
        + put_vectors(parts.vectors, parts.vectors.len())
}

/// What follows the name: the numbers, the nodes and the edges, from `at` on
/// to the end of the bytes.
pub open spec fn parsed_after_name(bytes: Seq<u8>, at: int, name: Seq<char>) -> Result<MapPartsView, CodecError> {
    if bytes.len() < at + 16 {
        Err(CodecError::Truncated)
    } else {
        let node_count = long_at(bytes, at + 8) as nat;
        match entries_at(bytes, at + 16, node_count) {
            Err(fault) => Err(fault),
            Ok(nodes) => {
                let after_nodes = at + 16 + 39 * node_count;
                if bytes.len() < after_nodes + 8 {
                    Err(CodecError::Truncated)
                } else {
                    let vector_count = long_at(bytes, after_nodes) as nat;
                    match vectors_at(bytes, after_nodes + 8, vector_count) {
                        Err(fault) => Err(fault),
                        Ok(vectors) => if bytes.len() != after_nodes + 8 + 8 * vector_count {
                            Err(CodecError::TrailingBytes)
                        } else {
                            Ok(
                                MapPartsView {
                                    name,
                                    num_players: word_at(bytes, at),
                                    next_free_id: NodeId(word_at(bytes, at + 4)),
                                    nodes,
                                    vectors,
                                },
                            )
                        },
                    }
                }
            },
        }
    }
}

/// The parts that the bytes tell of, or the first fault in them: bytes that
/// end too early, a name that is not UTF-8, a tenant, an occupancy or a phage
/// of an unknown kind, or bytes left over.
pub open spec fn parsed(bytes: Seq<u8>) -> Result<MapPartsView, CodecError> {
    if bytes.len() < 8 {
        Err(CodecError::Truncated)
    } else {
        let name_len = long_at(bytes, 0) as int;
        if bytes.len() < 8 + name_len {
            Err(CodecError::Truncated)
        } else {
            let name = bytes.subrange(8, 8 + name_len);
            if !valid_utf8(name) {
                Err(CodecError::InvalidName)
            } else {
                parsed_after_name(bytes, 8 + name_len, decode_utf8(name))
            }
        }
    }
}

/// `String::from_utf8` of the standard library, taken on trust: the text
/// that the bytes spell, where they are valid UTF-8, and nothing where they
/// are not.
#[verifier::external_body]
fn text_of(bytes: Vec<u8>) -> (text: Option<String>)
    ensures
        text is Some <==> valid_utf8(bytes@),
        text is Some ==> text.unwrap()@ == decode_utf8(bytes@),
{
    String::from_utf8(bytes).ok()
}

/// The number that stands for a kind of phage.
fn tag_of_phage(phage: PhageType) -> (tag: u8)
    ensures
        tag == phage_tag(phage),
{
    match phage {
        PhageType::UV => 0,
        PhageType::Electro => 1,
        PhageType::Sonic => 2,
        PhageType::Any => 3,
    }
}

/// The kind of phage that a number stands for.
fn phage_of_tag(tag: u8) -> (phage: Result<PhageType, CodecError>)
    ensures
        phage == phage_of(tag),
{
    match tag {
        0 => Ok(PhageType::UV),
        1 => Ok(PhageType::Electro),
        2 => Ok(PhageType::Sonic),
        3 => Ok(PhageType::Any),
        _ => Err(CodecError::UnknownPhage(tag)),
    }
}

/// The record of a node stored under `key`.
fn record_of_entry(key: NodeId, node: Node) -> (record: NodeRecord)
    ensures
        record == record_of((key, node)),
{
    let plain = NodeRecord {
        key: key.0,
        id: node.id.0,
        x: node.position.x,
        y: node.position.y,
        z: node.position.z,
        force: node.force.0,
        tenant: 0,
        occupancy: 0,
        phage: 0,
        holder: 0,
        amount: 0,
        speed: 0,
    };
    match node.tenant {
        NodeTenant::Cell { cell } => match cell.occupant {
            None => plain,
            Some(occupant) => NodeRecord {
                occupancy: 1,
                phage: tag_of_phage(occupant.1),
                holder: occupant.0.0,
                ..plain
            },
        },
        NodeTenant::Replicator { replicator } => NodeRecord {
            tenant: 1,
            phage: tag_of_phage(replicator.output),
            speed: replicator.speed,
            ..plain
        },
        NodeTenant::Nexus { .. } => NodeRecord { tenant: 2, ..plain },
        NodeTenant::Generator { generator } => NodeRecord {
            tenant: 3,
            amount: generator.amt,
            speed: generator.speed,
            ..plain
        },
    }
}

/// The tenant that a record tells of, or what is wrong with the record.
fn tenant_of_record(record: &NodeRecord) -> (tenant: Result<NodeTenant, CodecError>)
    ensures
        tenant == tenant_of(*record),
{
    match record.tenant {
        0 => match record.occupancy {
            0 => Ok(NodeTenant::Cell { cell: Cell { occupant: None } }),
            1 => match phage_of_tag(record.phage) {
                Ok(phage) => Ok(
                    NodeTenant::Cell { cell: Cell { occupant: Some(Occupant(Force(record.holder), phage)) } },
                ),
                Err(fault) => Err(fault),
            },
            _ => Err(CodecError::UnknownOccupancy(record.occupancy)),
        },
        1 => match phage_of_tag(record.phage) {
            Ok(output) => Ok(
                NodeTenant::Replicator { replicator: Replicator { output, speed: record.speed } },
            ),
            Err(fault) => Err(fault),
        },
        2 => Ok(NodeTenant::Nexus { nexus: Nexus {  } }),
        3 => Ok(NodeTenant::Generator { generator: Generator { amt: record.amount, speed: record.speed } }),
        _ => Err(CodecError::UnknownTenant(record.tenant)),
    }
}

/// The node that a record tells of, with the id it is stored under.
fn entry_of_record(record: &NodeRecord) -> (entry: Result<(NodeId, Node), CodecError>)
    ensures
        entry == node_of(*record),
{
    match tenant_of_record(record) {
        Ok(tenant) => Ok(
            (
                NodeId(record.key),
                Node {
                    id: NodeId(record.id),
                    position: Position { x: record.x, y: record.y, z: record.z },
                    force: Force(record.force),
                    tenant,
                },
            ),
        ),
        Err(fault) => Err(fault),
    }
}

/// The number of four bytes at `at`.
fn word(bytes: &[u8], at: usize) -> (x: u32)
    requires
        at + 4 <= bytes@.len(),
    ensures
        x == word_at(bytes@, at as int),
{
    let _total = bytes.len();
    u32_from_le_bytes(slice_subrange(bytes, at, at + 4))
}

/// The number of eight bytes at `at`.
fn long(bytes: &[u8], at: usize) -> (x: u64)
    requires
        at + 8 <= bytes@.len(),
    ensures
        x == long_at(bytes@, at as int),
{
    let _total = bytes.len();
    u64_from_le_bytes(slice_subrange(bytes, at, at + 8))
}

/// The record at `at`.
fn record(bytes: &[u8], at: usize) -> (record: NodeRecord)
    requires
        at + 39 <= bytes@.len(),
    ensures
        record == record_at(bytes@, at as int),
{
    let _total = bytes.len();
    NodeRecord {
        key: word(bytes, at),
        id: word(bytes, at + 4),
        x: word(bytes, at + 8),
        y: word(bytes, at + 12),
        z: word(bytes, at + 16),
        force: word(bytes, at + 20),
        tenant: bytes[at + 24],
        occupancy: bytes[at + 25],
        phage: bytes[at + 26],
        holder: word(bytes, at + 27),
        amount: word(bytes, at + 31),
        speed: word(bytes, at + 35),
    }
}

/// Writes a number of four bytes.
fn write_word(out: &mut Vec<u8>, x: u32)
    ensures
        final(out)@ == old(out)@ + spec_u32_to_le_bytes(x),
{
    let mut chunk = u32_to_le_bytes(x);
    out.append(&mut chunk);
}

/// Writes a number of eight bytes.
fn write_long(out: &mut Vec<u8>, x: u64)
    ensures
        final(out)@ == old(out)@ + spec_u64_to_le_bytes(x),
{
    let mut chunk = u64_to_le_bytes(x);
    out.append(&mut chunk);
}

/// Writes a record.
fn write_record(out: &mut Vec<u8>, record: &NodeRecord)
    ensures
        final(out)@ == old(out)@ + put_record(*record),
{
    write_word(out, record.key);
    write_word(out, record.id);
    write_word(out, record.x);
    write_word(out, record.y);
    write_word(out, record.z);
    write_word(out, record.force);
    out.push(record.tenant);
    out.push(record.occupancy);
    out.push(record.phage);
    write_word(out, record.holder);
    write_word(out, record.amount);
    write_word(out, record.speed);
    proof {
        assert(out@ =~= old(out)@ + put_record(*record));
    }
}

/// A fault found among the stored nodes is the answer, however many follow.
proof fn fault_among_entries_stays(bytes: Seq<u8>, at: int, found: nat, count: nat)
    requires
        found <= count,
        entries_at(bytes, at, found) is Err,
    ensures
        entries_at(bytes, at, count) == entries_at(bytes, at, found),
    decreases count,
{
    if found < count {
        fault_among_entries_stays(bytes, at, found, (count - 1) as nat);
    }
}

/// A fault found among the stored edges is the answer, however many follow.
proof fn fault_among_vectors_stays(bytes: Seq<u8>, at: int, found: nat, count: nat)
    requires
        found <= count,
        vectors_at(bytes, at, found) is Err,
    ensures
        vectors_at(bytes, at, count) == vectors_at(bytes, at, found),
    decreases count,
{
    if found < count {
        fault_among_vectors_stays(bytes, at, found, (count - 1) as nat);
    }
}

/// The `count` nodes stored from `at` on.
fn read_entries(bytes: &[u8], at: usize, count: u64) -> (entries: Result<Vec<(NodeId, Node)>, CodecError>)
    requires
        at <= bytes@.len(),
    ensures
        match entries {
            Ok(nodes) => entries_at(bytes@, at as int, count as nat) == Ok::<Seq<(NodeId, Node)>, CodecError>(
                nodes@,
            ) && at + 39 * count <= bytes@.len(),
            Err(fault) => entries_at(bytes@, at as int, count as nat) == Err::<Seq<(NodeId, Node)>, CodecError>(
                fault,
            ),
        },
{
    let mut nodes: Vec<(NodeId, Node)> = Vec::new();
    let mut i: u64 = 0;
    let mut here: usize = at;
    while i < count
        invariant
            i <= count,
            here == at + 39 * i,
            here <= bytes@.len(),
            entries_at(bytes@, at as int, i as nat) == Ok::<Seq<(NodeId, Node)>, CodecError>(nodes@),
        decreases count - i,
    {
        if bytes.len() - here < 39 {
            proof {
                assert(entries_at(bytes@, at as int, (i + 1) as nat) is Err);
                fault_among_entries_stays(bytes@, at as int, (i + 1) as nat, count as nat);
            }
            return Err(CodecError::Truncated);
        }
        match entry_of_record(&record(bytes, here)) {
            Ok(entry) => {
                nodes.push(entry);
            },
            Err(fault) => {
                proof {
                    assert(entries_at(bytes@, at as int, (i + 1) as nat) is Err);
                    fault_among_entries_stays(bytes@, at as int, (i + 1) as nat, count as nat);
                }
                return Err(fault);
            },
        }
        here += 39;
        i += 1;
    }
    Ok(nodes)
}

/// The `count` edges stored from `at` on.
fn read_vectors(bytes: &[u8], at: usize, count: u64) -> (vectors: Result<Vec<Vector>, CodecError>)
    requires
        at <= bytes@.len(),
    ensures
        match vectors {
            Ok(edges) => vectors_at(bytes@, at as int, count as nat) == Ok::<Seq<Vector>, CodecError>(edges@)
                && at + 8 * count <= bytes@.len(),
            Err(fault) => vectors_at(bytes@, at as int, count as nat) == Err::<Seq<Vector>, CodecError>(fault),
        },
{
    let mut edges: Vec<Vector> = Vec::new();
    let mut i: u64 = 0;
    let mut here: usize = at;
    while i < count
        invariant
            i <= count,
            here == at + 8 * i,
            here <= bytes@.len(),
            vectors_at(bytes@, at as int, i as nat) == Ok::<Seq<Vector>, CodecError>(edges@),
        decreases count - i,
    {
        if bytes.len() - here < 8 {
            proof {
                assert(vectors_at(bytes@, at as int, (i + 1) as nat) is Err);
                fault_among_vectors_stays(bytes@, at as int, (i + 1) as nat, count as nat);
            }
            return Err(CodecError::Truncated);
        }
        edges.push(Vector(NodeId(word(bytes, here)), NodeId(word(bytes, here + 4))));
        here += 8;
        i += 1;
    }
    Ok(edges)
}

/// Reads the parts of a board from its bytes, or says what is wrong with
/// them: `Truncated` where they end too early, `InvalidName` where the name
/// is not UTF-8, `UnknownTenant`, `UnknownOccupancy` or `UnknownPhage` where
/// a node is of a kind that the board does not know, and `TrailingBytes`
/// where bytes are left over. The first fault found is the answer.
pub fn parse_parts(bytes: &[u8]) -> (outcome: Result<MapParts, CodecError>)
    ensures
        match outcome {
            Ok(parts) => parsed(bytes@) == Ok::<MapPartsView, CodecError>(parts@),
            Err(fault) => parsed(bytes@) == Err::<MapPartsView, CodecError>(fault),
        },
{
    if bytes.len() < 8 {
        return Err(CodecError::Truncated);
    }
    let name_len = long(bytes, 0);
    if name_len > (bytes.len() - 8) as u64 {
        return Err(CodecError::Truncated);
    }
    let after_name: usize = 8 + name_len as usize;
    let name = match text_of(slice_to_vec(slice_subrange(bytes, 8, after_name))) {
        Some(name) => name,
        None => {
            return Err(CodecError::InvalidName);
        },
    };
    if bytes.len() - after_name < 16 {
        return Err(CodecError::Truncated);
    }
    let num_players = word(bytes, after_name);
    let next_free_id = NodeId(word(bytes, after_name + 4));
    let node_count = long(bytes, after_name + 8);
    let nodes = match read_entries(bytes, after_name + 16, node_count) {
        Ok(nodes) => nodes,
        Err(fault) => {
            return Err(fault);
        },
    };
    let after_nodes: usize = after_name + 16 + 39 * (node_count as usize);
    if bytes.len() - after_nodes < 8 {
        return Err(CodecError::Truncated);
    }
    let vector_count = long(bytes, after_nodes);
    let vectors = match read_vectors(bytes, after_nodes + 8, vector_count) {
        Ok(vectors) => vectors,
        Err(fault) => {
            return Err(fault);
        },
    };
    if bytes.len() - (after_nodes + 8) != 8 * (vector_count as usize) {
        return Err(CodecError::TrailingBytes);
    }
    Ok(MapParts { name, num_players, next_free_id, nodes, vectors })
}

/// The bytes of a board's parts. Every length among them fits the eight
/// bytes it is written in, so that `parse_parts` reads the same parts back.
pub fn encode_parts(parts: &MapParts) -> (bytes: Vec<u8>)
    ensures
        bytes@ == encoded(parts@),
        parsed(bytes@) == Ok::<MapPartsView, CodecError>(parts@),
{
    let mut out: Vec<u8> = Vec::new();
    let name = parts.name.as_str().as_bytes();
    write_long(&mut out, name.len() as u64);
    let mut name_copy = slice_to_vec(name);
    out.append(&mut name_copy);
    write_word(&mut out, parts.num_players);
    write_word(&mut out, parts.next_free_id.0);
    write_long(&mut out, parts.nodes.len() as u64);
    let ghost head = out@;
    let mut i: usize = 0;
    while i < parts.nodes.len()
        invariant
            i <= parts.nodes.len(),
            out@ == head + put_entries(parts.nodes@, i as nat),
        decreases parts.nodes.len() - i,
    {
        let (key, node) = parts.nodes[i];
        write_record(&mut out, &record_of_entry(key, node));
        proof {
            assert(out@ =~= head + put_entries(parts.nodes@, (i + 1) as nat));
        }
        i += 1;
    }
    write_long(&mut out, parts.vectors.len() as u64);
    let ghost middle = out@;
    let mut j: usize = 0;
    while j < parts.vectors.len()
        invariant
            j <= parts.vectors.len(),
            out@ == middle + put_vectors(parts.vectors@, j as nat),
        decreases parts.vectors.len() - j,
    {
        let vector = parts.vectors[j];
        write_word(&mut out, vector.0.0);
        write_word(&mut out, vector.1.0);
        proof {
            assert(out@ =~= middle + put_vectors(parts.vectors@, (j + 1) as nat));
        }
        j += 1;
    }
    proof {
        assert(out@ =~= encoded(parts@));
        parsing_the_encoding_restores(parts@);
    }
    out
}

/// Four bytes that were written for a number read as that number.
proof fn word_reads_back(bytes: Seq<u8>, at: int, x: u32)
    requires
        0 <= at,
        at + 4 <= bytes.len(),
        bytes.subrange(at, at + 4) == spec_u32_to_le_bytes(x),
    ensures
        word_at(bytes, at) == x,
{
    lemma_auto_spec_u32_to_from_le_bytes();
    assert(spec_u32_to_le_bytes(x).len() == 4);
}

/// Eight bytes that were written for a number read as that number.
proof fn long_reads_back(bytes: Seq<u8>, at: int, x: u64)
    requires
        0 <= at,
        at + 8 <= bytes.len(),
        bytes.subrange(at, at + 8) == spec_u64_to_le_bytes(x),
    ensures
        long_at(bytes, at) == x,
{
    lemma_auto_spec_u64_to_from_le_bytes();
    assert(spec_u64_to_le_bytes(x).len() == 8);
}

/// A record takes 39 bytes.
proof fn record_takes_its_length(record: NodeRecord)
    ensures
        put_record(record).len() == 39,
{
    lemma_auto_spec_u32_to_from_le_bytes();
}

/// Four bytes within a run of written bytes read as the number they were
/// written for.
proof fn word_reads_back_within(bytes: Seq<u8>, at: int, run: Seq<u8>, k: int, x: u32)
    requires
        0 <= at,
        0 <= k,
        k + 4 <= run.len(),
        at + run.len() <= bytes.len(),
        bytes.subrange(at, at + run.len()) == run,
        run.subrange(k, k + 4) == spec_u32_to_le_bytes(x),
    ensures
        word_at(bytes, at + k) == x,
{
    assert forall|i: int| 0 <= i < 4 implies #[trigger] bytes.subrange(at + k, at + k + 4)[i] == run.subrange(
        k,
        k + 4,
    )[i] by {
        assert(bytes.subrange(at, at + run.len())[k + i] == bytes[at + k + i]);
    }
    assert(bytes.subrange(at + k, at + k + 4) =~= run.subrange(k, k + 4));
    word_reads_back(bytes, at + k, x);
}

/// The bytes that were written for a record read as that record.
proof fn record_reads_back(bytes: Seq<u8>, at: int, record: NodeRecord)
    requires
        0 <= at,
        at + 39 <= bytes.len(),
        bytes.subrange(at, at + 39) == put_record(record),
    ensures
        record_at(bytes, at) == record,
{
    lemma_auto_spec_u32_to_from_le_bytes();
    let run = put_record(record);
    let key = spec_u32_to_le_bytes(record.key);
    let id = spec_u32_to_le_bytes(record.id);
    let x = spec_u32_to_le_bytes(record.x);
    let y = spec_u32_to_le_bytes(record.y);
    let z = spec_u32_to_le_bytes(record.z);
    let force = spec_u32_to_le_bytes(record.force);
    let holder = spec_u32_to_le_bytes(record.holder);
    let amount = spec_u32_to_le_bytes(record.amount);
    let speed = spec_u32_to_le_bytes(record.speed);
    assert(key.len() == 4 && id.len() == 4 && x.len() == 4 && y.len() == 4 && z.len() == 4);
    assert(force.len() == 4 && holder.len() == 4 && amount.len() == 4 && speed.len() == 4);
    assert(run.len() == 39);
    assert(run.subrange(0, 4) =~= key);
    assert(run.subrange(4, 8) =~= id);
    assert(run.subrange(8, 12) =~= x);
    assert(run.subrange(12, 16) =~= y);
    assert(run.subrange(16, 20) =~= z);
    assert(run.subrange(20, 24) =~= force);
    assert(run.subrange(27, 31) =~= holder);
    assert(run.subrange(31, 35) =~= amount);
    assert(run.subrange(35, 39) =~= speed);
    word_reads_back_within(bytes, at, run, 0, record.key);
    word_reads_back_within(bytes, at, run, 4, record.id);
    word_reads_back_within(bytes, at, run, 8, record.x);
    word_reads_back_within(bytes, at, run, 12, record.y);
    word_reads_back_within(bytes, at, run, 16, record.z);
    word_reads_back_within(bytes, at, run, 20, record.force);
    word_reads_back_within(bytes, at, run, 27, record.holder);
    word_reads_back_within(bytes, at, run, 31, record.amount);
    word_reads_back_within(bytes, at, run, 35, record.speed);
    assert(bytes.subrange(at, at + 39)[24] == bytes[at + 24]);
    assert(bytes.subrange(at, at + 39)[25] == bytes[at + 25]);
    assert(bytes.subrange(at, at + 39)[26] == bytes[at + 26]);
}

/// The record of a node tells of that node.
pub proof fn record_tells_its_node(entry: (NodeId, Node))
    ensures
        node_of(record_of(entry)) == Ok::<(NodeId, Node), CodecError>(entry),
{
    let record = record_of(entry);
    let node = entry.1;
    match node.tenant {
        NodeTenant::Cell { cell } => match cell.occupant {
            None => {
                assert(tenant_of(record) == Ok::<NodeTenant, CodecError>(node.tenant));
            },
            Some(occupant) => {
                assert(phage_of(phage_tag(occupant.1)) == Ok::<PhageType, CodecError>(occupant.1));
                assert(tenant_of(record) == Ok::<NodeTenant, CodecError>(node.tenant));
            },
        },
        NodeTenant::Replicator { replicator } => {
            assert(phage_of(phage_tag(replicator.output)) == Ok::<PhageType, CodecError>(replicator.output));
            assert(tenant_of(record) == Ok::<NodeTenant, CodecError>(node.tenant));
        },
        NodeTenant::Nexus { nexus } => {
            assert(tenant_of(record) == Ok::<NodeTenant, CodecError>(node.tenant));
        },
        NodeTenant::Generator { generator } => {
            assert(tenant_of(record) == Ok::<NodeTenant, CodecError>(node.tenant));
        },
    }
}

/// `count` nodes take 39 bytes each.
proof fn entries_take_their_length(entries: Seq<(NodeId, Node)>, count: nat)
    ensures
        put_entries(entries, count).len() == 39 * count,
    decreases count,
{
    if count > 0 {
        entries_take_their_length(entries, (count - 1) as nat);
        record_takes_its_length(record_of(entries[count - 1]));
    }
}

/// The bytes that were written for nodes read as those nodes.
proof fn entries_read_back(bytes: Seq<u8>, at: int, entries: Seq<(NodeId, Node)>, count: nat)
    requires
        0 <= at,
        count <= entries.len(),
        at + 39 * count <= bytes.len(),
        bytes.subrange(at, at + 39 * count) == put_entries(entries, count),
    ensures
        entries_at(bytes, at, count) == Ok::<Seq<(NodeId, Node)>, CodecError>(entries.take(count as int)),
    decreases count,
{
    if count == 0 {
        assert(entries.take(0) =~= Seq::<(NodeId, Node)>::empty());
    } else {
        let fewer = (count - 1) as nat;
        let last = record_of(entries[count - 1]);
        entries_take_their_length(entries, fewer);
        record_takes_its_length(last);
        let whole = bytes.subrange(at, at + 39 * count);
        let cut = (39 * fewer) as int;
        let end = (39 * count) as int;
        assert(whole == put_entries(entries, fewer) + put_record(last));
        assert(bytes.subrange(at, at + cut) =~= whole.subrange(0, cut));
        assert(whole.subrange(0, cut) =~= put_entries(entries, fewer));
        entries_read_back(bytes, at, entries, fewer);
        assert(bytes.subrange(at + cut, at + cut + 39) =~= whole.subrange(cut, end));
        assert(whole.subrange(cut, end) =~= put_record(last));
        record_reads_back(bytes, at + cut, last);
        record_tells_its_node(entries[count - 1]);
        assert(entries.take(fewer as int).push(entries[count - 1]) =~= entries.take(count as int));
    }
}

/// `count` edges take 8 bytes each.
proof fn vectors_take_their_length(vectors: Seq<Vector>, count: nat)
    ensures
        put_vectors(vectors, count).len() == 8 * count,
    decreases count,
{
    lemma_auto_spec_u32_to_from_le_bytes();
    if count > 0 {
        vectors_take_their_length(vectors, (count - 1) as nat);
    }
}

/// The bytes that were written for edges read as those edges.
proof fn vectors_read_back(bytes: Seq<u8>, at: int, vectors: Seq<Vector>, count: nat)
    requires
        0 <= at,
        count <= vectors.len(),
        at + 8 * count <= bytes.len(),
        bytes.subrange(at, at + 8 * count) == put_vectors(vectors, count),
    ensures
        vectors_at(bytes, at, count) == Ok::<Seq<Vector>, CodecError>(vectors.take(count as int)),
    decreases count,
{
    lemma_auto_spec_u32_to_from_le_bytes();
    if count == 0 {
        assert(vectors.take(0) =~= Seq::<Vector>::empty());
    } else {
        let fewer = (count - 1) as nat;
        let last = vectors[count - 1];
        vectors_take_their_length(vectors, fewer);
        let whole = bytes.subrange(at, at + 8 * count);
        let cut = (8 * fewer) as int;
        let end = (8 * count) as int;
        assert(whole == put_vectors(vectors, fewer) + put_vector(last));
        assert(bytes.subrange(at, at + cut) =~= whole.subrange(0, cut));
        assert(whole.subrange(0, cut) =~= put_vectors(vectors, fewer));
        vectors_read_back(bytes, at, vectors, fewer);
        let here = at + cut;
        assert(bytes.subrange(here, here + 8) =~= whole.subrange(cut, end));
        assert(whole.subrange(cut, end) =~= put_vector(last));
        let pair = put_vector(last);
        assert(pair.len() == 8);
        assert(pair.subrange(0, 4) =~= spec_u32_to_le_bytes(last.0.0));
        assert(pair.subrange(4, 8) =~= spec_u32_to_le_bytes(last.1.0));
        word_reads_back_within(bytes, here, pair, 0, last.0.0);
        word_reads_back_within(bytes, here, pair, 4, last.1.0);
        assert(vectors.take(fewer as int).push(last) =~= vectors.take(count as int));
    }
}

/// The bytes written for the parts of a board read as those parts, whatever
/// the parts are, as long as their lengths can be written down.
pub proof fn parsing_the_encoding_restores(parts: MapPartsView)
    requires
        encode_utf8(parts.name).len() <= u64::MAX,
        parts.nodes.len() <= u64::MAX,
        parts.vectors.len() <= u64::MAX,
    ensures
        parsed(encoded(parts)) == Ok::<MapPartsView, CodecError>(parts),
{
    lemma_auto_spec_u32_to_from_le_bytes();
    lemma_auto_spec_u64_to_from_le_bytes();
    encode_utf8_valid_utf8(parts.name);
    encode_utf8_decode_utf8(parts.name);
    let bytes = encoded(parts);
    let name = encode_utf8(parts.name);
    let n = name.len() as int;
    let nodes = parts.nodes.len();
    let edges = parts.vectors.len();
    entries_take_their_length(parts.nodes, nodes);
    vectors_take_their_length(parts.vectors, edges);
    let at = 8 + n;
    let after_nodes = at + 16 + 39 * nodes;
    assert(bytes.len() == after_nodes + 8 + 8 * edges);
    assert(bytes.subrange(0, 8) =~= spec_u64_to_le_bytes(n as u64));
    long_reads_back(bytes, 0, n as u64);
    assert(bytes.subrange(8, 8 + n) =~= name);
    assert(bytes.subrange(at, at + 4) =~= spec_u32_to_le_bytes(parts.num_players));
    word_reads_back(bytes, at, parts.num_players);
    assert(bytes.subrange(at + 4, at + 8) =~= spec_u32_to_le_bytes(parts.next_free_id.0));
    word_reads_back(bytes, at + 4, parts.next_free_id.0);
    assert(bytes.subrange(at + 8, at + 16) =~= spec_u64_to_le_bytes(nodes as u64));
    long_reads_back(bytes, at + 8, nodes as u64);
    assert(bytes.subrange(at + 16, at + 16 + 39 * nodes) =~= put_entries(parts.nodes, nodes));
    entries_read_back(bytes, at + 16, parts.nodes, nodes);
    assert(parts.nodes.take(nodes as int) =~= parts.nodes);
    assert(bytes.subrange(after_nodes, after_nodes + 8) =~= spec_u64_to_le_bytes(edges as u64));
    long_reads_back(bytes, after_nodes, edges as u64);
    assert(bytes.subrange(after_nodes + 8, after_nodes + 8 + 8 * edges) =~= put_vectors(parts.vectors, edges));
    vectors_read_back(bytes, after_nodes + 8, parts.vectors, edges);
    assert(parts.vectors.take(edges as int) =~= parts.vectors);
}

} // verus!
