use macrophage::game::codec::{load, save};
use macrophage::game::parts::MapParts;
use macrophage::game::wire::{encode_parts, parse_parts};
use macrophage::game::{
    Cell, CodecError, Force, GameState, Generator, Nexus, Node, NodeId, NodeTenant, Occupant,
    PhageType, PlayerActionError, Position, Replicator, Vector,
};

fn at(x: f32, y: f32, z: f32) -> Position {
    Position { x: x.to_bits(), y: y.to_bits(), z: z.to_bits() }
}

fn fixture() -> GameState {
    let mut map = GameState::new("Hello Map".to_string(), 5);
    let forces = [0, 1, 2, 3, 4, 5, 9];
    for (n, force) in forces.iter().enumerate() {
        map.create_node(Force(*force), at(n as f32, 0.5, -3.));
    }
    map.set_tenant(
        NodeId(4),
        NodeTenant::Replicator { replicator: Replicator { output: PhageType::Electro, speed: 3 } },
    );
    map.set_tenant(NodeId(5), NodeTenant::Nexus { nexus: Nexus {} });
    map.set_tenant(NodeId(6), NodeTenant::Generator { generator: Generator { amt: 50, speed: 1 } });
    map.set_tenant(
        NodeId(1),
        NodeTenant::Cell { cell: Cell { occupant: Some(Occupant(Force(1), PhageType::Any)) } },
    );
    map.add_vector(Vector(NodeId(3), NodeId(0))).unwrap();
    map.add_vector(Vector(NodeId(2), NodeId(0))).unwrap();
    map.add_vector(Vector(NodeId(6), NodeId(4))).unwrap();
    map
}

fn same_board(a: &GameState, b: &GameState) {
    assert_eq!(a.name(), b.name());
    assert_eq!(a.num_players(), b.num_players());
    assert_eq!(a.next_free_id(), b.next_free_id());
    assert_eq!(a.vectors(), b.vectors());
    for n in 0..a.next_free_id().0 + 2 {
        assert_eq!(a.node(NodeId(n)), b.node(NodeId(n)));
    }
}

fn small_bytes() -> Vec<u8> {
    let mut bytes = Vec::new();
    bytes.extend_from_slice(&2u64.to_le_bytes());
    bytes.extend_from_slice(b"Hi");
    bytes.extend_from_slice(&2u32.to_le_bytes());
    bytes.extend_from_slice(&2u32.to_le_bytes());
    bytes.extend_from_slice(&2u64.to_le_bytes());
    // node 0: an empty cell of force 7 at (1, 2, 3)
    for word in [0u32, 0, 1, 2, 3, 7] {
        bytes.extend_from_slice(&word.to_le_bytes());
    }
    bytes.extend_from_slice(&[0, 0, 0]);
    for word in [0u32, 0, 0] {
        bytes.extend_from_slice(&word.to_le_bytes());
    }
    // node 1: a generator of force 8 at (4, 5, 6) that gives 50
    for word in [1u32, 1, 4, 5, 6, 8] {
        bytes.extend_from_slice(&word.to_le_bytes());
    }
    bytes.extend_from_slice(&[3, 0, 0]);
    for word in [0u32, 50, 1] {
        bytes.extend_from_slice(&word.to_le_bytes());
    }
    bytes.extend_from_slice(&1u64.to_le_bytes());
    bytes.extend_from_slice(&0u32.to_le_bytes());
    bytes.extend_from_slice(&1u32.to_le_bytes());
    bytes
}

fn small_board() -> GameState {
    let mut map = GameState::new("Hi".to_string(), 2);
    map.create_node(Force(7), Position { x: 1, y: 2, z: 3 });
    map.create_node(Force(8), Position { x: 4, y: 5, z: 6 });
    map.set_tenant(NodeId(1), NodeTenant::Generator { generator: Generator { amt: 50, speed: 1 } });
    map.add_vector(Vector(NodeId(1), NodeId(0))).unwrap();
    map
}

#[test]
fn a_board_is_stored_byte_for_byte() {
    let bytes = save(&small_board());
    assert_eq!(bytes.len(), 8 + 2 + 4 + 4 + 8 + 2 * 39 + 8 + 8);
    assert_eq!(bytes, small_bytes());
}

#[test]
fn stored_bytes_are_read_as_the_board() {
    let map = load(&small_bytes()).unwrap();
    same_board(&map, &small_board());
    assert_eq!(map.name().as_str(), "Hi");
    assert_eq!(map.node(NodeId(0)).unwrap().force, Force(7));
    assert_eq!(map.vectors().clone(), vec![Vector(NodeId(0), NodeId(1))]);
}

#[test]
fn a_board_stored_and_read_back_is_the_same() {
    let map = fixture();
    let back = load(&save(&map)).unwrap();
    same_board(&back, &map);
    assert_eq!(back.vectors().len(), 3);
    assert_eq!(
        back.node(NodeId(1)).unwrap().tenant,
        NodeTenant::Cell { cell: Cell { occupant: Some(Occupant(Force(1), PhageType::Any)) } }
    );
    assert_eq!(
        back.node(NodeId(4)).unwrap().tenant,
        NodeTenant::Replicator { replicator: Replicator { output: PhageType::Electro, speed: 3 } }
    );
    assert_eq!(f32::from_bits(back.node(NodeId(2)).unwrap().position.z), -3.);
    assert_eq!(save(&back), save(&map));
}

#[test]
fn an_empty_board_and_a_name_beyond_ascii_come_back() {
    let map = GameState::new("Zellkern \u{00e9}\u{4e16}\u{1f9a0}".to_string(), 0);
    let back = load(&save(&map)).unwrap();
    same_board(&back, &map);
    assert_eq!(back.name().as_str(), "Zellkern \u{00e9}\u{4e16}\u{1f9a0}");
    assert_eq!(back.next_free_id(), NodeId(0));
}

#[test]
fn every_kind_of_phage_comes_back() {
    for kind in [PhageType::UV, PhageType::Electro, PhageType::Sonic, PhageType::Any] {
        let mut map = GameState::new("k".to_string(), 1);
        map.create_node(Force(1), at(0., 0., 0.));
        map.set_tenant(
            NodeId(0),
            NodeTenant::Cell { cell: Cell { occupant: Some(Occupant(Force(3), kind)) } },
        );
        let back = load(&save(&map)).unwrap();
        assert_eq!(
            back.node(NodeId(0)).unwrap().tenant,
            NodeTenant::Cell { cell: Cell { occupant: Some(Occupant(Force(3), kind)) } }
        );
    }
}

#[test]
fn bytes_that_end_early_are_truncated() {
    let bytes = small_bytes();
    for cut in 0..bytes.len() {
        assert_eq!(load(&bytes[..cut]).err(), Some(CodecError::Truncated), "cut at {}", cut);
    }
    assert!(load(&bytes).is_ok());
}

#[test]
fn bytes_left_over_are_refused() {
    let mut bytes = small_bytes();
    bytes.push(0);
    assert_eq!(load(&bytes).err(), Some(CodecError::TrailingBytes));
}

#[test]
fn a_name_that_is_not_text_is_refused() {
    let mut bytes = small_bytes();
    bytes[8] = 0xff;
    assert_eq!(load(&bytes).err(), Some(CodecError::InvalidName));
}

#[test]
fn unknown_kinds_are_refused() {
    let first_record = 8 + 2 + 4 + 4 + 8;
    let mut bytes = small_bytes();
    bytes[first_record + 24] = 4;
    assert_eq!(load(&bytes).err(), Some(CodecError::UnknownTenant(4)));

    let mut bytes = small_bytes();
    bytes[first_record + 25] = 2;
    assert_eq!(load(&bytes).err(), Some(CodecError::UnknownOccupancy(2)));

    let mut bytes = small_bytes();
    bytes[first_record + 25] = 1;
    bytes[first_record + 26] = 9;
    assert_eq!(load(&bytes).err(), Some(CodecError::UnknownPhage(9)));

    let mut bytes = small_bytes();
    bytes[first_record + 24] = 1;
    bytes[first_record + 26] = 200;
    assert_eq!(load(&bytes).err(), Some(CodecError::UnknownPhage(200)));

    // a field that the tenant has no use for is not read
    let mut bytes = small_bytes();
    bytes[first_record + 26] = 200;
    assert!(load(&bytes).is_ok());
}

fn parts() -> MapParts {
    let cell = NodeTenant::Cell { cell: Cell { occupant: None } };
    MapParts {
        name: "p".to_string(),
        num_players: 3,
        next_free_id: NodeId(4),
        nodes: vec![
            (NodeId(3), Node { id: NodeId(3), position: at(0., 0., 0.), force: Force(1), tenant: cell }),
            (NodeId(1), Node { id: NodeId(1), position: at(1., 0., 0.), force: Force(2), tenant: cell }),
        ],
        vectors: vec![Vector(NodeId(3), NodeId(1))],
    }
}

#[test]
fn parts_in_any_order_make_a_board() {
    let map = GameState::from_parts(parts()).unwrap();
    assert_eq!(map.next_free_id(), NodeId(4));
    assert_eq!(map.num_players(), 3);
    assert!(map.node_exists(NodeId(1)) && map.node_exists(NodeId(3)));
    assert!(!map.node_exists(NodeId(0)) && !map.node_exists(NodeId(2)));
    assert_eq!(map.vectors().clone(), vec![Vector(NodeId(1), NodeId(3))]);
    let again = map.to_parts();
    assert_eq!(again.nodes.iter().map(|entry| entry.0).collect::<Vec<_>>(), vec![NodeId(1), NodeId(3)]);
    assert_eq!(again.vectors, vec![Vector(NodeId(1), NodeId(3))]);
    assert_eq!(again.name, "p");
    let back = load(&save(&map)).unwrap();
    same_board(&back, &map);
}

#[test]
fn faulty_parts_make_no_board() {
    let mut wrong = parts();
    wrong.nodes[1].0 = NodeId(2);
    assert_eq!(GameState::from_parts(wrong).err(), Some(CodecError::NodeIdMismatch(NodeId(2))));

    let mut wrong = parts();
    wrong.next_free_id = NodeId(3);
    assert_eq!(GameState::from_parts(wrong).err(), Some(CodecError::NodeIdOutOfRange(NodeId(3))));

    let mut wrong = parts();
    wrong.nodes[1] = wrong.nodes[0];
    assert_eq!(GameState::from_parts(wrong).err(), Some(CodecError::DuplicateNodeId(NodeId(3))));

    let mut wrong = parts();
    wrong.vectors.push(Vector(NodeId(1), NodeId(3)));
    assert_eq!(
        GameState::from_parts(wrong).err(),
        Some(CodecError::BadVector {
            vector: Vector(NodeId(1), NodeId(3)),
            reason: PlayerActionError::VectorExists
        })
    );

    let mut wrong = parts();
    wrong.vectors.push(Vector(NodeId(1), NodeId(2)));
    assert_eq!(
        GameState::from_parts(wrong).err(),
        Some(CodecError::BadVector {
            vector: Vector(NodeId(1), NodeId(2)),
            reason: PlayerActionError::NodeIdDoesNotExist(NodeId(2))
        })
    );
}

#[test]
fn faulty_parts_in_bytes_are_refused_by_load() {
    let mut wrong = parts();
    wrong.nodes[1].0 = NodeId(2);
    assert_eq!(load(&encode_parts(&wrong)).err(), Some(CodecError::NodeIdMismatch(NodeId(2))));
    let mut wrong = parts();
    wrong.vectors.push(Vector(NodeId(0), NodeId(3)));
    assert_eq!(
        load(&encode_parts(&wrong)).err(),
        Some(CodecError::BadVector {
            vector: Vector(NodeId(0), NodeId(3)),
            reason: PlayerActionError::NodeIdDoesNotExist(NodeId(0))
        })
    );
}

#[test]
fn parts_written_are_the_parts_read() {
    let mut wrong = parts();
    wrong.nodes[1].0 = NodeId(2);
    wrong.vectors.push(Vector(NodeId(9), NodeId(3)));
    let back = parse_parts(&encode_parts(&wrong)).unwrap();
    assert_eq!(back.name, wrong.name);
    assert_eq!(back.num_players, wrong.num_players);
    assert_eq!(back.next_free_id, wrong.next_free_id);
    assert_eq!(back.nodes, wrong.nodes);
    assert_eq!(back.vectors, wrong.vectors);
}
