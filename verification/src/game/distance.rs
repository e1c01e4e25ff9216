//! How far a node is from the nexus of a force, counted in edges.

use vstd::prelude::*;
use crate::game::{Force, GameState, GameStateView, NodeId, NodeTenant, Vector};

verus! {

/// Whether the node `id` exists, belongs to `force` and has a nexus on it.
pub open spec fn is_nexus_of(board: GameStateView, force: Force, id: NodeId) -> bool {
    board.node_exists(id) && board.nodes[id].force == force && board.nodes[id].tenant is Nexus
}

/// Whether a path of at most `rounds` edges leads from a nexus of `force` to
/// the node `id`.
pub open spec fn reached_within(board: GameStateView, force: Force, rounds: nat, id: NodeId) -> bool
    decreases rounds,
{
    if rounds == 0 {
        is_nexus_of(board, force, id)
    } else {
        let before = (rounds - 1) as nat;
        reached_within(board, force, before, id) || exists|j: int|
            0 <= j < board.vectors.len() && {
                let v = #[trigger] board.vectors[j];
                (v.0 == id && reached_within(board, force, before, v.1)) || (v.1 == id
                    && reached_within(board, force, before, v.0))
            }
    }
}

/// The least number of edges, from `from` up to `limit`, with which a path
/// leads from a nexus of `force` to the node `id`.
pub open spec fn rounds_to_reach(
    board: GameStateView,
    force: Force,
    id: NodeId,
    from: nat,
    limit: nat,
) -> Option<nat>
    decreases limit + 1 - from,
{
    if from > limit {
        None
    } else if reached_within(board, force, from, id) {
        Some(from)
    } else {
        rounds_to_reach(board, force, id, from + 1, limit)
    }
}

/// The length of the shortest path from a nexus of `force` to the node `id`,
/// among the paths of at most as many edges as the board has handed out
/// ids. `None` where no such path leads there.
pub open spec fn nexus_distance_of(board: GameStateView, force: Force, id: NodeId) -> Option<nat> {
    rounds_to_reach(board, force, id, 0, board.next_free_id.0 as nat)
}

/// A counted distance as a number without bound.
pub open spec fn in_edges(distance: Option<u32>) -> Option<nat> {
    match distance {
        Some(d) => Some(d as nat),
        None => None,
    }
}

/// No path leads to an id that names no node.
proof fn unreached_where_no_node(board: GameStateView, force: Force, rounds: nat, id: NodeId)
    requires
        board.well_formed(),
        !board.node_exists(id),
    ensures
        !reached_within(board, force, rounds, id),
    decreases rounds,
{
    if rounds > 0 {
        let before = (rounds - 1) as nat;
        unreached_where_no_node(board, force, before, id);
        assert forall|j: int| 0 <= j < board.vectors.len() implies !{
            let v = #[trigger] board.vectors[j];
            (v.0 == id && reached_within(board, force, before, v.1)) || (v.1 == id
                && reached_within(board, force, before, v.0))
        } by {
            let v = board.vectors[j];
            assert(board.nodes.dom().contains(v.0));
            assert(board.nodes.dom().contains(v.1));
        }
    }
}

/// Where no path of `from` edges or more leads to `id`, the search for a
/// shortest one from `from` on finds none.
proof fn none_where_unreached(board: GameStateView, force: Force, id: NodeId, from: nat, limit: nat)
    requires
        forall|rounds: nat| rounds >= from ==> !reached_within(board, force, rounds, id),
    ensures
        rounds_to_reach(board, force, id, from, limit) is None,
    decreases limit + 1 - from,
{
    if from <= limit {
        none_where_unreached(board, force, id, from + 1, limit);
    }
}

/// Where one more edge reaches no new node, no number of edges does.
proof fn settled_stays(board: GameStateView, force: Force, round: nat, later: nat, id: NodeId)
    requires
        forall|any: NodeId|
            reached_within(board, force, round + 1, any) == reached_within(board, force, round, any),
        later >= round,
    ensures
        reached_within(board, force, later, id) == reached_within(board, force, round, id),
    decreases later,
{
    if later > round {
        let before = (later - 1) as nat;
        assert forall|any: NodeId|
            reached_within(board, force, before, any) == reached_within(board, force, round, any) by {
            settled_stays(board, force, round, before, any);
        }
        let by_late_edge = exists|j: int|
            0 <= j < board.vectors.len() && {
                let v = #[trigger] board.vectors[j];
                (v.0 == id && reached_within(board, force, before, v.1)) || (v.1 == id && reached_within(
                    board,
                    force,
                    before,
                    v.0,
                ))
            };
        let by_early_edge = exists|j: int|
            0 <= j < board.vectors.len() && {
                let v = #[trigger] board.vectors[j];
                (v.0 == id && reached_within(board, force, round, v.1)) || (v.1 == id && reached_within(
                    board,
                    force,
                    round,
                    v.0,
                ))
            };
        if by_late_edge {
            let j = choose|j: int|
                0 <= j < board.vectors.len() && {
                    let v = #[trigger] board.vectors[j];
                    (v.0 == id && reached_within(board, force, before, v.1)) || (v.1 == id
                        && reached_within(board, force, before, v.0))
                };
            let v = board.vectors[j];
            assert(reached_within(board, force, before, v.1) == reached_within(board, force, round, v.1));
            assert(reached_within(board, force, before, v.0) == reached_within(board, force, round, v.0));
            assert(by_early_edge);
        }
        if by_early_edge {
            let j = choose|j: int|
                0 <= j < board.vectors.len() && {
                    let v = #[trigger] board.vectors[j];
                    (v.0 == id && reached_within(board, force, round, v.1)) || (v.1 == id
                        && reached_within(board, force, round, v.0))
                };
            let v = board.vectors[j];
            assert(reached_within(board, force, before, v.1) == reached_within(board, force, round, v.1));
            assert(reached_within(board, force, before, v.0) == reached_within(board, force, round, v.0));
            assert(by_late_edge);
        }
        assert(reached_within(board, force, later, id) == (reached_within(board, force, before, id)
            || by_late_edge));
        assert(reached_within(board, force, round + 1, id) == (reached_within(board, force, round, id)
            || by_early_edge));
    }
}

/// Whether `marks` has a mark for each id that the board has handed out, set
/// where the node of that id is reached within `rounds` edges.
pub open spec fn marks_tell(board: GameStateView, force: Force, rounds: nat, marks: Seq<bool>) -> bool {
    &&& marks.len() == board.next_free_id.0
    &&& forall|i: int|
        0 <= i < marks.len() ==> #[trigger] marks[i] == reached_within(board, force, rounds, NodeId(i as u32))
}

/// Whether the id `i` is marked in `reached` or one of the first `upto`
/// edges connects it with an id that is.
pub open spec fn spread_to(edges: Seq<Vector>, reached: Seq<bool>, upto: int, i: int) -> bool {
    reached[i] || exists|j: int|
        0 <= j < upto && {
            let v = #[trigger] edges[j];
            (v.0.0 == i && reached[v.1.0 as int]) || (v.1.0 == i && reached[v.0.0 as int])
        }
}

/// Marks that tell of one number of edges, spread along the edges of the
/// board, tell of one edge more.
proof fn spreading_tells_one_more(
    board: GameStateView,
    force: Force,
    rounds: nat,
    reached: Seq<bool>,
    next: Seq<bool>,
)
    requires
        board.well_formed(),
        marks_tell(board, force, rounds, reached),
        next.len() == reached.len(),
        forall|i: int|
            0 <= i < next.len() ==> #[trigger] next[i] == spread_to(
                board.vectors,
                reached,
                board.vectors.len() as int,
                i,
            ),
    ensures
        marks_tell(board, force, rounds + 1, next),
{
    let edges = board.vectors;
    assert forall|i: int| 0 <= i < next.len() implies #[trigger] next[i] == reached_within(
        board,
        force,
        rounds + 1,
        NodeId(i as u32),
    ) by {
        let target = NodeId(i as u32);
        let by_mark = exists|j: int|
            0 <= j < edges.len() && {
                let v = #[trigger] edges[j];
                (v.0.0 == i && reached[v.1.0 as int]) || (v.1.0 == i && reached[v.0.0 as int])
            };
        let by_path = exists|j: int|
            0 <= j < board.vectors.len() && {
                let v = #[trigger] board.vectors[j];
                (v.0 == target && reached_within(board, force, rounds, v.1)) || (v.1 == target
                    && reached_within(board, force, rounds, v.0))
            };
        assert(reached[i] == reached_within(board, force, rounds, target));
        assert(next[i] == (reached[i] || by_mark));
        if by_mark {
            let j = choose|j: int|
                0 <= j < edges.len() && {
                    let v = #[trigger] edges[j];
                    (v.0.0 == i && reached[v.1.0 as int]) || (v.1.0 == i && reached[v.0.0 as int])
                };
            ends_are_marked(board, force, rounds, reached, j);
            assert(by_path);
        }
        if by_path {
            let j = choose|j: int|
                0 <= j < board.vectors.len() && {
                    let v = #[trigger] board.vectors[j];
                    (v.0 == target && reached_within(board, force, rounds, v.1)) || (v.1 == target
                        && reached_within(board, force, rounds, v.0))
                };
            ends_are_marked(board, force, rounds, reached, j);
            assert(by_mark);
        }
    }
}

/// Both ends of an edge of the board have a mark, and the mark tells of the
/// end.
proof fn ends_are_marked(board: GameStateView, force: Force, rounds: nat, reached: Seq<bool>, j: int)
    requires
        board.well_formed(),
        marks_tell(board, force, rounds, reached),
        0 <= j < board.vectors.len(),
    ensures
        board.vectors[j].0.0 < reached.len(),
        board.vectors[j].1.0 < reached.len(),
        reached[board.vectors[j].0.0 as int] == reached_within(board, force, rounds, board.vectors[j].0),
        reached[board.vectors[j].1.0 as int] == reached_within(board, force, rounds, board.vectors[j].1),
{
    let v = board.vectors[j];
    assert(board.nodes.dom().contains(v.0));
    assert(board.nodes.dom().contains(v.1));
    assert(NodeId(v.0.0 as int as u32) == v.0);
    assert(NodeId(v.1.0 as int as u32) == v.1);
}

/// A mark for each id that the board has handed out, set where a nexus of
/// `force` stands.
fn nexus_marks(board: &GameState, force: Force) -> (marks: Vec<bool>)
    ensures
        marks_tell(board@, force, 0, marks@),
{
    let limit = board.next_free_id().0;
    let mut marks: Vec<bool> = Vec::new();
    let mut k: u32 = 0;
    while k < limit
        invariant
            k <= limit,
            limit == board@.next_free_id.0,
            marks@.len() == k,
            forall|i: int| 0 <= i < k ==> #[trigger] marks@[i] == is_nexus_of(board@, force, NodeId(i as u32)),
        decreases limit - k,
    {
        let mark = match board.node(NodeId(k)) {
            Some(node) => match node.tenant {
                NodeTenant::Nexus { .. } => node.force.0 == force.0,
                _ => false,
            },
            None => false,
        };
        marks.push(mark);
        k += 1;
    }
    marks
}

/// The marks spread by one edge: an id is marked afterwards where it was
/// marked or an edge connects it with an id that was. Says also whether a
/// mark was added.
fn spread(edges: &Vec<Vector>, reached: &Vec<bool>) -> (out: (Vec<bool>, bool))
    requires
        forall|j: int|
            0 <= j < edges@.len() ==> (#[trigger] edges@[j]).0.0 < reached@.len() && edges@[j].1.0
                < reached@.len(),
    ensures
        out.0@.len() == reached@.len(),
        forall|i: int|
            0 <= i < reached@.len() ==> #[trigger] out.0@[i] == spread_to(
                edges@,
                reached@,
                edges@.len() as int,
                i,
            ),
        !out.1 ==> out.0@ == reached@,
{
    let n = reached.len();
    let mut next: Vec<bool> = Vec::new();
    let mut c: usize = 0;
    while c < n
        invariant
            c <= n,
            n == reached@.len(),
            next@.len() == c,
            forall|i: int| 0 <= i < c ==> next@[i] == reached@[i],
        decreases n - c,
    {
        next.push(reached[c]);
        c += 1;
    }
    let mut grown = false;
    let mut e: usize = 0;
    while e < edges.len()
        invariant
            e <= edges@.len(),
            n == reached@.len(),
            next@.len() == n,
            forall|j: int|
                0 <= j < edges@.len() ==> (#[trigger] edges@[j]).0.0 < n && edges@[j].1.0 < n,
            grown || next@ == reached@,
            forall|i: int| 0 <= i < n ==> #[trigger] next@[i] == spread_to(edges@, reached@, e as int, i),
        decreases edges@.len() - e,
    {
        let v = edges[e];
        let ghost prior = next@;
        if reached[v.0.0 as usize] && !next[v.1.0 as usize] {
            next.set(v.1.0 as usize, true);
            grown = true;
        }
        if reached[v.1.0 as usize] && !next[v.0.0 as usize] {
            next.set(v.0.0 as usize, true);
            grown = true;
        }
        proof {
            assert forall|i: int| 0 <= i < n implies #[trigger] next@[i] == spread_to(
                edges@,
                reached@,
                e + 1,
                i,
            ) by {
                let here = (v.0.0 == i && reached@[v.1.0 as int]) || (v.1.0 == i && reached@[v.0.0 as int]);
                assert(prior[i] == spread_to(edges@, reached@, e as int, i));
                assert(next@[i] == (prior[i] || here));
                if here {
                    assert(edges@[e as int] == v);
                }
                if spread_to(edges@, reached@, e + 1, i) && !reached@[i] {
                    let j = choose|j: int|
                        0 <= j < e + 1 && {
                            let w = #[trigger] edges@[j];
                            (w.0.0 == i && reached@[w.1.0 as int]) || (w.1.0 == i && reached@[w.0.0 as int])
                        };
                    if j == e {
                        assert(here);
                    }
                }
            }
        }
        e += 1;
    }
    proof {
        if !grown {
            assert(next@ =~= reached@);
        }
    }
    (next, grown)
}

/// The length of the shortest path from a nexus of `force` to the node `id`,
/// or `None` where there is no such path.
pub fn nexus_distance(board: &GameState, force: Force, id: NodeId) -> (distance: Option<u32>)
    requires
        board.well_formed(),
    ensures
        in_edges(distance) == nexus_distance_of(board@, force, id),
{
    let limit = board.next_free_id().0;
    if id.0 >= limit {
        proof {
            assert forall|rounds: nat| !reached_within(board@, force, rounds, id) by {
                unreached_where_no_node(board@, force, rounds, id);
            }
            none_where_unreached(board@, force, id, 0, limit as nat);
        }
        return None;
    }
    let edges = board.vectors();
    let mut reached = nexus_marks(board, force);
    let mut round: u32 = 0;
    loop
        invariant
            board.well_formed(),
            limit == board@.next_free_id.0,
            id.0 < limit,
            edges@ == board@.vectors,
            round <= limit,
            marks_tell(board@, force, round as nat, reached@),
            nexus_distance_of(board@, force, id) == rounds_to_reach(
                board@,
                force,
                id,
                round as nat,
                limit as nat,
            ),
        decreases limit - round,
    {
        proof {
            assert(NodeId(id.0 as int as u32) == id);
        }
        if reached[id.0 as usize] {
            return Some(round);
        }
        if round == limit {
            proof {
                assert(rounds_to_reach(board@, force, id, (round + 1) as nat, limit as nat) is None);
            }
            return None;
        }
        proof {
            assert forall|j: int| 0 <= j < edges@.len() implies (#[trigger] edges@[j]).0.0 < reached@.len()
                && edges@[j].1.0 < reached@.len() by {
                ends_are_marked(board@, force, round as nat, reached@, j);
            }
        }
        let (next, grown) = spread(edges, &reached);
        proof {
            spreading_tells_one_more(board@, force, round as nat, reached@, next@);
        }
        if !grown {
            proof {
                let now = round as nat;
                assert forall|any: NodeId|
                    reached_within(board@, force, now + 1, any) == reached_within(board@, force, now, any) by {
                    if any.0 < limit {
                        assert(NodeId(any.0 as int as u32) == any);
                        assert(next@[any.0 as int] == reached@[any.0 as int]);
                    } else {
                        unreached_where_no_node(board@, force, now + 1, any);
                        unreached_where_no_node(board@, force, now, any);
                    }
                }
                assert forall|rounds: nat| rounds >= now implies !reached_within(board@, force, rounds, id) by {
                    settled_stays(board@, force, now, rounds, id);
                }
                none_where_unreached(board@, force, id, now, limit as nat);
            }
            return None;
        }
        reached = next;
        round += 1;
    }
}

/// Whether an edge of the board connects the node at `i` in `path` with the
/// next.
pub open spec fn linked(board: GameStateView, path: Seq<NodeId>, i: int) -> bool {
    board.vector_exists(Vector(path[i], path[i + 1]))
}

/// Whether `path` leads from a nexus of `force` to the node `id`, each of
/// its nodes connected with the next by an edge of the board.
pub open spec fn leads_to(board: GameStateView, force: Force, path: Seq<NodeId>, id: NodeId) -> bool {
    &&& path.len() > 0
    &&& is_nexus_of(board, force, path[0])
    &&& path[path.len() - 1] == id
    &&& forall|i: int| 0 <= i < path.len() - 1 ==> #[trigger] linked(board, path, i)
}

/// What is reached with some edges is reached with more.
proof fn reached_stays_reached(board: GameStateView, force: Force, rounds: nat, later: nat, id: NodeId)
    requires
        rounds <= later,
        reached_within(board, force, rounds, id),
    ensures
        reached_within(board, force, later, id),
    decreases later,
{
    if rounds < later {
        reached_stays_reached(board, force, rounds, (later - 1) as nat, id);
    }
}

/// A node that is reached is at the end of a path.
proof fn a_path_where_reached(board: GameStateView, force: Force, rounds: nat, id: NodeId) -> (path: Seq<
    NodeId,
>)
    requires
        board.well_formed(),
        reached_within(board, force, rounds, id),
    ensures
        leads_to(board, force, path, id),
        path.len() <= rounds + 1,
    decreases rounds,
{
    if rounds == 0 {
        seq![id]
    } else {
        let before = (rounds - 1) as nat;
        if reached_within(board, force, before, id) {
            a_path_where_reached(board, force, before, id)
        } else {
            let j = choose|j: int|
                0 <= j < board.vectors.len() && {
                    let v = #[trigger] board.vectors[j];
                    (v.0 == id && reached_within(board, force, before, v.1)) || (v.1 == id
                        && reached_within(board, force, before, v.0))
                };
            let v = board.vectors[j];
            let from = if v.0 == id && reached_within(board, force, before, v.1) {
                v.1
            } else {
                v.0
            };
            let shorter = a_path_where_reached(board, force, before, from);
            let path = shorter.push(id);
            assert(v.0.0 <= v.1.0);
            assert(Vector(from, id).canonical() == v) by {
                if v.0.0 == v.1.0 {
                    assert(v.0 == v.1);
                }
            }
            assert(board.vectors.contains(v));
            assert forall|i: int| 0 <= i < path.len() - 1 implies #[trigger] linked(board, path, i) by {
                if i < shorter.len() - 1 {
                    assert(linked(board, shorter, i));
                }
            }
            path
        }
    }
}

/// The node at the end of a path is reached.
proof fn reached_where_a_path(board: GameStateView, force: Force, path: Seq<NodeId>, id: NodeId)
    requires
        leads_to(board, force, path, id),
    ensures
        reached_within(board, force, (path.len() - 1) as nat, id),
    decreases path.len(),
{
    if path.len() > 1 {
        let shorter = path.drop_last();
        let from = shorter[shorter.len() - 1];
        assert forall|i: int| 0 <= i < shorter.len() - 1 implies #[trigger] linked(board, shorter, i) by {
            assert(linked(board, path, i));
        }
        reached_where_a_path(board, force, shorter, from);
        assert(linked(board, path, path.len() - 2));
        let edge = Vector(from, id).canonical();
        let j = board.vectors.index_of(edge);
        assert(board.vectors[j] == edge);
    }
}

/// A node is reached with a number of edges exactly when a path of at most
/// that many edges leads to it from a nexus of the force.
pub proof fn reached_means_a_path(board: GameStateView, force: Force, rounds: nat, id: NodeId)
    requires
        board.well_formed(),
    ensures
        reached_within(board, force, rounds, id) <==> exists|path: Seq<NodeId>|
            path.len() <= rounds + 1 && #[trigger] leads_to(board, force, path, id),
{
    if reached_within(board, force, rounds, id) {
        let path = a_path_where_reached(board, force, rounds, id);
        assert(path.len() <= rounds + 1 && leads_to(board, force, path, id));
    }
    if exists|path: Seq<NodeId>| path.len() <= rounds + 1 && #[trigger] leads_to(board, force, path, id) {
        let path = choose|path: Seq<NodeId>| path.len() <= rounds + 1 && #[trigger] leads_to(board, force, path, id);
        reached_where_a_path(board, force, path, id);
        reached_stays_reached(board, force, (path.len() - 1) as nat, rounds, id);
    }
}

} // verus!
