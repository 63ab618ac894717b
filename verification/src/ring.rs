//! The topology of a closed polyline: which vertex is joined to which.

use vstd::prelude::*;

verus! {

/// One segment of a polyline, given by the indices of its two end vertices.
#[derive(Clone, Copy, Debug, PartialEq, Eq, Structural)]
pub struct Edge {
    pub from: u32,
    pub to: u32,
}

/// The `i`-th segment of a ring of `side_count` vertices: it joins vertex `i`
/// to its successor, and the last one closes the loop back to vertex 0.
pub open spec fn ring_edge(side_count: nat, i: int) -> Edge {
    Edge { from: i as u32, to: if i + 1 == side_count { 0u32 } else { (i + 1) as u32 } }
}

/// The segments of a ring of `side_count` vertices, in order.
pub open spec fn ring_edges_spec(side_count: nat) -> Seq<Edge> {
    Seq::new(side_count, |i: int| ring_edge(side_count, i))
}

/// The angle step of each vertex of a ring: vertex `i` stands at `i` steps of
/// a full turn divided into `side_count` equal steps.
pub open spec fn angle_steps_spec(side_count: nat) -> Seq<u32> {
    Seq::new(side_count, |i: int| i as u32)
}

/// `edges` is one closed cycle through the vertices `0 .. vertex_count`:
/// every segment ends where the next one starts, the last one ends where the
/// first one starts, no two segments start at the same vertex, and every
/// vertex is the start of a segment.
pub open spec fn is_closed_cycle(edges: Seq<Edge>, vertex_count: nat) -> bool {
    &&& edges.len() == vertex_count
    &&& forall|i: int|
        0 <= i < edges.len() ==> (#[trigger] edges[i]).from < vertex_count && edges[i].to
            < vertex_count
    &&& forall|i: int|
        0 <= i < edges.len() ==> (#[trigger] edges[i]).to == edges[(i + 1) % (
        edges.len() as int)].from
    &&& forall|i: int, j: int|
        0 <= i < j < edges.len() ==> (#[trigger] edges[i]).from != (#[trigger] edges[j]).from
    &&& forall|v: int| 0 <= v < vertex_count ==> #[trigger] leaves_vertex(edges, v)
}

/// Some segment of `edges` starts at vertex `v`.
pub open spec fn leaves_vertex(edges: Seq<Edge>, v: int) -> bool {
    exists|i: int| 0 <= i < edges.len() && (#[trigger] edges[i]).from == v
}

/// Builds the segments of a ring of `side_count` vertices.
pub fn ring_edges(side_count: u32) -> (edges: Vec<Edge>)
    ensures
        edges@ == ring_edges_spec(side_count as nat),
{
    let mut edges: Vec<Edge> = Vec::new();
    let mut i: u32 = 0;
    while i < side_count
        invariant
            i <= side_count,
            edges@.len() == i,
            forall|k: int| 0 <= k < i ==> edges@[k] == ring_edge(side_count as nat, k),
        decreases side_count - i,
    {
        let next: u32 = if i + 1 == side_count {
            0
        } else {
            i + 1
        };
        edges.push(Edge { from: i, to: next });
        i = i + 1;
    }
    assert(edges@ =~= ring_edges_spec(side_count as nat));
    edges
}

/// Builds the angle steps of a ring of `side_count` vertices: exactly
/// `side_count` of them, counted in whole steps so that no rounding can add
/// or lose a vertex.
pub fn angle_steps(side_count: u32) -> (steps: Vec<u32>)
    ensures
        steps@ == angle_steps_spec(side_count as nat),
{
    let mut steps: Vec<u32> = Vec::new();
    let mut i: u32 = 0;
    while i < side_count
        invariant
            i <= side_count,
            steps@.len() == i,
            forall|k: int| 0 <= k < i ==> steps@[k] == k,
        decreases side_count - i,
    {
        steps.push(i);
        i = i + 1;
    }
    assert(steps@ =~= angle_steps_spec(side_count as nat));
    steps
}

/// A ring has as many segments as vertices, and its segments form one closed
/// cycle that visits every vertex exactly once.
pub proof fn lemma_ring_is_closed_cycle(side_count: nat)
    requires
        1 <= side_count <= u32::MAX,
    ensures
        ring_edges_spec(side_count).len() == side_count,
        angle_steps_spec(side_count).len() == side_count,
        is_closed_cycle(ring_edges_spec(side_count), side_count),
{
    let edges = ring_edges_spec(side_count);
    let n = side_count as int;
    assert forall|i: int| 0 <= i < edges.len() implies (#[trigger] edges[i]).to == edges[(i + 1)
        % n].from by {
        if i + 1 == n {
            assert((i + 1) % n == 0) by (nonlinear_arith)
                requires
                    i + 1 == n,
                    n > 0,
            ;
        } else {
            assert((i + 1) % n == i + 1) by (nonlinear_arith)
                requires
                    0 <= i + 1 < n,
            ;
        }
    }
    assert forall|v: int| 0 <= v < side_count implies #[trigger] leaves_vertex(edges, v) by {
        assert(edges[v].from == v);
    }
}

} // verus!
