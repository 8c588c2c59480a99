//! The Render Projector: resolves each logical edge's endpoints to the
//! positioned nodes' coordinates and truncates the edge list to the render
//! budget. The cap is a display budget only: it keeps the first edges in
//! the deterministic logical order and never touches the node list.

use crate::builder::{edges_valid, edges_view, nodes_view};
use crate::types::{LogicalEdge, LogicalEdgeV, Node, NodeV, RenderEdge, RenderEdgeV};
use vstd::prelude::*;

verus! {

/// The ghost image of a render-edge vector.
pub open spec fn render_view(es: Seq<RenderEdge>) -> Seq<RenderEdgeV> {
    es.map_values(|e: RenderEdge| e@)
}

/// One logical edge resolved against a node sequence: endpoint positions
/// looked up, colour and stroke width carried through unchanged.
pub open spec fn resolve_edge(nodes: Seq<NodeV>, e: LogicalEdgeV) -> RenderEdgeV {
    RenderEdgeV {
        source_pos: nodes[e.source].pos,
        target_pos: nodes[e.target].pos,
        color: e.color,
        stroke_milli: e.stroke_milli,
    }
}

/// How many edges survive the cap: the edge count, or the cap where the
/// count exceeds it.
pub open spec fn render_len(cap: int, n: int) -> int {
    if n < cap {
        n
    } else {
        cap
    }
}

/// The render edges: the first `render_len` logical edges, in order, each
/// resolved against the positioned nodes.
pub open spec fn resolve_edges(nodes: Seq<NodeV>, edges: Seq<LogicalEdgeV>, cap: int) -> Seq<
    RenderEdgeV,
> {
    edges.take(render_len(cap, edges.len() as int)).map_values(
        |e: LogicalEdgeV| resolve_edge(nodes, e),
    )
}

/// Projects the logical edges onto the positioned nodes, truncated to the
/// render budget.
pub fn project_edges(nodes: &Vec<Node>, edges: &Vec<LogicalEdge>, cap: usize) -> (out: Vec<
    RenderEdge,
>)
    requires
        edges_valid(edges_view(edges@), nodes@.len() as int),
    ensures
        render_view(out@) == resolve_edges(nodes_view(nodes@), edges_view(edges@), cap as int),
        out@.len() == render_len(cap as int, edges@.len() as int),
{
    let ghost nv = nodes_view(nodes@);
    let ghost ev = edges_view(edges@);
    let n: usize = if edges.len() < cap {
        edges.len()
    } else {
        cap
    };
    let mut out: Vec<RenderEdge> = Vec::new();
    let mut i: usize = 0;
    while i < n
        invariant
            nv == nodes_view(nodes@),
            ev == edges_view(edges@),
            edges_valid(ev, nodes@.len() as int),
            nv.len() == nodes@.len(),
            ev.len() == edges@.len(),
            n as int == render_len(cap as int, ev.len() as int),
            n <= edges@.len(),
            0 <= i <= n,
            out@.len() == i,
            forall|j: int| 0 <= j < i ==> #[trigger] out@[j]@ == resolve_edge(nv, ev[j]),
        decreases n - i,
    {
        proof {
            assert(ev[i as int] == edges@[i as int]@);
            assert(0 <= ev[i as int].source < nodes@.len());
            assert(0 <= ev[i as int].target < nodes@.len());
        }
        let src = edges[i].source;
        let tgt = edges[i].target;
        proof {
            assert(nv[src as int] == nodes@[src as int]@);
            assert(nv[tgt as int] == nodes@[tgt as int]@);
        }
        let re = RenderEdge {
            source_pos: nodes[src].pos,
            target_pos: nodes[tgt].pos,
            color: edges[i].color,
            stroke_milli: edges[i].stroke_milli,
        };
        out.push(re);
        i = i + 1;
    }
    proof {
        let goal = resolve_edges(nv, ev, cap as int);
        assert(goal.len() == n as int);
        assert forall|j: int| 0 <= j < n as int implies render_view(out@)[j] == goal[j] by {
            assert(out@[j]@ == resolve_edge(nv, ev[j]));
            assert(ev.take(n as int)[j] == ev[j]);
        }
        assert(render_view(out@) =~= goal);
    }
    out
}

} // verus!
