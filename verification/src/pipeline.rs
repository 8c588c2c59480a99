//! The whole pipeline as one pure transformation: normalize scores, build
//! nodes and logical edges, lay the nodes out, project the render edges.
//! The result is a function of the input collection and the configuration
//! alone, so repeated runs on the same input produce the identical graph.

use crate::builder::{affinity_from, build_nodes_and_edges, built_state, normalized_bounded};
use crate::layout::{count_kind, count_nodes_of_kind, layout_nodes, layout_spec, lemma_count_kind_le_len};
use crate::normalize::{
    dataset_raw_bounded, lemma_mean_raw_bounded, normalize_all, normalize_scores, normalize_user,
};
use crate::project::{project_edges, render_view, resolve_edges};
use crate::types::{
    Dataset, GraphConfig, GraphConfigV, GraphModel, GraphModelV, NodeKind, UserRatingsV,
    RAW_SCORE_LIMIT_MILLI, WEIGHT_LIMIT_MILLI,
};
use vstd::prelude::*;

verus! {

/// The graph the pipeline owes for a given input and configuration: the
/// normalized users are folded into nodes, preference and affinity edges,
/// the nodes are laid out, and the edges are resolved and capped.
pub open spec fn graph_model_of(users: Seq<UserRatingsV>, cfg: GraphConfigV) -> GraphModelV {
    let normalized = normalize_all(users);
    let st = built_state(normalized);
    let ledges = affinity_from(st.nodes, st.edges, st.pairs, 0);
    let placed = layout_spec(st.nodes, cfg);
    GraphModelV {
        user_count: count_kind(st.nodes, NodeKind::User),
        anime_count: st.nodes.len() - count_kind(st.nodes, NodeKind::User),
        nodes: placed,
        edges: resolve_edges(placed, ledges, cfg.max_rendered_edges),
    }
}

/// Normalization leaves every normalized score within the weight bound:
/// it is a difference of a raw score and a mean, both within the raw
/// bound.
pub proof fn lemma_normalize_all_bounded(users: Seq<UserRatingsV>)
    requires
        dataset_raw_bounded(users),
    ensures
        normalized_bounded(normalize_all(users)),
{
    let out = normalize_all(users);
    assert forall|k: int, i: int|
        0 <= k < out.len() && 0 <= i < out[k].ratings.len() implies -WEIGHT_LIMIT_MILLI
        <= #[trigger] out[k].ratings[i].normalized_milli <= WEIGHT_LIMIT_MILLI by {
        assert(out[k] == normalize_user(users[k]));
        assert(crate::normalize::raw_bounded(users[k].ratings));
        lemma_mean_raw_bounded(users[k].ratings);
        assert(out[k].ratings[i].normalized_milli == users[k].ratings[i].raw_milli
            - crate::normalize::mean_raw(users[k].ratings));
        assert(-RAW_SCORE_LIMIT_MILLI <= users[k].ratings[i].raw_milli <= RAW_SCORE_LIMIT_MILLI);
    }
}

/// Runs the whole pipeline. The result is exactly the graph
/// [`graph_model_of`] assigns to this input and configuration — the same
/// input always yields the same nodes, positions and edges.
pub fn build_graph(dataset: Dataset, config: GraphConfig) -> (g: GraphModel)
    requires
        dataset_raw_bounded(dataset@),
    ensures
        g@ == graph_model_of(dataset@, config@),
{
    let ghost users0 = dataset@;
    let mut dataset = dataset;
    normalize_scores(&mut dataset);
    proof {
        lemma_normalize_all_bounded(users0);
    }
    let (mut nodes, edges) = build_nodes_and_edges(&dataset);
    let user_count = count_nodes_of_kind(&nodes, NodeKind::User);
    proof {
        lemma_count_kind_le_len(crate::builder::nodes_view(nodes@), NodeKind::User);
    }
    let anime_count = nodes.len() - user_count;
    let ghost built_nodes = crate::builder::nodes_view(nodes@);
    layout_nodes(&mut nodes, config);
    proof {
        assert(crate::builder::nodes_view(nodes@) == layout_spec(built_nodes, config@));
        assert(nodes@.len() == crate::builder::nodes_view(nodes@).len());
        assert(crate::builder::edges_valid(
            crate::builder::edges_view(edges@),
            nodes@.len() as int,
        ));
    }
    let render = project_edges(&nodes, &edges, config.max_rendered_edges);
    let g = GraphModel { user_count, anime_count, nodes, edges: render };
    proof {
        let goal = graph_model_of(users0, config@);
        assert(g@.nodes == goal.nodes);
        assert(render_view(render@) == goal.edges);
        assert(g@.edges =~= goal.edges);
        assert(g@ == goal);
    }
    g
}

} // verus!
