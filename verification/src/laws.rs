//! Laws the builder obeys, stated and proved over the ghost model: node
//! identifiers in the arena are unique, every rated anime has a node, the
//! decaying-average merge gives `(s1 + s2) / 2` after two observations of
//! a pair, and the affinity stroke width clamps at its two ends.

use crate::builder::{
    abs_i, built_state, find_from, initial_state, merge_into, rate_step, rates_from, stroke_of,
    upsert_spec, user_step, users_from, BuildStateV, AFFINITY_STROKE_MAX_MILLI,
    AFFINITY_STROKE_MIN_MILLI,
};
use crate::types::{
    NodeIdV, NodeKind, NodeV, PairEntryV, RatingV, UserRatingsV, SCORE_UNIT_MILLI,
};
use vstd::arithmetic::div_mod::lemma_div_is_ordered;
use vstd::prelude::*;

verus! {

/// No two nodes of the sequence carry the same identifier.
pub open spec fn ids_distinct(nodes: Seq<NodeV>) -> bool {
    forall|i: int, j: int| 0 <= i < j < nodes.len() ==> #[trigger] nodes[i].id != #[trigger] nodes[j].id
}

/// Some node of the sequence carries `id`.
pub open spec fn has_id(nodes: Seq<NodeV>, id: NodeIdV) -> bool {
    exists|i: int| 0 <= i < nodes.len() && #[trigger] nodes[i].id == id
}

/// A successful find returns an in-range index carrying the identifier.
proof fn lemma_find_from_some(nodes: Seq<NodeV>, id: NodeIdV, i: int)
    requires
        find_from(nodes, id, i) is Some,
    ensures
        ({
            let r = find_from(nodes, id, i)->Some_0;
            i <= r < nodes.len() && nodes[r].id == id
        }),
    decreases nodes.len() - i,
{
    if i < 0 || i >= nodes.len() {
    } else if nodes[i].id == id {
    } else {
        lemma_find_from_some(nodes, id, i + 1);
    }
}

/// A failed find means no node at or after `i` carries the identifier.
proof fn lemma_find_from_none(nodes: Seq<NodeV>, id: NodeIdV, i: int)
    requires
        0 <= i,
        find_from(nodes, id, i) is None,
    ensures
        forall|j: int| i <= j < nodes.len() ==> #[trigger] nodes[j].id != id,
    decreases nodes.len() - i,
{
    if i < 0 || i >= nodes.len() {
    } else {
        lemma_find_from_none(nodes, id, i + 1);
    }
}

/// Upsert keeps identifiers distinct, makes the upserted identifier
/// present, keeps every present identifier present, and only appends.
proof fn lemma_upsert_props(nodes: Seq<NodeV>, id: NodeIdV, label: Seq<char>, kind: NodeKind)
    ensures
        ids_distinct(nodes) ==> ids_distinct(upsert_spec(nodes, id, label, kind).0),
        has_id(upsert_spec(nodes, id, label, kind).0, id),
        forall|d: NodeIdV|
            has_id(nodes, d) ==> #[trigger] has_id(upsert_spec(nodes, id, label, kind).0, d),
{
    let out = upsert_spec(nodes, id, label, kind).0;
    match find_from(nodes, id, 0) {
        Some(r) => {
            lemma_find_from_some(nodes, id, 0);
            assert(nodes[r].id == id);
            assert(has_id(out, id));
        },
        None => {
            lemma_find_from_none(nodes, id, 0);
            assert(out[nodes.len() as int].id == id);
            assert(has_id(out, id));
            if ids_distinct(nodes) {
                assert forall|i: int, j: int| 0 <= i < j < out.len() implies #[trigger] out[i].id
                    != #[trigger] out[j].id by {
                    if j < nodes.len() {
                        assert(out[i] == nodes[i]);
                        assert(out[j] == nodes[j]);
                    } else {
                        assert(out[i] == nodes[i]);
                        assert(out[j].id == id);
                        assert(nodes[i].id != id);
                    }
                }
            }
            assert forall|d: NodeIdV| has_id(nodes, d) implies #[trigger] has_id(out, d) by {
                let w = choose|w: int| 0 <= w < nodes.len() && #[trigger] nodes[w].id == d;
                assert(out[w].id == d);
            }
        },
    }
}

/// The preference-edge fold keeps identifiers distinct, keeps every
/// present identifier present, and makes every rated anime's identifier
/// present.
proof fn lemma_rates_from_props(st: BuildStateV, uidx: int, rs: Seq<RatingV>, i: int)
    requires
        0 <= i,
    ensures
        ids_distinct(st.nodes) ==> ids_distinct(rates_from(st, uidx, rs, i).nodes),
        forall|d: NodeIdV|
            has_id(st.nodes, d) ==> #[trigger] has_id(rates_from(st, uidx, rs, i).nodes, d),
        forall|t: int|
            i <= t < rs.len() ==> #[trigger] has_id(
                rates_from(st, uidx, rs, i).nodes,
                NodeIdV::Anime(rs[t].anime_id),
            ),
    decreases rs.len() - i,
{
    if i < 0 || i >= rs.len() {
    } else {
        let st1 = rate_step(st, uidx, rs[i]);
        lemma_upsert_props(st.nodes, NodeIdV::Anime(rs[i].anime_id), rs[i].title, NodeKind::Anime);
        lemma_rates_from_props(st1, uidx, rs, i + 1);
        assert(has_id(st1.nodes, NodeIdV::Anime(rs[i].anime_id)));
        assert(has_id(rates_from(st1, uidx, rs, i + 1).nodes, NodeIdV::Anime(rs[i].anime_id)));
        assert forall|t: int| i <= t < rs.len() implies #[trigger] has_id(
            rates_from(st, uidx, rs, i).nodes,
            NodeIdV::Anime(rs[t].anime_id),
        ) by {
            if t > i {
                assert(has_id(rates_from(st1, uidx, rs, i + 1).nodes, NodeIdV::Anime(rs[t].anime_id)));
            }
        }
    }
}

/// One user's step keeps identifiers distinct, keeps every present
/// identifier present, and makes the user's own and every rated anime's
/// identifier present.
proof fn lemma_user_step_props(st: BuildStateV, u: UserRatingsV)
    ensures
        ids_distinct(st.nodes) ==> ids_distinct(user_step(st, u).nodes),
        forall|d: NodeIdV| has_id(st.nodes, d) ==> #[trigger] has_id(user_step(st, u).nodes, d),
        forall|t: int|
            0 <= t < u.ratings.len() ==> #[trigger] has_id(
                user_step(st, u).nodes,
                NodeIdV::Anime(u.ratings[t].anime_id),
            ),
        has_id(user_step(st, u).nodes, NodeIdV::User(u.user_id)),
{
    let id = NodeIdV::User(u.user_id);
    let lbl = crate::builder::user_label(u.user_id);
    lemma_upsert_props(st.nodes, id, lbl, NodeKind::User);
    let (nodes1, uidx) = upsert_spec(st.nodes, id, lbl, NodeKind::User);
    let st1 = BuildStateV { nodes: nodes1, edges: st.edges, pairs: st.pairs };
    lemma_rates_from_props(st1, uidx, u.ratings, 0);
}

/// The user fold keeps identifiers distinct, keeps every present
/// identifier present, and makes every remaining user's and rated anime's
/// identifier present.
proof fn lemma_users_from_props(st: BuildStateV, users: Seq<UserRatingsV>, k: int)
    requires
        0 <= k,
    ensures
        ids_distinct(st.nodes) ==> ids_distinct(users_from(st, users, k).nodes),
        forall|d: NodeIdV|
            has_id(st.nodes, d) ==> #[trigger] has_id(users_from(st, users, k).nodes, d),
        forall|t: int, i: int|
            k <= t < users.len() && 0 <= i < users[t].ratings.len() ==> has_id(
                users_from(st, users, k).nodes,
                NodeIdV::Anime(#[trigger] users[t].ratings[i].anime_id),
            ),
        forall|t: int|
            k <= t < users.len() ==> #[trigger] has_id(
                users_from(st, users, k).nodes,
                NodeIdV::User(users[t].user_id),
            ),
    decreases users.len() - k,
{
    if k < 0 || k >= users.len() {
    } else {
        let st1 = user_step(st, users[k]);
        lemma_user_step_props(st, users[k]);
        lemma_users_from_props(st1, users, k + 1);
        assert forall|t: int, i: int|
            k <= t < users.len() && 0 <= i < users[t].ratings.len() implies has_id(
            users_from(st, users, k).nodes,
            NodeIdV::Anime(#[trigger] users[t].ratings[i].anime_id),
        ) by {
            if t == k {
                assert(has_id(st1.nodes, NodeIdV::Anime(users[k].ratings[i].anime_id)));
                assert(has_id(
                    users_from(st1, users, k + 1).nodes,
                    NodeIdV::Anime(users[k].ratings[i].anime_id),
                ));
            } else {
                assert(k + 1 <= t < users.len());
                assert(has_id(
                    users_from(st1, users, k + 1).nodes,
                    NodeIdV::Anime(users[t].ratings[i].anime_id),
                ));
            }
        }
        assert forall|t: int| k <= t < users.len() implies #[trigger] has_id(
            users_from(st, users, k).nodes,
            NodeIdV::User(users[t].user_id),
        ) by {
            if t == k {
                assert(has_id(st1.nodes, NodeIdV::User(users[k].user_id)));
                assert(has_id(users_from(st1, users, k + 1).nodes, NodeIdV::User(users[k].user_id)));
            } else {
                assert(k + 1 <= t < users.len());
                assert(has_id(users_from(st1, users, k + 1).nodes, NodeIdV::User(users[t].user_id)));
            }
        }
    }
}

/// Node de-duplication: however many users rate an anime, and however
/// often, the built arena holds exactly one node per referenced anime
/// identifier — one node carries it, and no two nodes carry the same
/// identifier — and likewise one node per user identifier.
pub proof fn lemma_node_dedup(users: Seq<UserRatingsV>)
    ensures
        ids_distinct(built_state(users).nodes),
        forall|t: int, i: int|
            0 <= t < users.len() && 0 <= i < users[t].ratings.len() ==> has_id(
                built_state(users).nodes,
                NodeIdV::Anime(#[trigger] users[t].ratings[i].anime_id),
            ),
        forall|t: int|
            0 <= t < users.len() ==> #[trigger] has_id(
                built_state(users).nodes,
                NodeIdV::User(users[t].user_id),
            ),
{
    assert(ids_distinct(initial_state().nodes));
    lemma_users_from_props(initial_state(), users, 0);
}

/// Node de-duplication carried to the finished graph: the model's node
/// list has pairwise distinct identifiers, and every anime identifier any
/// user's rating references is carried by some node.
pub proof fn lemma_model_node_dedup(users: Seq<UserRatingsV>, cfg: crate::types::GraphConfigV)
    ensures
        ids_distinct(crate::pipeline::graph_model_of(users, cfg).nodes),
        forall|t: int, i: int|
            0 <= t < users.len() && 0 <= i < users[t].ratings.len() ==> has_id(
                crate::pipeline::graph_model_of(users, cfg).nodes,
                NodeIdV::Anime(#[trigger] users[t].ratings[i].anime_id),
            ),
{
    let normalized = crate::normalize::normalize_all(users);
    let st = built_state(normalized);
    let placed = crate::layout::layout_spec(st.nodes, cfg);
    lemma_node_dedup(normalized);
    assert forall|i: int, j: int| 0 <= i < j < placed.len() implies #[trigger] placed[i].id
        != #[trigger] placed[j].id by {
        assert(placed[i].id == st.nodes[i].id);
        assert(placed[j].id == st.nodes[j].id);
    }
    assert forall|t: int, i: int|
        0 <= t < users.len() && 0 <= i < users[t].ratings.len() implies has_id(
        placed,
        NodeIdV::Anime(#[trigger] users[t].ratings[i].anime_id),
    ) by {
        assert(normalized[t] == crate::normalize::normalize_user(users[t]));
        assert(normalized[t].ratings[i].anime_id == users[t].ratings[i].anime_id);
        let target = NodeIdV::Anime(users[t].ratings[i].anime_id);
        assert(has_id(st.nodes, target));
        let w = choose|w: int| 0 <= w < st.nodes.len() && #[trigger] st.nodes[w].id == target;
        assert(placed[w].id == target);
    }
}

/// The affinity merge law: a pair first observed with score `s1` and then
/// merged with score `s2` holds the running weight `(s1 + s2) / 2`,
/// because the first observation inserts `s1` and the second merges it as
/// `(w + s2) / 2` with `w == s1`.
pub proof fn lemma_affinity_merge_law(k: int, s1: int, s2: int)
    ensures
        merge_into(merge_into(Seq::<PairEntryV>::empty(), k, s1), k, s2) =~= seq![
            PairEntryV { key: k, weight_milli: (s1 + s2) / 2 },
        ],
{
    let m1 = merge_into(Seq::<PairEntryV>::empty(), k, s1);
    assert(m1 =~= seq![PairEntryV { key: k, weight_milli: s1 }]);
    let m2 = merge_into(m1, k, s2);
    assert(m1[0].key == k);
    assert(m2 =~= seq![PairEntryV { key: k, weight_milli: (s1 + s2) / 2 }]);
}

/// The stroke-width clamp: a weight of magnitude zero earns exactly the
/// minimum width `0.35`, and any magnitude of twenty score units or more
/// earns exactly the maximum width `2.2`.
pub proof fn lemma_stroke_width_clamp(w: int)
    ensures
        w == 0 ==> stroke_of(w) == AFFINITY_STROKE_MIN_MILLI,
        abs_i(w) >= 20 * SCORE_UNIT_MILLI ==> stroke_of(w) == AFFINITY_STROKE_MAX_MILLI,
{
    if abs_i(w) >= 20 * SCORE_UNIT_MILLI {
        lemma_div_is_ordered(240_000, abs_i(w) * 12, 100);
        assert(240_000int / 100 == 2400);
    }
}

} // verus!
