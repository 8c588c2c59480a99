//! The Graph Builder: node de-duplication by identifier, one preference
//! edge per (user, rating) pair in input order, and the running pairwise
//! anime-affinity weights, merged with the decaying-average rule and kept
//! sorted by canonical pair key so that affinity edges are emitted in a
//! deterministic order.

use crate::math::{floor_div_i64, lemma_floor_div_bounds};
use crate::types::{
    Color, Dataset, LogicalEdge, LogicalEdgeV, Node, NodeId, NodeIdV, NodeKind, NodeV, PairEntry,
    PairEntryV, Position, PositionV, RatingV, UserRatingsV, WEIGHT_LIMIT_MILLI,
};
use vstd::arithmetic::div_mod::lemma_fundamental_div_mod;
use vstd::prelude::*;
use vstd::string::StrSliceExecFns;
use vstd::string::StringExecFns;

verus! {

/// Fixed stroke width of a preference edge: 1.5 pixels.
pub const PREFERENCE_STROKE_MILLI: i64 = 1500;

/// Display radius of a user node: 7 pixels.
pub const USER_RADIUS_MILLI: i64 = 7000;

/// Display radius of an anime node: 3.8 pixels.
pub const ANIME_RADIUS_MILLI: i64 = 3800;

/// Minimum affinity stroke width: 0.35 pixels.
pub const AFFINITY_STROKE_MIN_MILLI: i64 = 350;

/// Maximum affinity stroke width: 2.2 pixels.
pub const AFFINITY_STROKE_MAX_MILLI: i64 = 2200;

/// The factor an anime pair key packs its smaller identifier with; anime
/// identifiers are below it, so numeric order of packed keys is exactly
/// lexicographic order of canonical `(smaller, larger)` pairs.
pub const PAIR_KEY_BASE: u64 = 0x1_0000_0000;

/// The ghost state the builder threads through its folds: the node arena,
/// the logical edges so far, and the sorted pair-weight entries.
pub struct BuildStateV {
    pub nodes: Seq<NodeV>,
    pub edges: Seq<LogicalEdgeV>,
    pub pairs: Seq<PairEntryV>,
}

/// The ghost image of a node vector.
pub open spec fn nodes_view(ns: Seq<Node>) -> Seq<NodeV> {
    ns.map_values(|n: Node| n@)
}

/// The ghost image of a logical-edge vector.
pub open spec fn edges_view(es: Seq<LogicalEdge>) -> Seq<LogicalEdgeV> {
    es.map_values(|e: LogicalEdge| e@)
}

/// The ghost image of a pair-entry vector.
pub open spec fn pairs_view(ps: Seq<PairEntry>) -> Seq<PairEntryV> {
    ps.map_values(|p: PairEntry| p@)
}

/// The index of the first node at or after `i` carrying `id`, if any.
pub open spec fn find_from(nodes: Seq<NodeV>, id: NodeIdV, i: int) -> Option<int>
    decreases nodes.len() - i,
{
    if i < 0 || i >= nodes.len() {
        None
    } else if nodes[i].id == id {
        Some(i)
    } else {
        find_from(nodes, id, i + 1)
    }
}

/// The position every node holds until the layout engine runs: radius zero,
/// so the node sits on the canvas centre.
pub open spec fn placeholder_pos() -> PositionV {
    PositionV { radius_x_milli: 0, radius_y_milli: 0, turn_num: 0, turn_den: 1 }
}

/// A freshly created node: the kind decides radius and colour, the position
/// is the placeholder.
pub open spec fn new_node_v(id: NodeIdV, label: Seq<char>, kind: NodeKind) -> NodeV {
    NodeV {
        id,
        label,
        kind,
        pos: placeholder_pos(),
        radius_milli: if kind == NodeKind::User {
            USER_RADIUS_MILLI as int
        } else {
            ANIME_RADIUS_MILLI as int
        },
        color: if kind == NodeKind::User {
            Color::UserNode
        } else {
            Color::AnimeNode
        },
    }
}

/// Insert-or-lookup on the node arena: an already-mapped identifier returns
/// its existing index and changes nothing — the first writer's label and
/// kind win — and a new identifier is appended.
pub open spec fn upsert_spec(
    nodes: Seq<NodeV>,
    id: NodeIdV,
    label: Seq<char>,
    kind: NodeKind,
) -> (Seq<NodeV>, int) {
    match find_from(nodes, id, 0) {
        Some(i) => (nodes, i),
        None => (nodes.push(new_node_v(id, label, kind)), nodes.len() as int),
    }
}

/// A user node's display label: `"User "` followed by the first eight
/// characters of the user identifier.
pub open spec fn user_label(uid: Seq<char>) -> Seq<char> {
    "User "@ + uid.take(if uid.len() < 8 { uid.len() as int } else { 8 })
}

/// The canonical packed key of an unordered anime pair: the smaller
/// identifier first.
pub open spec fn pair_key(a: int, b: int) -> int {
    if a < b {
        a * (PAIR_KEY_BASE as int) + b
    } else {
        b * (PAIR_KEY_BASE as int) + a
    }
}

/// The score one co-rated pair contributes: the floor of the mean of the
/// two normalized scores.
pub open spec fn pair_score(l: RatingV, r: RatingV) -> int {
    (l.normalized_milli + r.normalized_milli) / 2
}

/// The decaying-average merge: an absent key is inserted with the observed
/// score; a present key's weight `w` becomes the floor of `(w + s) / 2`.
/// Entries stay sorted by key.
pub open spec fn merge_into(m: Seq<PairEntryV>, k: int, s: int) -> Seq<PairEntryV>
    decreases m.len(),
{
    if m.len() == 0 {
        seq![PairEntryV { key: k, weight_milli: s }]
    } else if k < m[0].key {
        seq![PairEntryV { key: k, weight_milli: s }] + m
    } else if k == m[0].key {
        seq![PairEntryV { key: k, weight_milli: (m[0].weight_milli + s) / 2 }] + m.drop_first()
    } else {
        seq![m[0]] + merge_into(m.drop_first(), k, s)
    }
}

/// Pair entries strictly sorted by key (hence each key occurs once) with
/// every weight inside the fixed-point weight bound.
pub open spec fn pairs_wf(m: Seq<PairEntryV>) -> bool {
    &&& forall|i: int, j: int| 0 <= i < j < m.len() ==> #[trigger] m[i].key < #[trigger] m[j].key
    &&& forall|i: int|
        0 <= i < m.len() ==> -WEIGHT_LIMIT_MILLI <= #[trigger] m[i].weight_milli
            <= WEIGHT_LIMIT_MILLI
}

/// Merging a bounded score into a well-formed pair sequence keeps it well
/// formed.
pub proof fn lemma_merge_into_wf(m: Seq<PairEntryV>, k: int, s: int)
    requires
        pairs_wf(m),
        -WEIGHT_LIMIT_MILLI <= s <= WEIGHT_LIMIT_MILLI,
    ensures
        pairs_wf(merge_into(m, k, s)),
    decreases m.len(),
{
    let out = merge_into(m, k, s);
    if m.len() == 0 {
    } else if k < m[0].key {
        assert forall|i: int, j: int| 0 <= i < j < out.len() implies #[trigger] out[i].key
            < #[trigger] out[j].key by {
            if i > 0 {
                assert(out[i] == m[i - 1]);
                assert(out[j] == m[j - 1]);
            }
        }
    } else if k == m[0].key {
        lemma_floor_div_bounds(
            m[0].weight_milli + s,
            2,
            -WEIGHT_LIMIT_MILLI as int,
            WEIGHT_LIMIT_MILLI as int,
        );
        assert forall|i: int, j: int| 0 <= i < j < out.len() implies #[trigger] out[i].key
            < #[trigger] out[j].key by {
            if i > 0 {
                assert(out[i] == m.drop_first()[i - 1]);
            }
            assert(out[j] == m.drop_first()[j - 1]);
        }
    } else {
        assert(pairs_wf(m.drop_first())) by {
            assert(forall|i: int|
                0 <= i < m.drop_first().len() ==> #[trigger] m.drop_first()[i] == m[i + 1]);
        }
        lemma_merge_into_wf(m.drop_first(), k, s);
        let tail = merge_into(m.drop_first(), k, s);
        assert(forall|i: int|
            0 <= i < tail.len() ==> #[trigger] tail[i].key == k || exists|j: int|
                0 <= j < m.drop_first().len() && #[trigger] tail[i].key == m.drop_first()[j].key)
            by {
            lemma_merge_into_keys(m.drop_first(), k, s);
        }
        assert forall|i: int, j: int| 0 <= i < j < out.len() implies #[trigger] out[i].key
            < #[trigger] out[j].key by {
            if i == 0 {
                assert(out[0] == m[0]);
                assert(out[j] == tail[j - 1]);
            } else {
                assert(out[i] == tail[i - 1]);
                assert(out[j] == tail[j - 1]);
            }
        }
    }
}

/// Every key of a merge result is the merged key or one of the old keys.
pub proof fn lemma_merge_into_keys(m: Seq<PairEntryV>, k: int, s: int)
    ensures
        forall|i: int|
            0 <= i < merge_into(m, k, s).len() ==> #[trigger] merge_into(m, k, s)[i].key == k
                || exists|j: int| 0 <= j < m.len() && merge_into(m, k, s)[i].key == #[trigger] m[j].key,
    decreases m.len(),
{
    let out = merge_into(m, k, s);
    if m.len() == 0 {
    } else if k < m[0].key {
        assert forall|i: int| 0 <= i < out.len() implies #[trigger] out[i].key == k || exists|j: int|
            0 <= j < m.len() && out[i].key == #[trigger] m[j].key by {
            if i > 0 {
                assert(out[i] == m[i - 1]);
                assert(out[i].key == m[i - 1].key);
            }
        }
    } else if k == m[0].key {
        assert forall|i: int| 0 <= i < out.len() implies #[trigger] out[i].key == k || exists|j: int|
            0 <= j < m.len() && out[i].key == #[trigger] m[j].key by {
            if i > 0 {
                assert(out[i] == m.drop_first()[i - 1]);
                assert(out[i].key == m[i].key);
            }
        }
    } else {
        lemma_merge_into_keys(m.drop_first(), k, s);
        let tail = merge_into(m.drop_first(), k, s);
        assert forall|i: int| 0 <= i < out.len() implies #[trigger] out[i].key == k || exists|j: int|
            0 <= j < m.len() && out[i].key == #[trigger] m[j].key by {
            if i == 0 {
                assert(out[0] == m[0]);
                assert(out[0].key == m[0].key);
            } else {
                assert(out[i] == tail[i - 1]);
                if tail[i - 1].key != k {
                    let j0 = choose|j0: int|
                        0 <= j0 < m.drop_first().len() && tail[i - 1].key == m.drop_first()[j0].key;
                    assert(m.drop_first()[j0] == m[j0 + 1]);
                    assert(out[i].key == m[j0 + 1].key);
                }
            }
        }
    }
}

/// The magnitude of an integer.
pub open spec fn abs_i(w: int) -> int {
    if w < 0 {
        -w
    } else {
        w
    }
}

/// Clamping to a closed interval.
pub open spec fn clamp_i(v: int, lo: int, hi: int) -> int {
    if v < lo {
        lo
    } else if v > hi {
        hi
    } else {
        v
    }
}

/// The stroke width an affinity weight earns:
/// `clamp(0.35 + |weight| * 0.12, 0.35, 2.2)` in milli-pixels, with the
/// scaling floor-divided.
pub open spec fn stroke_of(w: int) -> int {
    clamp_i(
        AFFINITY_STROKE_MIN_MILLI + abs_i(w) * 12 / 100,
        AFFINITY_STROKE_MIN_MILLI as int,
        AFFINITY_STROKE_MAX_MILLI as int,
    )
}

/// Computes the affinity stroke width of a weight.
pub fn stroke_width_milli(w: i64) -> (r: i64)
    requires
        -WEIGHT_LIMIT_MILLI <= w <= WEIGHT_LIMIT_MILLI,
    ensures
        r == stroke_of(w as int),
        AFFINITY_STROKE_MIN_MILLI <= r <= AFFINITY_STROKE_MAX_MILLI,
{
    let a: i64 = if w < 0 {
        -w
    } else {
        w
    };
    let scaled = floor_div_i64(a * 12, 100);
    proof {
        lemma_floor_div_bounds(a as int * 12, 100, 0, WEIGHT_LIMIT_MILLI as int);
    }
    let v = AFFINITY_STROKE_MIN_MILLI + scaled;
    if v > AFFINITY_STROKE_MAX_MILLI {
        AFFINITY_STROKE_MAX_MILLI
    } else {
        v
    }
}

/// Finds the first node carrying `id`, if any.
pub fn find_node(nodes: &Vec<Node>, id: &NodeId) -> (r: Option<usize>)
    ensures
        match r {
            Some(i) => i < nodes@.len() && find_from(nodes_view(nodes@), id@, 0) == Some(i as int),
            None => find_from(nodes_view(nodes@), id@, 0) is None,
        },
{
    let ghost nv = nodes_view(nodes@);
    let mut i: usize = 0;
    while i < nodes.len()
        invariant
            nv == nodes_view(nodes@),
            0 <= i <= nodes@.len(),
            nv.len() == nodes@.len(),
            find_from(nv, id@, 0) == find_from(nv, id@, i as int),
        decreases nodes.len() - i,
    {
        proof {
            assert(nv[i as int] == nodes@[i as int]@);
        }
        if crate::types::node_id_eq(&nodes[i].id, id) {
            return Some(i);
        }
        i = i + 1;
    }
    None
}

/// Insert-or-lookup on the node arena; returns the node's index.
pub fn upsert_node(nodes: &mut Vec<Node>, id: NodeId, label: String, kind: NodeKind) -> (idx:
    usize)
    ensures
        (nodes_view(final(nodes)@), idx as int) == upsert_spec(
            nodes_view(old(nodes)@),
            id@,
            label@,
            kind,
        ),
        idx < final(nodes)@.len(),
        old(nodes)@.len() <= final(nodes)@.len(),
        forall|j: int| 0 <= j < old(nodes)@.len() ==> final(nodes)@[j] == #[trigger] old(nodes)@[j],
{
    let found = find_node(nodes, &id);
    match found {
        Some(i) => i,
        None => {
            let radius_milli: i64 = match kind {
                NodeKind::User => USER_RADIUS_MILLI,
                NodeKind::Anime => ANIME_RADIUS_MILLI,
            };
            let color = match kind {
                NodeKind::User => Color::UserNode,
                NodeKind::Anime => Color::AnimeNode,
            };
            let node = Node {
                id,
                label,
                kind,
                pos: Position { radius_x_milli: 0, radius_y_milli: 0, turn_num: 0, turn_den: 1 },
                radius_milli,
                color,
            };
            let idx = nodes.len();
            proof {
                assert(node@ == new_node_v(node.id@, node.label@, kind));
            }
            nodes.push(node);
            proof {
                assert(nodes_view(nodes@) =~= nodes_view(old(nodes)@).push(
                    new_node_v(id@, label@, kind),
                ));
            }
            idx
        },
    }
}

/// Builds a user node's display label.
pub fn make_user_label(user_id: &String) -> (r: String)
    ensures
        r@ == user_label(user_id@),
{
    let n = user_id.as_str().unicode_len();
    let k: usize = if n < 8 {
        n
    } else {
        8
    };
    let prefix = user_id.as_str().substring_char(0, k);
    let label = String::from_str("User ").concat(prefix);
    proof {
        assert(user_id@.subrange(0, k as int) =~= user_id@.take(
            if user_id@.len() < 8 {
                user_id@.len() as int
            } else {
                8
            },
        ));
    }
    label
}

/// Computes the canonical packed pair key of two anime identifiers.
pub fn make_pair_key(a: u32, b: u32) -> (k: u64)
    ensures
        k as int == pair_key(a as int, b as int),
{
    if a < b {
        (a as u64) * PAIR_KEY_BASE + (b as u64)
    } else {
        (b as u64) * PAIR_KEY_BASE + (a as u64)
    }
}

/// Merges one observed pair score into the sorted accumulator.
pub fn merge_pair(pairs: &mut Vec<PairEntry>, key: u64, score: i64)
    requires
        pairs_wf(pairs_view(old(pairs)@)),
        -WEIGHT_LIMIT_MILLI <= score <= WEIGHT_LIMIT_MILLI,
    ensures
        pairs_view(final(pairs)@) == merge_into(pairs_view(old(pairs)@), key as int, score as int),
        pairs_wf(pairs_view(final(pairs)@)),
{
    let ghost m0 = pairs_view(old(pairs)@);
    proof {
        assert(m0.skip(0) =~= m0);
        assert(m0.take(0) + merge_into(m0.skip(0), key as int, score as int) =~= merge_into(
            m0,
            key as int,
            score as int,
        ));
    }
    let mut i: usize = 0;
    while i < pairs.len() && pairs[i].key < key
        invariant
            m0 == pairs_view(pairs@),
            pairs_wf(m0),
            -WEIGHT_LIMIT_MILLI <= score <= WEIGHT_LIMIT_MILLI,
            0 <= i <= pairs@.len(),
            m0.len() == pairs@.len(),
            forall|j: int| 0 <= j < i ==> #[trigger] m0[j].key < key as int,
            merge_into(m0, key as int, score as int) == m0.take(i as int) + merge_into(
                m0.skip(i as int),
                key as int,
                score as int,
            ),
        decreases pairs.len() - i,
    {
        proof {
            assert(m0[i as int] == pairs@[i as int]@);
            let rest = m0.skip(i as int);
            assert(rest[0] == m0[i as int]);
            assert(rest.drop_first() =~= m0.skip(i as int + 1));
            assert(seq![rest[0]] + merge_into(rest.drop_first(), key as int, score as int)
                == merge_into(rest, key as int, score as int));
            assert(m0.take(i as int + 1) =~= m0.take(i as int) + seq![m0[i as int]]);
            assert(m0.take(i as int) + merge_into(m0.skip(i as int), key as int, score as int)
                =~= m0.take(i as int + 1) + merge_into(
                m0.skip(i as int + 1),
                key as int,
                score as int,
            ));
        }
        i = i + 1;
    }
    proof {
        assert(m0.take(m0.len() as int) =~= m0);
    }
    if i == pairs.len() {
        pairs.push(PairEntry { key, weight_milli: score });
        proof {
            assert(m0.skip(i as int) =~= Seq::<PairEntryV>::empty());
            assert(pairs_view(pairs@) =~= m0.take(i as int) + merge_into(
                m0.skip(i as int),
                key as int,
                score as int,
            ));
            lemma_merge_into_wf(m0, key as int, score as int);
        }
    } else {
        proof {
            assert(m0[i as int] == pairs@[i as int]@);
            assert(m0.skip(i as int)[0] == m0[i as int]);
        }
        if pairs[i].key == key {
            let w = pairs[i].weight_milli;
            let merged = floor_div_i64(w + score, 2);
            proof {
                lemma_floor_div_bounds(
                    w as int + score as int,
                    2,
                    -WEIGHT_LIMIT_MILLI as int,
                    WEIGHT_LIMIT_MILLI as int,
                );
            }
            pairs[i].weight_milli = merged;
            proof {
                let rest = m0.skip(i as int);
                assert(rest.drop_first() =~= m0.skip(i as int + 1));
                assert(pairs_view(pairs@) =~= m0.take(i as int) + merge_into(
                    rest,
                    key as int,
                    score as int,
                ));
                lemma_merge_into_wf(m0, key as int, score as int);
            }
        } else {
            pairs.insert(i, PairEntry { key, weight_milli: score });
            proof {
                let rest = m0.skip(i as int);
                assert(pairs_view(pairs@) =~= m0.take(i as int) + merge_into(
                    rest,
                    key as int,
                    score as int,
                ));
                lemma_merge_into_wf(m0, key as int, score as int);
            }
        }
    }
}

/// Preference-edge step: upsert the rated anime's node, then append one
/// preference edge from the user's node to it.
pub open spec fn rate_step(st: BuildStateV, user_idx: int, r: RatingV) -> BuildStateV {
    let (nodes1, aidx) = upsert_spec(st.nodes, NodeIdV::Anime(r.anime_id), r.title, NodeKind::Anime);
    BuildStateV {
        nodes: nodes1,
        edges: st.edges.push(
            LogicalEdgeV {
                source: user_idx,
                target: aidx,
                color: Color::PreferenceEdge,
                stroke_milli: PREFERENCE_STROKE_MILLI as int,
            },
        ),
        pairs: st.pairs,
    }
}

/// Folds [`rate_step`] over the ratings from index `i` on, in order.
pub open spec fn rates_from(st: BuildStateV, user_idx: int, rs: Seq<RatingV>, i: int) -> BuildStateV
    decreases rs.len() - i,
{
    if i < 0 || i >= rs.len() {
        st
    } else {
        rates_from(rate_step(st, user_idx, rs[i]), user_idx, rs, i + 1)
    }
}

/// Folds the affinity merge over every unordered pair `i < j` of one user's
/// ratings, pairs in the input order `(0,1), (0,2), …, (1,2), …`.
pub open spec fn pairs_from(m: Seq<PairEntryV>, rs: Seq<RatingV>, i: int, j: int) -> Seq<
    PairEntryV,
>
    decreases rs.len() - i, rs.len() + 1 - j,
{
    if i < 0 || i >= rs.len() {
        m
    } else if j >= rs.len() {
        pairs_from(m, rs, i + 1, i + 2)
    } else if j < i + 1 {
        pairs_from(m, rs, i, i + 1)
    } else {
        pairs_from(
            merge_into(m, pair_key(rs[i].anime_id, rs[j].anime_id), pair_score(rs[i], rs[j])),
            rs,
            i,
            j + 1,
        )
    }
}

/// One whole user: upsert the user node, add one preference edge per
/// rating, then merge every co-rated pair into the weight accumulator.
pub open spec fn user_step(st: BuildStateV, u: UserRatingsV) -> BuildStateV {
    let (nodes1, uidx) = upsert_spec(
        st.nodes,
        NodeIdV::User(u.user_id),
        user_label(u.user_id),
        NodeKind::User,
    );
    let st1 = BuildStateV { nodes: nodes1, edges: st.edges, pairs: st.pairs };
    let st2 = rates_from(st1, uidx, u.ratings, 0);
    BuildStateV { nodes: st2.nodes, edges: st2.edges, pairs: pairs_from(st2.pairs, u.ratings, 0, 1) }
}

/// Folds [`user_step`] over the users from index `k` on, in order.
pub open spec fn users_from(st: BuildStateV, users: Seq<UserRatingsV>, k: int) -> BuildStateV
    decreases users.len() - k,
{
    if k < 0 || k >= users.len() {
        st
    } else {
        users_from(user_step(st, users[k]), users, k + 1)
    }
}

/// The empty builder state.
pub open spec fn initial_state() -> BuildStateV {
    BuildStateV { nodes: Seq::empty(), edges: Seq::empty(), pairs: Seq::empty() }
}

/// The builder state after all users: nodes, preference edges, pair
/// weights.
pub open spec fn built_state(users: Seq<UserRatingsV>) -> BuildStateV {
    users_from(initial_state(), users, 0)
}

/// Affinity-edge step: unpack the canonical pair, look both anime nodes up,
/// and append one affinity edge — or, were either node missing, append
/// nothing.
pub open spec fn affinity_step(
    nodes: Seq<NodeV>,
    edges: Seq<LogicalEdgeV>,
    p: PairEntryV,
) -> Seq<LogicalEdgeV> {
    let left = p.key / (PAIR_KEY_BASE as int);
    let right = p.key % (PAIR_KEY_BASE as int);
    match (find_from(nodes, NodeIdV::Anime(left), 0), find_from(nodes, NodeIdV::Anime(right), 0)) {
        (Some(s), Some(t)) => edges.push(
            LogicalEdgeV {
                source: s,
                target: t,
                color: Color::AffinityEdge,
                stroke_milli: stroke_of(p.weight_milli),
            },
        ),
        _ => edges,
    }
}

/// Folds [`affinity_step`] over the pair entries from index `i` on, in
/// their sorted order.
pub open spec fn affinity_from(
    nodes: Seq<NodeV>,
    edges: Seq<LogicalEdgeV>,
    pairs: Seq<PairEntryV>,
    i: int,
) -> Seq<LogicalEdgeV>
    decreases pairs.len() - i,
{
    if i < 0 || i >= pairs.len() {
        edges
    } else {
        affinity_from(nodes, affinity_step(nodes, edges, pairs[i]), pairs, i + 1)
    }
}

/// The full logical-edge sequence: every preference edge in input order,
/// then every affinity edge in sorted pair-key order.
pub open spec fn logical_edges(users: Seq<UserRatingsV>) -> Seq<LogicalEdgeV> {
    let st = built_state(users);
    affinity_from(st.nodes, st.edges, st.pairs, 0)
}

/// Every normalized score of every user lies within the weight bound, as
/// the normalizer guarantees.
pub open spec fn normalized_bounded(users: Seq<UserRatingsV>) -> bool {
    forall|k: int, i: int|
        0 <= k < users.len() && 0 <= i < users[k].ratings.len() ==> -WEIGHT_LIMIT_MILLI
            <= #[trigger] users[k].ratings[i].normalized_milli <= WEIGHT_LIMIT_MILLI
}

/// Every edge's endpoints index into a node arena of length `n`.
pub open spec fn edges_valid(edges: Seq<LogicalEdgeV>, n: int) -> bool {
    forall|i: int|
        0 <= i < edges.len() ==> 0 <= #[trigger] edges[i].source < n && 0 <= edges[i].target < n
}

/// The ghost state a concrete node, edge and pair vector stand for.
pub open spec fn cur_state(ns: Seq<Node>, es: Seq<LogicalEdge>, ps: Seq<PairEntry>) -> BuildStateV {
    BuildStateV { nodes: nodes_view(ns), edges: edges_view(es), pairs: pairs_view(ps) }
}

/// Runs the Graph Builder over a normalized dataset: the de-duplicated node
/// arena and the full logical-edge sequence, preference edges first in
/// input order, affinity edges after in sorted pair-key order.
pub fn build_nodes_and_edges(dataset: &Dataset) -> (out: (Vec<Node>, Vec<LogicalEdge>))
    requires
        normalized_bounded(dataset@),
    ensures
        nodes_view(out.0@) == built_state(dataset@).nodes,
        edges_view(out.1@) == logical_edges(dataset@),
        edges_valid(edges_view(out.1@), out.0@.len() as int),
{
    let ghost usersv = dataset@;
    let mut nodes: Vec<Node> = Vec::new();
    let mut edges: Vec<LogicalEdge> = Vec::new();
    let mut pairs: Vec<PairEntry> = Vec::new();
    proof {
        assert(nodes_view(nodes@) =~= initial_state().nodes);
        assert(edges_view(edges@) =~= initial_state().edges);
        assert(pairs_view(pairs@) =~= initial_state().pairs);
        assert(cur_state(nodes@, edges@, pairs@) == initial_state());
    }
    let mut k: usize = 0;
    while k < dataset.users.len()
        invariant
            normalized_bounded(usersv),
            usersv == dataset@,
            usersv.len() == dataset.users@.len(),
            0 <= k <= usersv.len(),
            pairs_wf(pairs_view(pairs@)),
            edges_valid(edges_view(edges@), nodes@.len() as int),
            users_from(cur_state(nodes@, edges@, pairs@), usersv, k as int) == built_state(usersv),
        decreases dataset.users@.len() - k,
    {
        let ghost st_before = cur_state(nodes@, edges@, pairs@);
        let ghost u = usersv[k as int];
        proof {
            assert(usersv[k as int] == dataset.users@[k as int]@);
        }
        let label = make_user_label(&dataset.users[k].user_id);
        let uid = NodeId::User(dataset.users[k].user_id.clone());
        let user_idx = upsert_node(&mut nodes, uid, label, NodeKind::User);
        let ghost st1 = BuildStateV {
            nodes: nodes_view(nodes@),
            edges: st_before.edges,
            pairs: st_before.pairs,
        };
        proof {
            assert((st1.nodes, user_idx as int) == upsert_spec(
                st_before.nodes,
                NodeIdV::User(u.user_id),
                user_label(u.user_id),
                NodeKind::User,
            ));
        }
        let ratings_len = dataset.users[k].ratings.len();
        proof {
            assert(u.ratings.len() == ratings_len);
        }
        let mut i: usize = 0;
        while i < ratings_len
            invariant
                normalized_bounded(usersv),
                usersv == dataset@,
                usersv.len() == dataset.users@.len(),
                0 <= k < usersv.len(),
                u == usersv[k as int],
                u == dataset.users@[k as int]@,
                ratings_len == dataset.users@[k as int].ratings@.len(),
                u.ratings.len() == ratings_len,
                0 <= i <= ratings_len,
                user_idx < nodes@.len(),
                pairs_view(pairs@) == st1.pairs,
                pairs_wf(pairs_view(pairs@)),
                edges_valid(edges_view(edges@), nodes@.len() as int),
                rates_from(cur_state(nodes@, edges@, pairs@), user_idx as int, u.ratings, i as int)
                    == rates_from(st1, user_idx as int, u.ratings, 0),
            decreases ratings_len - i,
        {
            proof {
                assert(u.ratings[i as int] == dataset.users@[k as int].ratings@[i as int]@);
            }
            let ghost st_cur = cur_state(nodes@, edges@, pairs@);
            let aid = NodeId::Anime(dataset.users[k].ratings[i].anime_id);
            let title = dataset.users[k].ratings[i].title.clone();
            let anime_idx = upsert_node(&mut nodes, aid, title, NodeKind::Anime);
            proof {
                assert((nodes_view(nodes@), anime_idx as int) == upsert_spec(
                    st_cur.nodes,
                    NodeIdV::Anime(u.ratings[i as int].anime_id),
                    u.ratings[i as int].title,
                    NodeKind::Anime,
                ));
            }
            let edge = LogicalEdge {
                source: user_idx,
                target: anime_idx,
                color: Color::PreferenceEdge,
                stroke_milli: PREFERENCE_STROKE_MILLI,
            };
            edges.push(edge);
            proof {
                assert(edges_view(edges@) =~= st_cur.edges.push(edge@));
                assert(cur_state(nodes@, edges@, pairs@) == rate_step(
                    st_cur,
                    user_idx as int,
                    u.ratings[i as int],
                ));
            }
            i = i + 1;
        }
        let ghost st2 = rates_from(st1, user_idx as int, u.ratings, 0);
        proof {
            assert(cur_state(nodes@, edges@, pairs@) == st2);
        }
        let mut pi: usize = 0;
        while pi < ratings_len
            invariant
                normalized_bounded(usersv),
                usersv == dataset@,
                usersv.len() == dataset.users@.len(),
                0 <= k < usersv.len(),
                u == usersv[k as int],
                u == dataset.users@[k as int]@,
                ratings_len == dataset.users@[k as int].ratings@.len(),
                u.ratings.len() == ratings_len,
                0 <= pi <= ratings_len,
                nodes_view(nodes@) == st2.nodes,
                edges_view(edges@) == st2.edges,
                edges_valid(edges_view(edges@), nodes@.len() as int),
                pairs_wf(pairs_view(pairs@)),
                pairs_from(pairs_view(pairs@), u.ratings, pi as int, pi as int + 1) == pairs_from(
                    st2.pairs,
                    u.ratings,
                    0,
                    1,
                ),
            decreases ratings_len - pi,
        {
            let mut pj: usize = pi + 1;
            while pj < ratings_len
                invariant
                    normalized_bounded(usersv),
                    usersv == dataset@,
                    usersv.len() == dataset.users@.len(),
                    0 <= k < usersv.len(),
                    u == usersv[k as int],
                    u == dataset.users@[k as int]@,
                    ratings_len == dataset.users@[k as int].ratings@.len(),
                    u.ratings.len() == ratings_len,
                    0 <= pi < ratings_len,
                    pi < pj <= ratings_len,
                    nodes_view(nodes@) == st2.nodes,
                    edges_view(edges@) == st2.edges,
                    edges_valid(edges_view(edges@), nodes@.len() as int),
                    pairs_wf(pairs_view(pairs@)),
                    pairs_from(pairs_view(pairs@), u.ratings, pi as int, pj as int) == pairs_from(
                        st2.pairs,
                        u.ratings,
                        0,
                        1,
                    ),
                decreases ratings_len - pj,
            {
                proof {
                    assert(u.ratings[pi as int] == dataset.users@[k as int].ratings@[pi as int]@);
                    assert(u.ratings[pj as int] == dataset.users@[k as int].ratings@[pj as int]@);
                }
                let key = make_pair_key(
                    dataset.users[k].ratings[pi].anime_id,
                    dataset.users[k].ratings[pj].anime_id,
                );
                let nl = dataset.users[k].ratings[pi].normalized_milli;
                let nr = dataset.users[k].ratings[pj].normalized_milli;
                let score = floor_div_i64(nl + nr, 2);
                proof {
                    lemma_floor_div_bounds(
                        nl as int + nr as int,
                        2,
                        -WEIGHT_LIMIT_MILLI as int,
                        WEIGHT_LIMIT_MILLI as int,
                    );
                }
                merge_pair(&mut pairs, key, score);
                pj = pj + 1;
            }
            pi = pi + 1;
        }
        proof {
            assert(pairs_view(pairs@) == pairs_from(st2.pairs, u.ratings, 0, 1));
            assert(cur_state(nodes@, edges@, pairs@) == user_step(st_before, u));
        }
        k = k + 1;
    }
    let ghost st = built_state(usersv);
    proof {
        assert(cur_state(nodes@, edges@, pairs@) == st);
    }
    let ghost nv = st.nodes;
    let ghost e0 = st.edges;
    let ghost pv = st.pairs;
    let mut ai: usize = 0;
    while ai < pairs.len()
        invariant
            nodes_view(nodes@) == nv,
            pairs_view(pairs@) == pv,
            pairs_wf(pv),
            pv.len() == pairs@.len(),
            0 <= ai <= pairs@.len(),
            edges_valid(edges_view(edges@), nodes@.len() as int),
            affinity_from(nv, edges_view(edges@), pv, ai as int) == affinity_from(nv, e0, pv, 0),
        decreases pairs.len() - ai,
    {
        proof {
            assert(pv[ai as int] == pairs@[ai as int]@);
        }
        let ghost e_cur = edges_view(edges@);
        let key = pairs[ai].key;
        let left_u64 = key / PAIR_KEY_BASE;
        let right_u64 = key % PAIR_KEY_BASE;
        proof {
            lemma_fundamental_div_mod(key as int, PAIR_KEY_BASE as int);
            assert((PAIR_KEY_BASE as int) * ((key as int) / (PAIR_KEY_BASE as int)) <= key as int);
            assert(((key as int) / (PAIR_KEY_BASE as int)) < (PAIR_KEY_BASE as int))
                by (nonlinear_arith)
                requires
                    (PAIR_KEY_BASE as int) * ((key as int) / (PAIR_KEY_BASE as int)) <= key as int,
                    (key as int) < (PAIR_KEY_BASE as int) * (PAIR_KEY_BASE as int),
                    ((key as int) / (PAIR_KEY_BASE as int)) >= 0,
                    (PAIR_KEY_BASE as int) > 0;
        }
        let left: u32 = left_u64 as u32;
        let right: u32 = right_u64 as u32;
        let left_id = NodeId::Anime(left);
        let right_id = NodeId::Anime(right);
        let ls = find_node(&nodes, &left_id);
        let rt = find_node(&nodes, &right_id);
        match (ls, rt) {
            (Some(s), Some(t)) => {
                let w = pairs[ai].weight_milli;
                let sw = stroke_width_milli(w);
                let edge = LogicalEdge {
                    source: s,
                    target: t,
                    color: Color::AffinityEdge,
                    stroke_milli: sw,
                };
                edges.push(edge);
                proof {
                    assert(edges_view(edges@) =~= e_cur.push(edge@));
                    assert(edges_view(edges@) == affinity_step(nv, e_cur, pv[ai as int]));
                }
            },
            _ => {
                proof {
                    assert(edges_view(edges@) == affinity_step(nv, e_cur, pv[ai as int]));
                }
            },
        }
        ai = ai + 1;
    }
    proof {
        assert(edges_view(edges@) == logical_edges(usersv));
    }
    (nodes, edges)
}

} // verus!
