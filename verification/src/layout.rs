//! The Layout Engine: one deterministic pass that gives every node its
//! final polar position. Users sit evenly spaced on one circle; anime sit
//! on a textured ring whose radius is perturbed per node, asymmetrically
//! for the two axes. Positions depend only on node kinds, per-kind ranks
//! and the canvas size — never on edges or weights.

use crate::builder::nodes_view;
use crate::types::{GraphConfig, GraphConfigV, Node, NodeKind, NodeV, Position, PositionV};
use vstd::arithmetic::div_mod::lemma_mul_mod_noop_left;
use vstd::prelude::*;

verus! {

/// How many nodes of `kind` the sequence holds.
pub open spec fn count_kind(nodes: Seq<NodeV>, kind: NodeKind) -> int
    decreases nodes.len(),
{
    if nodes.len() == 0 {
        0
    } else {
        count_kind(nodes.drop_last(), kind) + if nodes.last().kind == kind {
            1int
        } else {
            0int
        }
    }
}

/// A kind count never exceeds the sequence length.
pub proof fn lemma_count_kind_le_len(nodes: Seq<NodeV>, kind: NodeKind)
    ensures
        0 <= count_kind(nodes, kind) <= nodes.len(),
    decreases nodes.len(),
{
    if nodes.len() > 0 {
        lemma_count_kind_le_len(nodes.drop_last(), kind);
    }
}

/// The user circle's radius in milli-pixels: `0.38` of the smaller canvas
/// side, and at least `200` pixels.
pub open spec fn layout_radius(cfg: GraphConfigV) -> int {
    let m = if cfg.canvas_width_px < cfg.canvas_height_px {
        cfg.canvas_width_px
    } else {
        cfg.canvas_height_px
    };
    if 380 * m < 200_000 {
        200_000
    } else {
        380 * m
    }
}

/// The angle denominator: the kind's node count, with zero guarded to one
/// so an empty kind divides nothing by zero.
pub open spec fn turn_den_of(total: int) -> int {
    if total < 1 {
        1
    } else {
        total
    }
}

/// The i-th user node's position: the user circle, at `i / total` of a
/// full turn.
pub open spec fn user_position(i: int, total: int, cfg: GraphConfigV) -> PositionV {
    PositionV {
        radius_x_milli: layout_radius(cfg),
        radius_y_milli: layout_radius(cfg),
        turn_num: i,
        turn_den: turn_den_of(total),
    }
}

/// The i-th anime node's ring band in milli-pixels: `120 + (i mod 7) * 17`
/// pixels.
pub open spec fn anime_band(i: int) -> int {
    120_000 + (i % 7) * 17_000
}

/// The i-th anime node's jitter in milli-pixels: `(i * 29 mod 17) - 8`
/// pixels.
pub open spec fn anime_jitter(i: int) -> int {
    ((i * 29) % 17) * 1000 - 8000
}

/// The i-th anime node's position: the textured ring, jitter added on the
/// x radius and subtracted on the y radius, at `i / total` of a full turn.
pub open spec fn anime_position(i: int, total: int) -> PositionV {
    PositionV {
        radius_x_milli: anime_band(i) + anime_jitter(i),
        radius_y_milli: anime_band(i) - anime_jitter(i),
        turn_num: i,
        turn_den: turn_den_of(total),
    }
}

/// The position node `i` receives: its rank among nodes of its kind, laid
/// out on that kind's circle.
pub open spec fn node_position(nodes: Seq<NodeV>, i: int, cfg: GraphConfigV) -> PositionV {
    let kind = nodes[i].kind;
    let rank = count_kind(nodes.take(i), kind);
    if kind == NodeKind::User {
        user_position(rank, count_kind(nodes, NodeKind::User), cfg)
    } else {
        anime_position(rank, count_kind(nodes, NodeKind::Anime))
    }
}

/// The node sequence after layout: every position rewritten, everything
/// else untouched.
pub open spec fn layout_spec(nodes: Seq<NodeV>, cfg: GraphConfigV) -> Seq<NodeV> {
    Seq::new(nodes.len(), |i: int| NodeV { pos: node_position(nodes, i, cfg), ..nodes[i] })
}

/// Counts the nodes of one kind.
pub fn count_nodes_of_kind(nodes: &Vec<Node>, kind: NodeKind) -> (c: usize)
    ensures
        c as int == count_kind(nodes_view(nodes@), kind),
        c <= nodes@.len(),
{
    let ghost nv = nodes_view(nodes@);
    let mut c: usize = 0;
    let mut i: usize = 0;
    while i < nodes.len()
        invariant
            nv == nodes_view(nodes@),
            nv.len() == nodes@.len(),
            0 <= i <= nodes@.len(),
            c <= i,
            c as int == count_kind(nv.take(i as int), kind),
        decreases nodes.len() - i,
    {
        proof {
            assert(nv[i as int] == nodes@[i as int]@);
            assert(nv.take(i + 1).drop_last() =~= nv.take(i as int));
            assert(nv.take(i + 1).last() == nv[i as int]);
        }
        if match nodes[i].kind {
            NodeKind::User => kind == NodeKind::User,
            NodeKind::Anime => kind == NodeKind::Anime,
        } {
            c = c + 1;
        }
        i = i + 1;
    }
    proof {
        assert(nv.take(nv.len() as int) =~= nv);
    }
    c
}

/// Assigns every node its final position, in one deterministic pass.
pub fn layout_nodes(nodes: &mut Vec<Node>, config: GraphConfig)
    ensures
        nodes_view(final(nodes)@) == layout_spec(nodes_view(old(nodes)@), config@),
{
    let ghost orig = nodes_view(old(nodes)@);
    let user_total = count_nodes_of_kind(nodes, NodeKind::User);
    let anime_total = count_nodes_of_kind(nodes, NodeKind::Anime);
    let min_side: u32 = if config.canvas_width_px < config.canvas_height_px {
        config.canvas_width_px
    } else {
        config.canvas_height_px
    };
    let scaled: i64 = 380 * (min_side as i64);
    let radius: i64 = if scaled < 200_000 {
        200_000
    } else {
        scaled
    };
    proof {
        assert(radius as int == layout_radius(config@));
    }
    let user_den: usize = if user_total < 1 {
        1
    } else {
        user_total
    };
    let anime_den: usize = if anime_total < 1 {
        1
    } else {
        anime_total
    };
    let mut ui: usize = 0;
    let mut ai: usize = 0;
    let mut i: usize = 0;
    while i < nodes.len()
        invariant
            orig == nodes_view(old(nodes)@),
            nodes@.len() == orig.len(),
            0 <= i <= orig.len(),
            ui as int == count_kind(orig.take(i as int), NodeKind::User),
            ai as int == count_kind(orig.take(i as int), NodeKind::Anime),
            ui <= i,
            ai <= i,
            user_total as int == count_kind(orig, NodeKind::User),
            anime_total as int == count_kind(orig, NodeKind::Anime),
            user_den as int == turn_den_of(count_kind(orig, NodeKind::User)),
            anime_den as int == turn_den_of(count_kind(orig, NodeKind::Anime)),
            radius as int == layout_radius(config@),
            forall|j: int|
                0 <= j < i ==> #[trigger] nodes@[j]@ == (NodeV {
                    pos: node_position(orig, j, config@),
                    ..orig[j]
                }),
            forall|j: int| i <= j < orig.len() ==> #[trigger] nodes@[j]@ == orig[j],
        decreases nodes.len() - i,
    {
        proof {
            assert(nodes@[i as int]@ == orig[i as int]);
            assert(orig.take(i + 1).drop_last() =~= orig.take(i as int));
            assert(orig.take(i + 1).last() == orig[i as int]);
        }
        match nodes[i].kind {
            NodeKind::User => {
                nodes[i].pos = Position {
                    radius_x_milli: radius,
                    radius_y_milli: radius,
                    turn_num: ui,
                    turn_den: user_den,
                };
                ui = ui + 1;
            },
            NodeKind::Anime => {
                let band: i64 = 120_000 + ((ai % 7) as i64) * 17_000;
                let jitter: i64 = (((ai % 17) * 29 % 17) as i64) * 1000 - 8000;
                proof {
                    lemma_mul_mod_noop_left(ai as int, 29, 17);
                }
                nodes[i].pos = Position {
                    radius_x_milli: band + jitter,
                    radius_y_milli: band - jitter,
                    turn_num: ai,
                    turn_den: anime_den,
                };
                ai = ai + 1;
            },
        }
        i = i + 1;
    }
    proof {
        assert(orig.take(orig.len() as int) =~= orig);
        assert(nodes_view(nodes@) =~= layout_spec(orig, config@));
    }
}

} // verus!
