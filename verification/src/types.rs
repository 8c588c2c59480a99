//! The data model of the pipeline: ratings on the input side, nodes, edges
//! and the finished graph on the output side, together with the ghost views
//! that the contracts speak about.
//!
//! Every "real number" of the domain (scores, stroke widths, radii) is an
//! exact fixed-point value: an `i64` counting milli-units, so `1500` stands
//! for `1.5`. Node positions are polar: a point is the canvas centre plus
//! `(rx * cos(turn), ry * sin(turn))`, where the turn is the exact fraction
//! `turn_num / turn_den` of a full circle. The trigonometric projection to
//! cartesian pixels is presentation work and happens outside the library.

use vstd::prelude::*;

verus! {

/// One whole score unit, in milli-units.
pub const SCORE_UNIT_MILLI: i64 = 1000;

/// Capacity bound on a raw score: one million million milli-units. Raw
/// scores within this bound keep every intermediate value of the pipeline
/// inside `i64`.
pub const RAW_SCORE_LIMIT_MILLI: i64 = 1_000_000_000_000;

/// Bound on every normalized score, pair score and affinity weight: a
/// normalized score is a difference of two values within the raw limit, and
/// averaging never grows a bound.
pub const WEIGHT_LIMIT_MILLI: i64 = 2 * 1_000_000_000_000;

/// One rating a user gave to one anime.
pub struct Rating {
    pub anime_id: u32,
    pub title: String,
    /// The score the user entered, in milli-units.
    pub raw_milli: i64,
    /// Raw score minus the user's mean raw score; recomputed by the
    /// normalizer, never read from the input.
    pub normalized_milli: i64,
}

/// Ghost image of a [`Rating`]: plain mathematical integers and a character
/// sequence.
pub struct RatingV {
    pub anime_id: int,
    pub title: Seq<char>,
    pub raw_milli: int,
    pub normalized_milli: int,
}

impl View for Rating {
    type V = RatingV;

    open spec fn view(&self) -> RatingV {
        RatingV {
            anime_id: self.anime_id as int,
            title: self.title@,
            raw_milli: self.raw_milli as int,
            normalized_milli: self.normalized_milli as int,
        }
    }
}

/// One user's identifier and ordered rating list.
pub struct UserRatings {
    pub user_id: String,
    pub ratings: Vec<Rating>,
}

/// Ghost image of a [`UserRatings`].
pub struct UserRatingsV {
    pub user_id: Seq<char>,
    pub ratings: Seq<RatingV>,
}

impl View for UserRatings {
    type V = UserRatingsV;

    open spec fn view(&self) -> UserRatingsV {
        UserRatingsV {
            user_id: self.user_id@,
            ratings: self.ratings@.map_values(|r: Rating| r@),
        }
    }
}

/// The whole input collection, in its original order.
pub struct Dataset {
    pub users: Vec<UserRatings>,
}

impl View for Dataset {
    type V = Seq<UserRatingsV>;

    open spec fn view(&self) -> Seq<UserRatingsV> {
        self.users@.map_values(|u: UserRatings| u@)
    }
}

/// The two kinds of node.
#[derive(Clone, Copy, Debug, PartialEq, Eq, Structural)]
pub enum NodeKind {
    User,
    Anime,
}

/// The fixed palette: one colour per node kind and per edge kind.
#[derive(Clone, Copy, Debug, PartialEq, Eq, Structural)]
pub enum Color {
    UserNode,
    AnimeNode,
    PreferenceEdge,
    AffinityEdge,
}

/// A node's globally unique identifier. It stands for the namespaced
/// identifier string of the rendered graph — `"user:" + userId` or
/// `"anime:" + animeId` — held as the tagged value itself, so the two
/// namespaces can never collide and equality is exact.
pub enum NodeId {
    User(String),
    Anime(u32),
}

/// Ghost image of a [`NodeId`].
pub enum NodeIdV {
    User(Seq<char>),
    Anime(int),
}

impl View for NodeId {
    type V = NodeIdV;

    open spec fn view(&self) -> NodeIdV {
        match self {
            NodeId::User(s) => NodeIdV::User(s@),
            NodeId::Anime(a) => NodeIdV::Anime(*a as int),
        }
    }
}

/// A polar position relative to the canvas centre: the on-canvas point is
/// `(cx + radius_x * cos(turn), cy + radius_y * sin(turn))` with
/// `turn = turn_num / turn_den` of a full circle. Radii are milli-pixels.
#[derive(Clone, Copy, Debug, PartialEq, Eq, Structural)]
pub struct Position {
    pub radius_x_milli: i64,
    pub radius_y_milli: i64,
    pub turn_num: usize,
    pub turn_den: usize,
}

/// Ghost image of a [`Position`].
#[derive(PartialEq, Eq, Structural)]
pub struct PositionV {
    pub radius_x_milli: int,
    pub radius_y_milli: int,
    pub turn_num: int,
    pub turn_den: int,
}

impl View for Position {
    type V = PositionV;

    open spec fn view(&self) -> PositionV {
        PositionV {
            radius_x_milli: self.radius_x_milli as int,
            radius_y_milli: self.radius_y_milli as int,
            turn_num: self.turn_num as int,
            turn_den: self.turn_den as int,
        }
    }
}

/// A graph node. Created once by the builder with a placeholder position,
/// positioned once by the layout engine, immutable afterwards.
pub struct Node {
    pub id: NodeId,
    pub label: String,
    pub kind: NodeKind,
    pub pos: Position,
    /// Display radius in milli-pixels.
    pub radius_milli: i64,
    pub color: Color,
}

/// Ghost image of a [`Node`].
pub struct NodeV {
    pub id: NodeIdV,
    pub label: Seq<char>,
    pub kind: NodeKind,
    pub pos: PositionV,
    pub radius_milli: int,
    pub color: Color,
}

impl View for Node {
    type V = NodeV;

    open spec fn view(&self) -> NodeV {
        NodeV {
            id: self.id@,
            label: self.label@,
            kind: self.kind,
            pos: self.pos@,
            radius_milli: self.radius_milli as int,
            color: self.color,
        }
    }
}

/// An edge between two node indices, before endpoint resolution.
#[derive(Clone, Copy, Debug, PartialEq, Eq, Structural)]
pub struct LogicalEdge {
    pub source: usize,
    pub target: usize,
    pub color: Color,
    /// Stroke width in milli-pixels.
    pub stroke_milli: i64,
}

/// Ghost image of a [`LogicalEdge`].
#[derive(PartialEq, Eq, Structural)]
pub struct LogicalEdgeV {
    pub source: int,
    pub target: int,
    pub color: Color,
    pub stroke_milli: int,
}

impl View for LogicalEdge {
    type V = LogicalEdgeV;

    open spec fn view(&self) -> LogicalEdgeV {
        LogicalEdgeV {
            source: self.source as int,
            target: self.target as int,
            color: self.color,
            stroke_milli: self.stroke_milli as int,
        }
    }
}

/// An edge with both endpoints resolved to positions, ready to draw.
#[derive(Clone, Copy, Debug, PartialEq, Eq, Structural)]
pub struct RenderEdge {
    pub source_pos: Position,
    pub target_pos: Position,
    pub color: Color,
    pub stroke_milli: i64,
}

/// Ghost image of a [`RenderEdge`].
#[derive(PartialEq, Eq, Structural)]
pub struct RenderEdgeV {
    pub source_pos: PositionV,
    pub target_pos: PositionV,
    pub color: Color,
    pub stroke_milli: int,
}

impl View for RenderEdge {
    type V = RenderEdgeV;

    open spec fn view(&self) -> RenderEdgeV {
        RenderEdgeV {
            source_pos: self.source_pos@,
            target_pos: self.target_pos@,
            color: self.color,
            stroke_milli: self.stroke_milli as int,
        }
    }
}

/// One entry of the pair-weight accumulator: a canonical packed pair key and
/// the running affinity weight.
#[derive(Clone, Copy, Debug, PartialEq, Eq, Structural)]
pub struct PairEntry {
    /// `smaller_anime_id * 2^32 + larger_anime_id`; numeric order on keys is
    /// exactly lexicographic order on the canonical pairs.
    pub key: u64,
    pub weight_milli: i64,
}

/// Ghost image of a [`PairEntry`].
#[derive(PartialEq, Eq, Structural)]
pub struct PairEntryV {
    pub key: int,
    pub weight_milli: int,
}

impl View for PairEntry {
    type V = PairEntryV;

    open spec fn view(&self) -> PairEntryV {
        PairEntryV { key: self.key as int, weight_milli: self.weight_milli as int }
    }
}

/// Configuration the caller supplies: canvas size in pixels and the render
/// budget.
#[derive(Clone, Copy, Debug, PartialEq, Eq, Structural)]
pub struct GraphConfig {
    pub canvas_width_px: u32,
    pub canvas_height_px: u32,
    pub max_rendered_edges: usize,
}

/// Ghost image of a [`GraphConfig`].
#[derive(PartialEq, Eq, Structural)]
pub struct GraphConfigV {
    pub canvas_width_px: int,
    pub canvas_height_px: int,
    pub max_rendered_edges: int,
}

impl View for GraphConfig {
    type V = GraphConfigV;

    open spec fn view(&self) -> GraphConfigV {
        GraphConfigV {
            canvas_width_px: self.canvas_width_px as int,
            canvas_height_px: self.canvas_height_px as int,
            max_rendered_edges: self.max_rendered_edges as int,
        }
    }
}

/// The finished artifact: counts, positioned nodes and the capped render
/// edges. Handed to the presentation layer read-only.
pub struct GraphModel {
    pub user_count: usize,
    pub anime_count: usize,
    pub nodes: Vec<Node>,
    pub edges: Vec<RenderEdge>,
}

/// Ghost image of a [`GraphModel`].
pub struct GraphModelV {
    pub user_count: int,
    pub anime_count: int,
    pub nodes: Seq<NodeV>,
    pub edges: Seq<RenderEdgeV>,
}

impl View for GraphModel {
    type V = GraphModelV;

    open spec fn view(&self) -> GraphModelV {
        GraphModelV {
            user_count: self.user_count as int,
            anime_count: self.anime_count as int,
            nodes: self.nodes@.map_values(|n: Node| n@),
            edges: self.edges@.map_values(|e: RenderEdge| e@),
        }
    }
}

/// Compares two node identifiers; equality of the values is equality of the
/// ghost views.
pub fn node_id_eq(a: &NodeId, b: &NodeId) -> (r: bool)
    ensures
        r == (a@ == b@),
{
    match (a, b) {
        (NodeId::User(x), NodeId::User(y)) => *x == *y,
        (NodeId::Anime(x), NodeId::Anime(y)) => *x == *y,
        (NodeId::User(_), NodeId::Anime(_)) => false,
        (NodeId::Anime(_), NodeId::User(_)) => false,
    }
}

/// The CSS colour of each palette entry.
pub fn color_css(c: Color) -> (r: &'static str)
    ensures
        c == Color::UserNode ==> r@ == "#ff8a00"@,
        c == Color::AnimeNode ==> r@ == "#0f8b8d"@,
        c == Color::PreferenceEdge ==> r@ == "#f4d35ea6"@,
        c == Color::AffinityEdge ==> r@ == "#6fffe980"@,
{
    match c {
        Color::UserNode => "#ff8a00",
        Color::AnimeNode => "#0f8b8d",
        Color::PreferenceEdge => "#f4d35ea6",
        Color::AffinityEdge => "#6fffe980",
    }
}

} // verus!
