use anime_graph::builder::{make_pair_key, merge_pair, stroke_width_milli, upsert_node};
use anime_graph::normalize::{mean_raw_milli, normalize_scores};
use anime_graph::pipeline::build_graph;
use anime_graph::types::{
    color_css, node_id_eq, Color, Dataset, GraphConfig, GraphModel, NodeId, NodeKind, PairEntry,
    Rating, UserRatings,
};

fn rating(anime_id: u32, title: &str, raw_milli: i64) -> Rating {
    Rating { anime_id, title: String::from(title), raw_milli, normalized_milli: 0 }
}

fn user(user_id: &str, ratings: Vec<Rating>) -> UserRatings {
    UserRatings { user_id: String::from(user_id), ratings }
}

fn default_config() -> GraphConfig {
    GraphConfig { canvas_width_px: 1040, canvas_height_px: 760, max_rendered_edges: 1400 }
}

fn models_equal(a: &GraphModel, b: &GraphModel) -> bool {
    if a.user_count != b.user_count || a.anime_count != b.anime_count {
        return false;
    }
    if a.nodes.len() != b.nodes.len() || a.edges.len() != b.edges.len() {
        return false;
    }
    for i in 0..a.nodes.len() {
        let (x, y) = (&a.nodes[i], &b.nodes[i]);
        if !node_id_eq(&x.id, &y.id)
            || x.label != y.label
            || x.kind != y.kind
            || x.pos != y.pos
            || x.radius_milli != y.radius_milli
            || x.color != y.color
        {
            return false;
        }
    }
    for i in 0..a.edges.len() {
        if a.edges[i] != b.edges[i] {
            return false;
        }
    }
    true
}

#[test]
fn normalization_exact_values() {
    // A user with ratings [9, 8, 7] has mean 8 and normalized scores
    // [1, 0, -1].
    let mut dataset = Dataset {
        users: vec![user(
            "alice",
            vec![rating(1, "A", 9000), rating(2, "B", 8000), rating(3, "C", 7000)],
        )],
    };
    assert_eq!(mean_raw_milli(&dataset.users[0].ratings), 8000);
    normalize_scores(&mut dataset);
    let norms: Vec<i64> =
        dataset.users[0].ratings.iter().map(|r| r.normalized_milli).collect();
    assert_eq!(norms, vec![1000, 0, -1000]);
    // Raw scores are untouched.
    assert_eq!(dataset.users[0].ratings[0].raw_milli, 9000);
}

#[test]
fn normalization_zero_ratings_user() {
    // A user with no ratings is left alone: mean zero, no failure.
    let mut dataset = Dataset { users: vec![user("empty", vec![])] };
    assert_eq!(mean_raw_milli(&dataset.users[0].ratings), 0);
    normalize_scores(&mut dataset);
    assert_eq!(dataset.users[0].ratings.len(), 0);
}

#[test]
fn mean_uses_floor_division() {
    // Mean of [9, 8] is 8.5; fixed-point arithmetic floors to 8500 exactly
    // in milli-units, while mean of [0, -1] floors to -500.
    let rs = vec![rating(1, "A", 9000), rating(2, "B", 8000)];
    assert_eq!(mean_raw_milli(&rs), 8500);
    let rs2 = vec![rating(1, "A", 0), rating(2, "B", -1000)];
    assert_eq!(mean_raw_milli(&rs2), -500);
    let rs3 = vec![rating(1, "A", 0), rating(2, "B", -1)];
    assert_eq!(mean_raw_milli(&rs3), -1);
}

#[test]
fn upsert_deduplicates_and_first_writer_wins() {
    let mut nodes = Vec::new();
    let a = upsert_node(
        &mut nodes,
        NodeId::Anime(7),
        String::from("First Title"),
        NodeKind::Anime,
    );
    let b = upsert_node(
        &mut nodes,
        NodeId::Anime(7),
        String::from("Second Title"),
        NodeKind::Anime,
    );
    assert_eq!(a, b);
    assert_eq!(nodes.len(), 1);
    assert_eq!(nodes[0].label, "First Title");
    let c = upsert_node(
        &mut nodes,
        NodeId::User(String::from("alice")),
        String::from("User alice"),
        NodeKind::User,
    );
    assert_eq!(c, 1);
    assert_eq!(nodes.len(), 2);
}

#[test]
fn pair_key_is_canonical() {
    assert_eq!(make_pair_key(3, 5), make_pair_key(5, 3));
    assert_eq!(make_pair_key(3, 5), 3 * 0x1_0000_0000 + 5);
}

#[test]
fn affinity_merge_running_weight() {
    // First observation inserts s1; the second merges to (s1 + s2) / 2.
    let mut pairs: Vec<PairEntry> = Vec::new();
    let key = make_pair_key(1, 2);
    merge_pair(&mut pairs, key, 4000);
    assert_eq!(pairs.len(), 1);
    assert_eq!(pairs[0].weight_milli, 4000);
    merge_pair(&mut pairs, key, 2000);
    assert_eq!(pairs.len(), 1);
    assert_eq!(pairs[0].weight_milli, 3000);
    // A third observation decays toward the newest score: (3000 + 9000) / 2.
    merge_pair(&mut pairs, key, 9000);
    assert_eq!(pairs[0].weight_milli, 6000);
}

#[test]
fn affinity_merge_floors_toward_negative_infinity() {
    let mut pairs: Vec<PairEntry> = Vec::new();
    let key = make_pair_key(1, 2);
    merge_pair(&mut pairs, key, -5);
    merge_pair(&mut pairs, key, 2);
    assert_eq!(pairs[0].weight_milli, -2);
}

#[test]
fn merge_keeps_pairs_sorted_by_key() {
    let mut pairs: Vec<PairEntry> = Vec::new();
    merge_pair(&mut pairs, make_pair_key(9, 10), 100);
    merge_pair(&mut pairs, make_pair_key(1, 2), 200);
    merge_pair(&mut pairs, make_pair_key(4, 11), 300);
    assert_eq!(pairs.len(), 3);
    assert!(pairs[0].key < pairs[1].key && pairs[1].key < pairs[2].key);
    assert_eq!(pairs[0].key, make_pair_key(1, 2));
}

#[test]
fn stroke_width_clamps_at_both_ends() {
    // Magnitude 0 gives the minimum width 0.35; magnitude 20 or more is
    // clamped to 2.2.
    assert_eq!(stroke_width_milli(0), 350);
    assert_eq!(stroke_width_milli(20_000), 2200);
    assert_eq!(stroke_width_milli(-20_000), 2200);
    assert_eq!(stroke_width_milli(1_000_000), 2200);
    // An intermediate magnitude scales linearly: 0.35 + 5 * 0.12 = 0.95.
    assert_eq!(stroke_width_milli(5_000), 950);
}

#[test]
fn end_to_end_two_users_one_shared_anime() {
    // Two users, one rating each on the same anime: 3 nodes, 2 preference
    // edges, no affinity edges, user count 2, anime count 1.
    let dataset = Dataset {
        users: vec![
            user("desktopsample001", vec![rating(1, "Cowboy Bebop", 9000)]),
            user("desktopsample002", vec![rating(1, "Cowboy Bebop", 7000)]),
        ],
    };
    let g = build_graph(dataset, default_config());
    assert_eq!(g.user_count, 2);
    assert_eq!(g.anime_count, 1);
    assert_eq!(g.nodes.len(), 3);
    assert_eq!(g.edges.len(), 2);
    assert!(g.edges.iter().all(|e| e.color == Color::PreferenceEdge));
    assert!(g.edges.iter().all(|e| e.stroke_milli == 1500));

    // Node order is first-reference order: first user, the anime, second
    // user; labels take the first eight identifier characters.
    assert!(node_id_eq(&g.nodes[0].id, &NodeId::User(String::from("desktopsample001"))));
    assert!(node_id_eq(&g.nodes[1].id, &NodeId::Anime(1)));
    assert!(node_id_eq(&g.nodes[2].id, &NodeId::User(String::from("desktopsample002"))));
    assert_eq!(g.nodes[0].label, "User desktops");
    assert_eq!(g.nodes[1].label, "Cowboy Bebop");
    assert_eq!(g.nodes[0].kind, NodeKind::User);
    assert_eq!(g.nodes[1].kind, NodeKind::Anime);

    // Layout: users sit on the radius-maxed circle at turns 0/2 and 1/2;
    // the single anime sits at band 120 with jitter -8 (milli-pixels).
    let r = 380 * 760; // 0.38 * min(1040, 760) pixels, in milli-pixels
    assert_eq!(g.nodes[0].pos.radius_x_milli, r);
    assert_eq!(g.nodes[0].pos.radius_y_milli, r);
    assert_eq!((g.nodes[0].pos.turn_num, g.nodes[0].pos.turn_den), (0, 2));
    assert_eq!((g.nodes[2].pos.turn_num, g.nodes[2].pos.turn_den), (1, 2));
    assert_eq!(g.nodes[1].pos.radius_x_milli, 120_000 - 8_000);
    assert_eq!(g.nodes[1].pos.radius_y_milli, 120_000 + 8_000);
    assert_eq!((g.nodes[1].pos.turn_num, g.nodes[1].pos.turn_den), (0, 1));

    // Edges resolve the node positions.
    assert_eq!(g.edges[0].source_pos, g.nodes[0].pos);
    assert_eq!(g.edges[0].target_pos, g.nodes[1].pos);
    assert_eq!(g.edges[1].source_pos, g.nodes[2].pos);
    assert_eq!(g.edges[1].target_pos, g.nodes[1].pos);
}

#[test]
fn anime_nodes_deduplicate_across_users() {
    // Five users all rate the same two anime: exactly two anime nodes.
    let mut users_vec = Vec::new();
    for i in 0..5 {
        users_vec.push(user(
            &format!("user{}", i),
            vec![rating(42, "Shared A", 8000), rating(43, "Shared B", 6000)],
        ));
    }
    let g = build_graph(Dataset { users: users_vec }, default_config());
    assert_eq!(g.user_count, 5);
    assert_eq!(g.anime_count, 2);
    assert_eq!(g.nodes.len(), 7);
}

#[test]
fn empty_dataset_produces_empty_graph() {
    let g = build_graph(Dataset { users: vec![] }, default_config());
    assert_eq!(g.user_count, 0);
    assert_eq!(g.anime_count, 0);
    assert_eq!(g.nodes.len(), 0);
    assert_eq!(g.edges.len(), 0);
}

fn big_dataset() -> Dataset {
    // One user with 53 ratings: 53 preference edges plus C(53, 2) = 1378
    // affinity edges, 1431 logical edges in all.
    let mut ratings = Vec::new();
    for i in 0..53u32 {
        ratings.push(rating(i + 1, &format!("Anime {}", i + 1), 5000 + (i as i64) * 10));
    }
    Dataset { users: vec![user("collector", ratings)] }
}

#[test]
fn render_cap_emits_exactly_the_first_cap_edges() {
    let capped = build_graph(big_dataset(), default_config());
    assert_eq!(capped.edges.len(), 1400);

    let mut wide_config = default_config();
    wide_config.max_rendered_edges = 2000;
    let uncapped = build_graph(big_dataset(), wide_config);
    assert_eq!(uncapped.edges.len(), 1431);

    // The capped list is exactly the first 1400 of the deterministic
    // order: all 53 preference edges first, then affinity edges.
    for i in 0..1400 {
        assert_eq!(capped.edges[i], uncapped.edges[i]);
    }
    for i in 0..53 {
        assert_eq!(uncapped.edges[i].color, Color::PreferenceEdge);
    }
    for i in 53..1431 {
        assert_eq!(uncapped.edges[i].color, Color::AffinityEdge);
    }
    // The node list is never truncated.
    assert_eq!(capped.nodes.len(), 54);
}

#[test]
fn pipeline_is_deterministic() {
    let g1 = build_graph(big_dataset(), default_config());
    let g2 = build_graph(big_dataset(), default_config());
    assert!(models_equal(&g1, &g2));
}

#[test]
fn affinity_edge_width_from_observed_scores() {
    // One user, two ratings [9, 7]: mean 8, normalized [1, -1], one pair
    // with score (1 + -1) / 2 = 0, so the affinity edge takes the minimum
    // stroke width 0.35.
    let dataset = Dataset {
        users: vec![user("pairuser", vec![rating(1, "A", 9000), rating(2, "B", 7000)])],
    };
    let g = build_graph(dataset, default_config());
    assert_eq!(g.nodes.len(), 3);
    assert_eq!(g.edges.len(), 3);
    assert_eq!(g.edges[2].color, Color::AffinityEdge);
    assert_eq!(g.edges[2].stroke_milli, 350);
}

#[test]
fn affinity_edges_sorted_by_canonical_pair_key() {
    // One user rates anime 5, 3, 9 in that order. The pairs arise as
    // (3,5), (5,9), (3,9) but the affinity edges come out sorted by
    // canonical key: (3,5), (3,9), (5,9).
    let dataset = Dataset {
        users: vec![user(
            "u",
            vec![rating(5, "Five", 9000), rating(3, "Three", 8000), rating(9, "Nine", 7000)],
        )],
    };
    let mut config = default_config();
    config.max_rendered_edges = 100;
    let g = build_graph(dataset, config);
    // Nodes: user, anime 5, anime 3, anime 9 (first-reference order).
    assert_eq!(g.nodes.len(), 4);
    assert_eq!(g.edges.len(), 6);
    let pos5 = g.nodes[1].pos;
    let pos3 = g.nodes[2].pos;
    let pos9 = g.nodes[3].pos;
    let affinity: Vec<_> =
        g.edges.iter().filter(|e| e.color == Color::AffinityEdge).collect();
    assert_eq!(affinity.len(), 3);
    assert_eq!((affinity[0].source_pos, affinity[0].target_pos), (pos3, pos5));
    assert_eq!((affinity[1].source_pos, affinity[1].target_pos), (pos3, pos9));
    assert_eq!((affinity[2].source_pos, affinity[2].target_pos), (pos5, pos9));
}

#[test]
fn repeated_anime_keeps_first_title() {
    // The second user's differing title for the same anime never
    // overwrites the first one.
    let dataset = Dataset {
        users: vec![
            user("a", vec![rating(1, "Original Title", 9000)]),
            user("b", vec![rating(1, "Different Title", 6000)]),
        ],
    };
    let g = build_graph(dataset, default_config());
    assert_eq!(g.anime_count, 1);
    assert_eq!(g.nodes[1].label, "Original Title");
}

#[test]
fn affinity_widths_exact_values() {
    // One user rates [9, 8, 7]: normalized [1, 0, -1]. Pair scores are
    // (1+0)/2 = 0.5, (1-1)/2 = 0, (0-1)/2 = -0.5, so the widths are
    // 0.35 + 0.5 * 0.12 = 0.41, 0.35, and 0.41 again, in sorted key order
    // (1,2), (1,3), (2,3).
    let dataset = Dataset {
        users: vec![user(
            "u",
            vec![rating(1, "A", 9000), rating(2, "B", 8000), rating(3, "C", 7000)],
        )],
    };
    let g = build_graph(dataset, default_config());
    assert_eq!(g.edges.len(), 6);
    let widths: Vec<i64> = g
        .edges
        .iter()
        .filter(|e| e.color == Color::AffinityEdge)
        .map(|e| e.stroke_milli)
        .collect();
    assert_eq!(widths, vec![410, 350, 410]);
}

#[test]
fn color_palette() {
    assert_eq!(color_css(Color::UserNode), "#ff8a00");
    assert_eq!(color_css(Color::AnimeNode), "#0f8b8d");
    assert_eq!(color_css(Color::PreferenceEdge), "#f4d35ea6");
    assert_eq!(color_css(Color::AffinityEdge), "#6fffe980");
}

#[test]
fn node_radii_and_colors_by_kind() {
    let dataset = Dataset { users: vec![user("u", vec![rating(1, "A", 5000)])] };
    let g = build_graph(dataset, default_config());
    assert_eq!(g.nodes[0].radius_milli, 7000);
    assert_eq!(g.nodes[0].color, Color::UserNode);
    assert_eq!(g.nodes[1].radius_milli, 3800);
    assert_eq!(g.nodes[1].color, Color::AnimeNode);
}

#[test]
fn small_canvas_uses_minimum_radius() {
    // 0.38 * 400 = 152 pixels, below the 200-pixel floor.
    let config =
        GraphConfig { canvas_width_px: 400, canvas_height_px: 500, max_rendered_edges: 1400 };
    let dataset = Dataset { users: vec![user("u", vec![])] };
    let g = build_graph(dataset, config);
    assert_eq!(g.nodes[0].pos.radius_x_milli, 200_000);
    assert_eq!((g.nodes[0].pos.turn_num, g.nodes[0].pos.turn_den), (0, 1));
}

#[test]
fn anime_ring_band_and_jitter_progression() {
    // Seven anime under one user: bands 120 + (i mod 7) * 17 and jitters
    // (i * 29 mod 17) - 8, applied +x/-y.
    let mut ratings = Vec::new();
    for i in 0..7u32 {
        ratings.push(rating(i + 1, &format!("A{}", i), 5000));
    }
    let g = build_graph(Dataset { users: vec![user("u", ratings)] }, default_config());
    for i in 0..7usize {
        let band = 120_000 + ((i % 7) as i64) * 17_000;
        let jitter = ((i * 29 % 17) as i64) * 1000 - 8000;
        let n = &g.nodes[i + 1];
        assert_eq!(n.pos.radius_x_milli, band + jitter);
        assert_eq!(n.pos.radius_y_milli, band - jitter);
        assert_eq!(n.pos.turn_num, i);
        assert_eq!(n.pos.turn_den, 7);
    }
}
