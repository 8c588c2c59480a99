//! A weighted-graph construction and layout pipeline for per-user anime
//! ratings.
//!
//! The pipeline is a single pure transformation: raw ratings are normalized
//! per user, user and anime nodes are created (de-duplicated by identifier),
//! preference and affinity edges are derived, every node receives a
//! deterministic polar position, and the edge list is projected to a bounded
//! render list.
//!
//! All score arithmetic is exact fixed-point: a score of `1.0` is stored as
//! `1000` milli-units, and divisions round toward negative infinity.

pub mod builder;
pub mod laws;
pub mod layout;
pub mod math;
pub mod normalize;
pub mod pipeline;
pub mod project;
pub mod types;
