//! Verified building blocks for harnesses that check and time candidate
//! implementations of sorting and single-source shortest paths: seeded input
//! generators, trusted oracles, comparators, outcome tallies and timing summaries.

pub mod arrays;
pub mod random;
pub mod sorting;
pub mod graph;
pub mod shortest;
pub mod distances;
pub mod tally;
pub mod stats;
pub mod harness;
pub mod report;
