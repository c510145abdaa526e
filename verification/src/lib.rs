//! A verified solver for the 3x3x3 cube: concrete cube model, move algebra,
//! sub-state abstractions, distance tables and iterative-deepening search.

pub mod cube;
pub mod moves;
pub mod state_key;
pub mod edge_orientation_state;
pub mod edge_slice_state;
pub mod corner_orientation_state;
pub mod hashed;
pub mod permutation;
pub mod edge_position_state;
pub mod corner_position_state;
pub mod total_position_state;
pub mod heuristic_caches;
pub mod dfs_util;
pub mod thistlethwaite;
pub mod kociemba;
pub mod shadow;
pub mod solve;
pub mod scramble;
pub mod projection;
pub mod groups;
pub mod canonical;
