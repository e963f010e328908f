//! Longest common subsequence (LCS) by classical dynamic programming.
//!
//! The library builds a DP table of prefix-LCS lengths and direction
//! markers, recovers one longest common subsequence by traceback, and
//! proves the result against a recursive mathematical model.

pub mod engine;
pub mod model;
pub mod render;
pub mod sampling;
pub mod table;

pub use engine::lcs;
pub use engine::lcs_length;
pub use engine::lcs_with_table;
pub use model::is_subsequence;
pub use model::lcs_len;
pub use model::lcs_seq;
pub use render::render_row;
pub use sampling::random_string;
pub use table::build_table;
pub use table::direction_glyph;
pub use table::Arrow;
pub use table::Cell;
