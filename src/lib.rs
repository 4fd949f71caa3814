//! Generator of synthetic sequence graphs in a line-oriented, tab-separated
//! text format: a header line, one segment line per node and one link line
//! per edge.

pub mod model;
pub mod text;
pub mod random;
pub mod generate;
pub mod laws;
