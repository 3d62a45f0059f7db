//! Resource accounting for a container-orchestration cluster: quantity
//! parsing, per-target aggregation, cluster summary and report ordering.

pub mod kubernetes;
pub mod order;
pub mod quantity;
pub mod render;
pub mod tally;
pub mod text;
pub mod utils;
