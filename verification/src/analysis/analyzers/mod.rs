//! The rules of the individual analysers, each stated over the plain values
//! that it reads from a plan node.
pub mod buffer_analysis;
pub mod estimation_health;
pub mod filter_efficiency;
pub mod index_efficiency;
pub mod index_usage;
pub mod join_analysis;
pub mod parallelization;
pub mod plan_shape;
pub mod query_pattern_analysis;
pub mod row_estimation;
pub mod scan_analysis;
pub mod sort_memory;
pub mod startup_cost;
