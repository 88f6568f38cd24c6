//! Verified core of a PostgreSQL query-plan analyser: the plan-tree model and
//! its traversals, the rules that classify findings, the configuration
//! threshold tables, export redaction and the fingerprint cache.
use vstd::prelude::*;

pub mod analysis;
pub mod export;
pub mod grouping;
pub mod models;
pub mod natural;
pub mod plan;
pub mod reading;
pub mod text;
