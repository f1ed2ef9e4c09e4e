//! Execution plans of PostgreSQL queries: the `EXPLAIN (FORMAT JSON)` statement
//! text, and a verified decoder from the server's JSON answer to a plan tree.

pub mod json;
pub mod plan;
pub mod explain;

pub use crate::explain::{plan_from_rows, plan_from_text, ExplainError};
pub use crate::plan::ExplainPlan;
