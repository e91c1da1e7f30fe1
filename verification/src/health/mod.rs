//! Health and compatibility reporting: per-language assessments of what can
//! be analyzed, and metrics on the completeness of the graph.

pub mod compatibility;
pub mod graph_health;

pub use compatibility::CompatibilityReport;
pub use graph_health::GraphHealth;
