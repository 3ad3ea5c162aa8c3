//! Control-plane decision logic for conversational agents: observation
//! matching, guideline resolution, tool gating and journey progression.

pub mod text;
pub mod json;
pub mod matching;
pub mod observation;
pub mod policy;
pub mod semantic_policy;
pub mod journey;
pub mod turn;
pub mod migration;
pub mod agents;
pub mod dashboard;
pub mod embedding;
pub mod plaza;
pub mod queries;
pub mod releases;
pub mod laws;
