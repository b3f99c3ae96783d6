//! Trading engine library: decimal arithmetic, the rule language, market
//! indicators and the decisions that turn them into trades.
pub mod decimal;
pub mod text;
pub mod domain;
pub mod market;
pub mod execution;
pub mod ai;
pub mod learning;
pub mod insights;
pub mod api;
pub mod ingest;
pub mod json;
pub mod llm;
pub mod laws;
pub mod rules;
