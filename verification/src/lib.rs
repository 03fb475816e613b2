//! Decision core of the Compass yield engine: policy validation, the
//! rebalancing evaluator, the risk gate, the in-memory stores and the text
//! codes that the storage layer uses, each with its contract.

pub mod accounts;
pub mod audit;
pub mod chat;
pub mod chat_history;
pub mod config;
pub mod evaluator;
pub mod executor;
pub mod funding;
pub mod model;
pub mod outside;
pub mod policy;
pub mod policy_store;
pub mod position_store;
pub mod recovery;
pub mod requests;
pub mod risk_gate;
pub mod session;
pub mod session_cache;
pub mod text;
pub mod thoughts;
pub mod tick;
pub mod withdrawal;
