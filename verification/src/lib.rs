//! HarborBeacon Desktop: a desktop agent that is talked to over Feishu.
//!
//! The library holds the agent's decisions. It does no I/O: where something outside is
//! needed, a function says what is wanted, and another goes on with what came of it.

pub mod actionrun;
pub mod actions;
pub mod actionwords;
pub mod ask;
pub mod bridge;
pub mod chat;
pub mod classifier;
pub mod commands;
pub mod conduct;
pub mod connectivity;
pub mod contracts;
pub mod copilot;
pub mod devloop;
pub mod dispatch;
pub mod edit;
pub mod event;
pub mod feishu;
pub mod format;
pub mod heads;
pub mod intent;
pub mod json;
pub mod mcp;
pub mod order;
pub mod outcomes;
pub mod parser;
pub mod patch;
pub mod phrases;
pub mod plan;
pub mod reply;
pub mod session;
pub mod steps;
pub mod store;
pub mod text;
pub mod unicode;
pub mod vocabulary;
pub mod walk;
pub mod ws;
