//! The node's RPC side: the state it collects from the shell, the answers
//! of its handlers and the routing of its requests.

pub mod actor;
pub mod state;
pub mod encoding;
pub mod handlers;
pub mod time;
pub mod filters;
