//! Decision logic of the KAI ↔ browser WebSocket bridge: the wire types, the
//! `SUP` line grammar, the KAI connection session, the browser session and the
//! reconnect back-off, each with its contract.

pub mod backoff;
mod clock;
pub mod kai_conn;
pub mod protocol;
pub mod sup;
pub mod text;
pub mod ws_handler;
