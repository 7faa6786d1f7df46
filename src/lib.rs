//! A bridge between an IDE speaking the Debug Adapter Protocol and a Lua
//! debugger speaking a line-framed JSON protocol over TCP: the protocol's
//! codes and framing, the variable reference cache, the session state and the
//! decisions of the request handlers.
pub mod breakpoints;
pub mod cache;
pub mod cli;
pub mod correlate;
pub mod error;
pub mod frame;
pub mod handlers;
pub mod proto;
pub mod session;
pub mod wire;
