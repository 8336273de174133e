//! The per-connection core of a SOCKS version 5 proxy: greeting and
//! credential negotiation, request parsing, target address rendering,
//! the success reply, and the decisions of the two-way relay.

pub mod address;
pub mod dial;
pub mod error;
pub mod relay;
pub mod reply;
pub mod session;
pub mod text;
