//! Session and stream bookkeeping for a multiplexed, encrypted transport.
//!
//! The crate keeps the decisions of a stream session: how handles are handed
//! out, how payloads are cut into chunks and put back together, what a
//! transfer on an unknown handle does, how trust material is decoded, how
//! root stores and transport configurations are built, and how sessions are
//! kept per peer address.

pub mod streams;
pub mod transfer;
pub mod tls;
pub mod endpoint;
pub mod peers;
pub mod session;
