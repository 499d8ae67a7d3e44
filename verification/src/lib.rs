//! A request/response correlation bridge: inbound HTTP requests are given
//! unique correlation identifiers, turned into self-describing JSON events
//! for a single external consumer, and suspended until a matching response
//! message comes back, a delivery error occurs, or the wait is abandoned.

pub mod bridge;
pub mod codec;
pub mod digits;
pub mod idgen;
pub mod msg;
pub mod parse;
pub mod response;
pub mod savename;
pub mod table;
