//! Secure runtime core of a dataflow module: connection security state,
//! key establishment, and authenticated inbound/outbound dispatch.

pub mod codec;
pub mod connection;
pub mod message;
pub mod entry;
pub mod master_key;
pub mod key_exchange;
pub mod inbound;
pub mod outbound;
pub mod lemmas;
