//! A SWIM-style failure detector: the membership table, the wire records, and
//! the decisions of the receiver and of the prober.

pub mod clock;
pub mod codec;
pub mod id_map;
pub mod member;
pub mod message;
pub mod server;
pub mod trace;
pub mod wire;
