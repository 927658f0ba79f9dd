//! Network-facing state of a peer-to-peer blockchain client: the table of
//! active peers, the gossip of new blocks, the correlation of requests and
//! responses, and the queue of body downloads.

pub mod cache;
pub mod fanout;
pub mod fetch;
pub mod gossip;
pub mod message;
pub mod model;
pub mod peer;
pub mod primitives;
pub mod queue;
pub mod state;
