//! Bidirectional packet forwarder that bridges a Pinecone overlay between two
//! network segments: beacon relay, port tracking, route bookkeeping and the
//! decisions of the TCP splice, each with its contract.
pub mod addr;
pub mod cli;
pub mod fwd_tcp;
pub mod fwd_udp;
pub mod shared_state;
