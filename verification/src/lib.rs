//! Bridges SSDP discovery across a boundary that blocks multicast. An
//! initiator hears searches on its local segment and sends them through a
//! tunnel. A responder sends each search out again on its own segment, waits
//! for the first reply with the same search target, and sends that reply
//! back. The initiator delivers it to the address that the search came from.
//!
//! This library holds the rules of both sides, each proved against its
//! contract; sockets, timers and the tunnel's transport are the caller's.
//!
//! - [`net`]: addresses.
//! - [`tunnel`]: the messages of the tunnel and the return address they carry.
//! - [`wire`]: the bytes of those messages.
//! - [`ssdp`]: the heads of SSDP messages, and how a multicast socket is set up.
//! - [`client`]: the initiator.
//! - [`server`]: the responder and the search it runs for each request.
//! - [`bridge`]: what both sides and the tunnel do to one search, end to end.

pub mod bridge;
pub mod client;
pub mod net;
pub mod server;
pub mod ssdp;
pub mod tunnel;
pub mod wire;
