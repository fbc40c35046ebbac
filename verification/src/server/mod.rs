//! The protocol of the remote debugger: its messages, and what the server
//! computes for them.

pub mod rpc;
pub mod proxy;
