//! Client-registration and text-message protocol carried over UDP as
//! Cap'n Proto packed messages.

pub mod decimal;
pub mod connstate;
pub mod capnp_wire;
pub mod packet;
pub mod channel;
pub mod network;
pub mod reader;
pub mod writer;
