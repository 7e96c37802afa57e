//! Host-side protocol library for a USB radio dongle that drives networked
//! power sockets: frame codec, message catalog and the device session.
pub mod catalog;
pub mod command;
pub mod dispatch;
pub mod requests;
pub mod responses;
pub mod wire;
pub mod session;
pub mod version;
