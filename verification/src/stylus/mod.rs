//! The interface between running Stylus programs and the EVM host.

pub mod handler;
pub mod laws;
pub mod message;
pub mod protocol;
pub mod requests;
