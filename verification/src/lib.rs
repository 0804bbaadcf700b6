//! The part of an Arbitrum node's state transition that serves Stylus programs: the request handler
//! between a running program and the EVM host, and the journal of activated programs and memory
//! pages.

pub mod db;
pub mod gas;
pub mod journal;
pub mod spec_id;
pub mod stylus;
pub mod wire;
