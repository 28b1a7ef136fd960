//! A small store of todo items: each item gets a sequential, never reused
//! reference number, the list is kept in reference order, and items are
//! updated by identifier and deleted or completed by reference.
pub mod item;
pub mod sequencer;
pub mod store;
pub mod identifier;
pub mod service;
pub mod laws;
pub mod ordering;
pub mod record;
pub mod cli;
pub mod http;
