//! A small marketplace protocol: a catalog of items, a line-oriented command
//! language, its dispatcher, the per-connection session logic, and the
//! bookkeeping of a load-testing harness.
pub mod text;
pub mod catalog;
pub mod command;
pub mod server;
pub mod connection;
pub mod stress;
pub mod client;
