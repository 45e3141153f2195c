//! Runtime core of a SECoP (Sample Environment Communication Protocol) node:
//! the wire codec, the typed-value layer, the dispatcher's routing rules and
//! the bookkeeping of a module worker, each with a machine-checked contract.

pub mod array;
pub mod blob;
pub mod client;
pub mod comm;
pub mod config;
pub mod dispatcher;
pub mod enums;
pub mod errors;
pub mod grammar;
pub mod json;
pub mod module;
pub mod proto;
pub mod roundtrip;
pub mod server;
pub mod sets;
pub mod status;
pub mod structs;
pub mod table;
pub mod text;
pub mod tuples;
pub mod types;
pub mod worker;
