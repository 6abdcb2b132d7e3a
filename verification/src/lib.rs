//! Batched, bounded-parallel loading of JSON items into a remote table.
//!
//! The crate holds the decisions of a bulk insert run: how the input is split
//! into batches, which statement each batch becomes, how a reply is classified,
//! how many batches may be in flight at once, and how the outcomes add up.
//! Reading files and talking to the network are left to the caller.

pub mod args;
pub mod batch;
pub mod dispatcher;
pub mod json;
pub mod loader;
pub mod outcome;
pub mod request;
pub mod run;
pub mod statement;
pub mod tally;
pub mod log;
