//! Inspection engine for append-only, log-structured table formats: it
//! locates transaction-log directories, merges columnar checkpoints with
//! incremental JSON commit records, and derives live-file summaries and
//! per-version history with running totals.

#![verifier::loop_isolation(false)]

pub mod action;
pub mod checkpoint;
pub mod engine;
pub mod fsmodel;
pub mod history;
pub mod json;
pub mod locate;
pub mod metadata;
pub mod numerals;
pub mod parse;
pub mod state;
pub mod summary;

use vstd::prelude::*;

verus! {

/// The greeting the foreign-language binding surface exposes.
pub fn hello_from_bin() -> (r: String)
    ensures
        r@ == "Hello from lakeview!"@,
{
    String::from_str("Hello from lakeview!")
}

} // verus!
