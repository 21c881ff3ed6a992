//! Completion caching and suggestion correlation for a ghost-text
//! language server.
//!
//! The engine decides when a previously computed completion response can be
//! served again for a (document, line) pair, mints a stable identity for
//! every suggestion it hands out, and correlates later accept/reject signals
//! from the editor back to the suggestion that produced them.

use vstd::prelude::*;

pub mod safemap;
pub mod backend;
pub mod cache;
pub mod types;
pub mod util;

verus! {

/// Protocol-level acknowledgment returned by configuration requests.
#[derive(Debug)]
pub struct Success {
    pub success: bool,
}

impl Success {
    pub fn new(success: bool) -> (r: Self)
        ensures
            r.success == success,
    {
        Self { success }
    }
}

} // verus!
