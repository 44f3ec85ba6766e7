//! A single test record, as handed over by the external test-file parsers.

use vstd::prelude::*;

verus! {

/// One test: `id` is its ordinal position in the source list (stable within
/// one run); `commands` is the multi-line script fed to each shell one line
/// at a time.
#[derive(Debug, Clone)]
pub struct Test {
    pub id: usize,
    pub commands: String,
}

} // verus!
