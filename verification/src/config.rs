//! The server's configuration.

use vstd::prelude::*;

verus! {

/// The general settings: where the server keeps its state.
pub struct General {
    pub state_path: String,
}

impl General {
    /// The settings of a server that keeps its state at `state_path`.
    pub fn new(state_path: String) -> (r: General)
        ensures
            r.state_path@ == state_path@,
    {
        General { state_path }
    }
}

} // verus!
