//! Hosts for one-shot headless renders.

use vstd::prelude::*;
use std::collections::HashMap;

verus! {

/// Stateless host that serves a key to value map for one-shot live-info renders: a value that
/// reads as a number drives gauges, any other drives text.
pub struct InfoHost {
    /// The served values, by key.
    pub values: HashMap<String, String>,
}

} // verus!
