//! Settings handed to the driving adapters.
use vstd::prelude::*;

verus! {

/// Where the client-facing web server listens.
pub struct WebServerSettings {
    pub port: String,
}

} // verus!
