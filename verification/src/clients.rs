//! Configuration for outbound clients. The clients themselves do
//! network work and run on the transport side.

use vstd::prelude::*;

verus! {

/// Clients configuration.
pub struct ClientsConfig {
    pub http_timeout_seconds: u64,
}

} // verus!
