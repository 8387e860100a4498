//! The fixed configuration of the service.

use vstd::prelude::*;

verus! {

/// The address that the service listens on.
pub const LISTEN_ADDR: &'static str = "127.0.0.1:8080";

/// Seconds after which a request is abandoned and answered with
/// `StatusCode::RequestTimeout`; what the store holds by then stays.
pub const REQUEST_TIMEOUT_SECS: u64 = 10;

} // verus!
