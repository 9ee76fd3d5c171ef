//! What a server needs from the code that answers requests.
use crate::message::{HTTPRequest, HTTPResponse};
use vstd::prelude::*;

verus! {

/// What answers requests. The server asks nothing more of it than a response
/// for each request. What a router promises of its answers holds of what the
/// server sends.
pub trait HTTPRouter: Sync + Send + 'static {
    fn handle(&self, request: &HTTPRequest) -> HTTPResponse;
}

} // verus!
