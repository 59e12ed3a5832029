//! The request/response core of a JSON-RPC proxy in front of one upstream
//! node: the JSON-RPC envelope, the credential source for upstream calls, and
//! the decisions that split a batch between a local policy and the upstream
//! and put the answers back in order.
use vstd::prelude::*;

pub mod auth;
pub mod dispatch;
pub mod envelope;
pub mod json;

verus! {

} // verus!
