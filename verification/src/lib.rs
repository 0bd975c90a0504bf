//! Server-side component rendering core: declarative UI components are
//! composed into a node tree, bound to request-scoped values through
//! single-assignment signals, expanded until no component invocation
//! remains, and deterministically serialized to an HTML string.

pub mod binder;
pub mod component;
pub mod compose;
pub mod expand;
pub mod html;
pub mod routes;
pub mod serialize;
pub mod signal;
pub mod textfmt;

use vstd::prelude::*;

verus! {

/// Liveness-check body returned by the status endpoint; it bypasses
/// rendering entirely.
pub fn status() -> (r: &'static str)
    ensures
        r@ == "OK"@,
{
    "OK"
}

} // verus!
