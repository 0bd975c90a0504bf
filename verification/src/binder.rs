//! Data binder: turns the outcomes of the external fetches (chain id,
//! block height, user identity) into a route context with freshly
//! written signals, or fails the whole route with a binding error; there
//! is no partial-render fallback.

use vstd::prelude::*;
use vstd::string::StringExecFns;
use crate::component::{RouteContext, UserItem};
use crate::signal::Signal;

verus! {

/// An error reported by the external RPC collaborator for one fetch.
pub struct RpcError {
    pub message: String,
}

/// An external fetch required by the route failed; the whole render is
/// aborted.
pub enum BindingError {
    /// The chain-id fetch failed.
    ChainIdUnavailable(RpcError),
    /// The block-number fetch failed.
    BlockNumberUnavailable(RpcError),
}

/// Builds the route context for the page root from the two fetch
/// outcomes: both values are written into fresh, unobserved signals;
/// if either fetch failed, the corresponding binding error is returned
/// (the chain-id fetch is reported first when both failed).
pub fn bind_route_context(
    chain: Result<u64, RpcError>,
    block: Result<u64, RpcError>,
    user: Option<UserItem>,
) -> (r: Result<RouteContext, BindingError>)
    ensures
        r is Ok <==> chain is Ok && block is Ok,
        r is Ok ==> {
            &&& r->Ok_0.chain_id.spec_value() == chain->Ok_0
            &&& r->Ok_0.chain_id.is_written()
            &&& !r->Ok_0.chain_id.is_observed()
            &&& r->Ok_0.block_number.spec_value() == block->Ok_0
            &&& r->Ok_0.block_number.is_written()
            &&& !r->Ok_0.block_number.is_observed()
            &&& r->Ok_0.user == user
        },
        chain is Err ==> r == Err::<RouteContext, BindingError>(
            BindingError::ChainIdUnavailable(chain->Err_0),
        ),
        chain is Ok && block is Err ==> r == Err::<RouteContext, BindingError>(
            BindingError::BlockNumberUnavailable(block->Err_0),
        ),
{
    match chain {
        Err(e) => Err(BindingError::ChainIdUnavailable(e)),
        Ok(c) => match block {
            Err(e) => Err(BindingError::BlockNumberUnavailable(e)),
            Ok(b) => {
                let mut chain_sig: Signal<u64> = Signal::create(0);
                match chain_sig.set(c) {
                    Ok(()) => {},
                    Err(_) => {
                        proof {
                            assert(false);
                        }
                    },
                }
                let mut block_sig: Signal<u64> = Signal::create(0);
                match block_sig.set(b) {
                    Ok(()) => {},
                    Err(_) => {
                        proof {
                            assert(false);
                        }
                    },
                }
                Ok(RouteContext { chain_id: chain_sig, block_number: block_sig, user })
            },
        },
    }
}

/// Supplies the user record for the lazy-load fragment; currently a
/// synchronously sourced placeholder, not fetched from chain state.
pub fn bind_user_context() -> (u: UserItem)
    ensures
        u.name@ == "John"@,
{
    UserItem { name: String::from_str("John") }
}

} // verus!
