//! Route handlers: each selects a root component, drives the data
//! binder, expands and serializes, and returns the HTML string; a
//! binding failure aborts the whole render, so no partial document is
//! ever produced.

use vstd::prelude::*;
use crate::binder::{BindingError, RpcError, bind_route_context, bind_user_context};
use crate::component::{ComponentId, Props, PropsV};
use crate::expand::{expand, spec_expand};
use crate::html::{NodeV, invoke, node_view};
use crate::serialize::{serialize, serialized};

verus! {

/// The full document produced for the page root under the given chain
/// id and block number.
pub open spec fn page_html(chain: u64, block: u64) -> Seq<char> {
    serialized(
        spec_expand(
            NodeV::Invocation { component: ComponentId::PageRoot, props: PropsV::Empty },
            chain,
            block,
        ),
    )
}

/// The fragment produced for the resolved user-presence widget for the
/// placeholder user.
pub open spec fn user_fragment_html() -> Seq<char> {
    serialized(
        spec_expand(
            NodeV::Invocation {
                component: ComponentId::UserComponent,
                props: PropsV::User("John"@),
            },
            0,
            0,
        ),
    )
}

/// Handles the page-root route: binds the full route context from the
/// two fetch outcomes, renders the page root, and returns the document;
/// either fetch failure aborts with its binding error and no body.
pub fn handle_index(chain: Result<u64, RpcError>, block: Result<u64, RpcError>) -> (r: Result<
    String,
    BindingError,
>)
    ensures
        r is Ok <==> chain is Ok && block is Ok,
        r is Ok ==> r->Ok_0@ == page_html(chain->Ok_0, block->Ok_0),
        chain is Err ==> r == Err::<String, BindingError>(
            BindingError::ChainIdUnavailable(chain->Err_0),
        ),
        chain is Ok && block is Err ==> r == Err::<String, BindingError>(
            BindingError::BlockNumberUnavailable(block->Err_0),
        ),
{
    let mut ctx = match bind_route_context(chain, block, Option::None) {
        Ok(ctx) => ctx,
        Err(e) => {
            return Err(e);
        },
    };
    let root = invoke(ComponentId::PageRoot, Props::Empty);
    let expanded = expand(&root, &mut ctx);
    let html = serialize(&expanded);
    Ok(html)
}

/// Handles the lazy-load fragment route: binds the placeholder user and
/// renders the resolved user-presence widget in isolation.
pub fn handle_user() -> (r: String)
    ensures
        r@ == user_fragment_html(),
{
    let user = bind_user_context();
    let mut ctx = crate::component::RouteContext {
        chain_id: crate::signal::Signal::create(0),
        block_number: crate::signal::Signal::create(0),
        user: Option::None,
    };
    let root = invoke(ComponentId::UserComponent, Props::User(user));
    let expanded = expand(&root, &mut ctx);
    serialize(&expanded)
}

} // verus!
