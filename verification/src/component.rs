//! Component identities and props: a component is a pure function from
//! (request context, props) to a node tree, identified here by
//! `ComponentId`; `Props` is the immutable bag of values a caller hands
//! to one component invocation.

use vstd::prelude::*;
use vstd::string::StringExecFns;
use crate::html::{Attr, AttrV, AttrValueV, Node, NodeV};
use crate::html::{attr, attrs0, attrs1, attrs2, element, invoke, node_view, nodes1, nodes2,
    nodes3, nodes6, text, text_owned};
use crate::signal::Signal;
use crate::textfmt::{dec_str, u64_to_string};

verus! {

/// The defined component variants of this system.
#[derive(Clone, Copy, PartialEq, Eq, Structural, Debug)]
pub enum ComponentId {
    /// Document shell: metadata, title, favicon, stylesheet, script tag.
    Head,
    /// Static navigation bar.
    Nav,
    /// Main section: user-presence widget plus a connect action.
    Main,
    /// User-presence widget in its initial, lazy-loading state.
    UserCard,
    /// User-presence widget in its resolved state, showing a user's name.
    UserComponent,
    /// Page root: document shell, navigation, main section and a footer
    /// that reads the chain-id and block-number signals.
    PageRoot,
}

/// A user record: display name plus future identity fields.
pub struct UserItem {
    pub name: String,
}

/// Immutable typed values passed into one component invocation.
pub enum Props {
    /// No props.
    Empty,
    /// A document title.
    Title(String),
    /// A user record.
    User(UserItem),
}

/// Mathematical model of `Props`.
pub enum PropsV {
    Empty,
    Title(Seq<char>),
    User(Seq<char>),
}

/// The model of a props value.
pub open spec fn props_view(p: Props) -> PropsV {
    match p {
        Props::Empty => PropsV::Empty,
        Props::Title(t) => PropsV::Title(t@),
        Props::User(u) => PropsV::User(u.name@),
    }
}

/// The composition rank of a component: every component invokes only
/// components of strictly smaller rank, which makes expansion terminate.
pub open spec fn rank(c: ComponentId) -> nat {
    match c {
        ComponentId::Head => 1,
        ComponentId::Nav => 1,
        ComponentId::UserCard => 1,
        ComponentId::UserComponent => 1,
        ComponentId::Main => 2,
        ComponentId::PageRoot => 3,
    }
}

/// Per-request, read-only bundle of externally-fetched values, threaded
/// into every component rendered for the request; the chain id and block
/// number live in signals so that the write/read ordering contract is
/// checked.
pub struct RouteContext {
    pub chain_id: Signal<u64>,
    pub block_number: Signal<u64>,
    pub user: Option<UserItem>,
}

/// The title carried by a props value, if any.
pub open spec fn title_of(p: PropsV) -> Seq<char> {
    match p {
        PropsV::Title(t) => t,
        _ => Seq::empty(),
    }
}

/// The user name carried by a props value, if any.
pub open spec fn name_of(p: PropsV) -> Seq<char> {
    match p {
        PropsV::User(n) => n,
        _ => Seq::empty(),
    }
}

/// Shorthand for an element tree model.
pub open spec fn el_v(tag: Seq<char>, attrs: Seq<AttrV>, children: Seq<NodeV>) -> NodeV {
    NodeV::Element { tag, attrs, children }
}

/// Shorthand for a text node model.
pub open spec fn txt_v(s: Seq<char>) -> NodeV {
    NodeV::Text(s)
}

/// Shorthand for a string-valued attribute model.
pub open spec fn sattr(name: Seq<char>, value: Seq<char>) -> AttrV {
    AttrV { name, value: AttrValueV::Value(value) }
}

/// The document shell: metadata, title, favicon and stylesheet links, and
/// the progressive-enhancement script tag; a pure function of the title.
pub open spec fn head_v(title: Seq<char>) -> NodeV {
    el_v(
        "head"@,
        Seq::empty(),
        seq![
            el_v("meta"@, seq![sattr("charset"@, "utf-8"@)], Seq::empty()),
            el_v(
                "meta"@,
                seq![sattr("name"@, "description"@), sattr("content"@, "OpenLock dashboard"@)],
                Seq::empty(),
            ),
            el_v("title"@, Seq::empty(), seq![txt_v(title)]),
            el_v("link"@, seq![sattr("rel"@, "icon"@), sattr("href"@, "/favicon.ico"@)], Seq::empty()),
            el_v(
                "link"@,
                seq![sattr("rel"@, "stylesheet"@), sattr("href"@, "/style.css"@)],
                Seq::empty(),
            ),
            el_v("script"@, seq![sattr("src"@, "/assets/htmx.min.js"@)], Seq::empty()),
        ],
    )
}

/// The static navigation bar.
pub open spec fn nav_v() -> NodeV {
    el_v(
        "header"@,
        seq![sattr("class"@, "header"@)],
        seq![
            el_v(
                "nav"@,
                Seq::empty(),
                seq![el_v("a"@, seq![sattr("href"@, "/"@)], seq![txt_v("Home"@)])],
            ),
        ],
    )
}

/// The user-presence widget in its initial state: a lazy-load trigger
/// (GET of the user fragment, after one second post-load) around
/// placeholder text; identical regardless of input.
pub open spec fn user_card_v() -> NodeV {
    el_v(
        "div"@,
        seq![sattr("hx-get"@, "/user"@), sattr("hx-trigger"@, "load delay:1s"@)],
        seq![el_v("p"@, Seq::empty(), seq![txt_v("Connect User"@)])],
    )
}

/// The user-presence widget in its resolved state: the user's display
/// name.
pub open spec fn user_component_v(name: Seq<char>) -> NodeV {
    el_v(
        "div"@,
        Seq::empty(),
        seq![el_v("p"@, Seq::empty(), seq![txt_v("Name: "@ + name)])],
    )
}

/// The main section: the user-presence widget plus a connect action.
pub open spec fn main_v() -> NodeV {
    el_v(
        "main"@,
        Seq::empty(),
        seq![
            NodeV::Invocation { component: ComponentId::UserCard, props: PropsV::Empty },
            el_v("button"@, Seq::empty(), seq![txt_v("Connect"@)]),
        ],
    )
}

/// The footer showing the two signal-sourced numeric values.
pub open spec fn footer_v(chain: u64, block: u64) -> NodeV {
    el_v(
        "footer"@,
        Seq::empty(),
        seq![
            el_v("p"@, Seq::empty(), seq![txt_v("Chain: "@ + dec_str(chain as nat))]),
            el_v("p"@, Seq::empty(), seq![txt_v("Block: "@ + dec_str(block as nat))]),
        ],
    )
}

/// The page root: document shell, navigation, main section and footer.
pub open spec fn page_root_v(chain: u64, block: u64) -> NodeV {
    el_v(
        "html"@,
        Seq::empty(),
        seq![
            NodeV::Invocation { component: ComponentId::Head, props: PropsV::Title("OpenLock"@) },
            el_v(
                "body"@,
                Seq::empty(),
                seq![
                    NodeV::Invocation { component: ComponentId::Nav, props: PropsV::Empty },
                    NodeV::Invocation { component: ComponentId::Main, props: PropsV::Empty },
                    footer_v(chain, block),
                ],
            ),
        ],
    )
}

/// The tree a component produces, as a function of its identity, its
/// props and the two signal values readable from the route context.
pub open spec fn spec_render(c: ComponentId, p: PropsV, chain: u64, block: u64) -> NodeV {
    match c {
        ComponentId::Head => head_v(title_of(p)),
        ComponentId::Nav => nav_v(),
        ComponentId::UserCard => user_card_v(),
        ComponentId::UserComponent => user_component_v(name_of(p)),
        ComponentId::Main => main_v(),
        ComponentId::PageRoot => page_root_v(chain, block),
    }
}

/// Builds the document shell for a title.
fn head(title: &str) -> (n: Node)
    ensures
        node_view(n) == head_v(title@),
{
    let meta_charset = element("meta", attrs1(attr("charset", "utf-8")), crate::html::nodes0());
    let meta_desc = element(
        "meta",
        attrs2(attr("name", "description"), attr("content", "OpenLock dashboard")),
        crate::html::nodes0(),
    );
    let title_el = element("title", attrs0(), nodes1(text(title)));
    let favicon = element(
        "link",
        attrs2(attr("rel", "icon"), attr("href", "/favicon.ico")),
        crate::html::nodes0(),
    );
    let stylesheet = element(
        "link",
        attrs2(attr("rel", "stylesheet"), attr("href", "/style.css")),
        crate::html::nodes0(),
    );
    let script = element("script", attrs1(attr("src", "/assets/htmx.min.js")), crate::html::nodes0());
    let n = element(
        "head",
        attrs0(),
        nodes6(meta_charset, meta_desc, title_el, favicon, stylesheet, script),
    );
    proof {
        assert(node_view(n) =~~= head_v(title@));
    }
    n
}

/// The navigation bar component.
#[allow(non_snake_case)]
pub fn Nav() -> (n: Node)
    ensures
        node_view(n) == nav_v(),
{
    let link = element("a", attrs1(attr("href", "/")), nodes1(text("Home")));
    let nav = element("nav", attrs0(), nodes1(link));
    let n = element("header", attrs1(attr("class", "header")), nodes1(nav));
    proof {
        assert(node_view(n) =~~= nav_v());
    }
    n
}

/// The user-presence widget in its initial, lazy-loading state.
#[allow(non_snake_case)]
pub fn UserCard() -> (n: Node)
    ensures
        node_view(n) == user_card_v(),
{
    let placeholder = element("p", attrs0(), nodes1(text("Connect User")));
    let n = element(
        "div",
        attrs2(attr("hx-get", "/user"), attr("hx-trigger", "load delay:1s")),
        nodes1(placeholder),
    );
    proof {
        assert(node_view(n) =~~= user_card_v());
    }
    n
}

/// The user-presence widget in its resolved state, for a user record.
#[allow(non_snake_case)]
pub fn UserComponent(user: UserItem) -> (n: Node)
    ensures
        node_view(n) == user_component_v(user.name@),
{
    let mut label = String::from_str("Name: ");
    label.append(user.name.as_str());
    let line = element("p", attrs0(), nodes1(text_owned(label)));
    let n = element("div", attrs0(), nodes1(line));
    proof {
        assert(node_view(n) =~~= user_component_v(user.name@));
    }
    n
}

/// The main section component.
fn main_section() -> (n: Node)
    ensures
        node_view(n) == main_v(),
{
    let card = invoke(ComponentId::UserCard, Props::Empty);
    let button = element("button", attrs0(), nodes1(text("Connect")));
    let n = element("main", attrs0(), nodes2(card, button));
    proof {
        assert(node_view(n) =~~= main_v());
    }
    n
}

/// The footer, reading the chain-id and block-number signals.
fn footer(ctx: &mut RouteContext) -> (n: Node)
    ensures
        node_view(n) == footer_v(
            old(ctx).chain_id.spec_value(),
            old(ctx).block_number.spec_value(),
        ),
        final(ctx).chain_id.spec_value() == old(ctx).chain_id.spec_value(),
        final(ctx).chain_id.is_written() == old(ctx).chain_id.is_written(),
        final(ctx).chain_id.is_observed(),
        final(ctx).block_number.spec_value() == old(ctx).block_number.spec_value(),
        final(ctx).block_number.is_written() == old(ctx).block_number.is_written(),
        final(ctx).block_number.is_observed(),
        final(ctx).user == old(ctx).user,
{
    let chain = ctx.chain_id.get();
    let block = ctx.block_number.get();
    let mut chain_label = String::from_str("Chain: ");
    let chain_digits = u64_to_string(chain);
    chain_label.append(chain_digits.as_str());
    let mut block_label = String::from_str("Block: ");
    let block_digits = u64_to_string(block);
    block_label.append(block_digits.as_str());
    let chain_line = element("p", attrs0(), nodes1(text_owned(chain_label)));
    let block_line = element("p", attrs0(), nodes1(text_owned(block_label)));
    let n = element("footer", attrs0(), nodes2(chain_line, block_line));
    proof {
        assert(node_view(n) =~~= footer_v(chain, block));
    }
    n
}

/// Renders one component: a pure function of its props and the route
/// context's signal values; only the page root observes the signals.
pub fn render_component(c: ComponentId, props: &Props, ctx: &mut RouteContext) -> (n: Node)
    ensures
        node_view(n) == spec_render(
            c,
            props_view(*props),
            old(ctx).chain_id.spec_value(),
            old(ctx).block_number.spec_value(),
        ),
        final(ctx).chain_id.spec_value() == old(ctx).chain_id.spec_value(),
        final(ctx).chain_id.is_written() == old(ctx).chain_id.is_written(),
        final(ctx).chain_id.is_observed() == (old(ctx).chain_id.is_observed() || c
            == ComponentId::PageRoot),
        final(ctx).block_number.spec_value() == old(ctx).block_number.spec_value(),
        final(ctx).block_number.is_written() == old(ctx).block_number.is_written(),
        final(ctx).block_number.is_observed() == (old(ctx).block_number.is_observed() || c
            == ComponentId::PageRoot),
        final(ctx).user == old(ctx).user,
{
    match c {
        ComponentId::Head => {
            match props {
                Props::Title(t) => head(t.as_str()),
                _ => {
                    let n = head("");
                    proof {
                        reveal_strlit("");
                        assert(""@ =~= Seq::<char>::empty());
                    }
                    n
                },
            }
        },
        ComponentId::Nav => Nav(),
        ComponentId::UserCard => UserCard(),
        ComponentId::UserComponent => {
            match props {
                Props::User(u) => UserComponent(UserItem { name: u.name.clone() }),
                _ => {
                    let empty_name = String::new();
                    proof {
                        assert(empty_name@ =~= Seq::<char>::empty());
                    }
                    UserComponent(UserItem { name: empty_name })
                },
            }
        },
        ComponentId::Main => main_section(),
        ComponentId::PageRoot => {
            let shell = invoke(ComponentId::Head, Props::Title(String::from_str("OpenLock")));
            let nav = invoke(ComponentId::Nav, Props::Empty);
            let main = invoke(ComponentId::Main, Props::Empty);
            let foot = footer(ctx);
            let body = element("body", attrs0(), nodes3(nav, main, foot));
            let n = element("html", attrs0(), nodes2(shell, body));
            proof {
                assert(node_view(n) =~~= page_root_v(
                    old(ctx).chain_id.spec_value(),
                    old(ctx).block_number.spec_value(),
                ));
            }
            n
        },
    }
}

} // verus!
