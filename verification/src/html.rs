//! The node tree: the in-memory intermediate representation produced by
//! components — element nodes, text nodes and component-invocation nodes —
//! together with its mathematical model and the builder functions that
//! construct it.

use vstd::prelude::*;
use crate::component::{ComponentId, Props, PropsV, props_view};

verus! {

/// An attribute value: a string, or bare boolean presence.
pub enum AttrValue {
    /// A quoted string value.
    Value(String),
    /// Presence of the attribute name alone.
    Present,
}

/// One attribute of an element node.
pub struct Attr {
    pub name: String,
    pub value: AttrValue,
}

/// A node of the intermediate tree.
pub enum Node {
    /// Tag name, ordered attributes, ordered children.
    Element { tag: String, attrs: Vec<Attr>, children: Vec<Node> },
    /// A text node, HTML-escaped at serialization time.
    Text(String),
    /// A component reference plus its props; exists only before expansion.
    Invocation { component: ComponentId, props: Props },
}

/// Mathematical model of an attribute value.
pub enum AttrValueV {
    Value(Seq<char>),
    Present,
}

/// Mathematical model of an attribute.
pub struct AttrV {
    pub name: Seq<char>,
    pub value: AttrValueV,
}

/// Mathematical model of a node tree.
pub enum NodeV {
    Element { tag: Seq<char>, attrs: Seq<AttrV>, children: Seq<NodeV> },
    Text(Seq<char>),
    Invocation { component: ComponentId, props: PropsV },
}

/// The model of an attribute.
pub open spec fn attr_view(a: Attr) -> AttrV {
    AttrV {
        name: a.name@,
        value: match a.value {
            AttrValue::Value(s) => AttrValueV::Value(s@),
            AttrValue::Present => AttrValueV::Present,
        },
    }
}

/// The model of an attribute sequence.
pub open spec fn attrs_view(s: Seq<Attr>) -> Seq<AttrV> {
    s.map_values(|a: Attr| attr_view(a))
}

/// The model of a node tree.
pub open spec fn node_view(n: Node) -> NodeV
    decreases n,
{
    match n {
        Node::Element { tag, attrs, children } => NodeV::Element {
            tag: tag@,
            attrs: attrs_view(attrs@),
            children: nodes_view(children@),
        },
        Node::Text(s) => NodeV::Text(s@),
        Node::Invocation { component, props } => NodeV::Invocation {
            component,
            props: props_view(props),
        },
    }
}

/// The model of a node sequence.
pub open spec fn nodes_view(s: Seq<Node>) -> Seq<NodeV>
    decreases s,
{
    if s.len() == 0 {
        Seq::empty()
    } else {
        seq![node_view(s[0])] + nodes_view(s.drop_first())
    }
}

/// The model of a node sequence is the elementwise model.
pub proof fn lemma_nodes_view(s: Seq<Node>)
    ensures
        nodes_view(s).len() == s.len(),
        forall|i: int| 0 <= i < s.len() ==> #[trigger] nodes_view(s)[i] == node_view(s[i]),
    decreases s,
{
    if s.len() > 0 {
        lemma_nodes_view(s.drop_first());
        assert forall|i: int| 0 <= i < s.len() implies #[trigger] nodes_view(s)[i] == node_view(
            s[i],
        ) by {
            if i > 0 {
                assert(s.drop_first()[i - 1] == s[i]);
                assert(nodes_view(s)[i] == nodes_view(s.drop_first())[i - 1]);
            }
        }
    }
}

/// Holds after expansion: the tree contains zero component-invocation
/// nodes.
pub open spec fn fully_expanded(nv: NodeV) -> bool
    decreases nv,
{
    match nv {
        NodeV::Element { children, .. } => fully_expanded_seq(children),
        NodeV::Text(_) => true,
        NodeV::Invocation { .. } => false,
    }
}

/// Holds when every tree of the sequence is fully expanded.
pub open spec fn fully_expanded_seq(s: Seq<NodeV>) -> bool
    decreases s,
{
    s.len() == 0 || (fully_expanded(s[0]) && fully_expanded_seq(s.drop_first()))
}

/// A sequence is fully expanded exactly when each of its trees is.
pub proof fn lemma_fully_expanded_seq(s: Seq<NodeV>)
    ensures
        fully_expanded_seq(s) <==> (forall|i: int|
            0 <= i < s.len() ==> fully_expanded(#[trigger] s[i])),
    decreases s,
{
    if s.len() > 0 {
        lemma_fully_expanded_seq(s.drop_first());
        if fully_expanded_seq(s) {
            assert forall|i: int| 0 <= i < s.len() implies fully_expanded(#[trigger] s[i]) by {
                if i > 0 {
                    assert(s.drop_first()[i - 1] == s[i]);
                }
            }
        }
        if forall|i: int| 0 <= i < s.len() ==> fully_expanded(#[trigger] s[i]) {
            assert forall|i: int|
                0 <= i < s.drop_first().len() implies fully_expanded(
                #[trigger] s.drop_first()[i],
            ) by {
                assert(s.drop_first()[i] == s[i + 1]);
            }
        }
    }
}

/// A fully-expanded element has fully-expanded children.
pub proof fn lemma_fully_expanded_children(tag: Seq<char>, attrs: Seq<AttrV>, children: Seq<NodeV>)
    requires
        fully_expanded(NodeV::Element { tag, attrs, children }),
    ensures
        forall|i: int| 0 <= i < children.len() ==> fully_expanded(#[trigger] children[i]),
{
    lemma_fully_expanded_seq(children);
}

/// Builds a text node.
pub fn text(s: &str) -> (n: Node)
    ensures
        node_view(n) == NodeV::Text(s@),
{
    Node::Text(s.to_owned())
}

/// Builds a string-valued attribute.
pub fn attr(name: &str, value: &str) -> (a: Attr)
    ensures
        attr_view(a) == (AttrV { name: name@, value: AttrValueV::Value(value@) }),
{
    Attr { name: name.to_owned(), value: AttrValue::Value(value.to_owned()) }
}

/// Builds a boolean-presence attribute.
pub fn bool_attr(name: &str) -> (a: Attr)
    ensures
        attr_view(a) == (AttrV { name: name@, value: AttrValueV::Present }),
{
    Attr { name: name.to_owned(), value: AttrValue::Present }
}

/// Builds an element node from its tag, attributes and children.
pub fn element(tag: &str, attrs: Vec<Attr>, children: Vec<Node>) -> (n: Node)
    ensures
        node_view(n) == (NodeV::Element {
            tag: tag@,
            attrs: attrs_view(attrs@),
            children: nodes_view(children@),
        }),
{
    Node::Element { tag: tag.to_owned(), attrs, children }
}

/// Builds a component-invocation node.
pub fn invoke(component: ComponentId, props: Props) -> (n: Node)
    ensures
        node_view(n) == (NodeV::Invocation { component, props: props_view(props) }),
{
    Node::Invocation { component, props }
}

/// Builds a text node from an owned string.
pub fn text_owned(s: String) -> (n: Node)
    ensures
        node_view(n) == NodeV::Text(s@),
{
    Node::Text(s)
}

/// An empty attribute list.
pub fn attrs0() -> (r: Vec<Attr>)
    ensures
        attrs_view(r@) == Seq::<AttrV>::empty(),
{
    let r: Vec<Attr> = Vec::new();
    proof {
        assert(attrs_view(r@) =~= Seq::<AttrV>::empty());
    }
    r
}

/// A one-attribute list.
pub fn attrs1(a: Attr) -> (r: Vec<Attr>)
    ensures
        attrs_view(r@) == seq![attr_view(a)],
{
    let ghost a0 = a;
    let mut r: Vec<Attr> = Vec::new();
    r.push(a);
    proof {
        assert(r@ =~= seq![a0]);
        assert(attrs_view(r@) =~= seq![attr_view(a0)]);
    }
    r
}

/// A two-attribute list, in declared order.
pub fn attrs2(a: Attr, b: Attr) -> (r: Vec<Attr>)
    ensures
        attrs_view(r@) == seq![attr_view(a), attr_view(b)],
{
    let ghost a0 = a;
    let ghost b0 = b;
    let mut r: Vec<Attr> = Vec::new();
    r.push(a);
    r.push(b);
    proof {
        assert(r@ =~= seq![a0, b0]);
        assert(attrs_view(r@) =~= seq![attr_view(a0), attr_view(b0)]);
    }
    r
}

/// An empty child list.
pub fn nodes0() -> (r: Vec<Node>)
    ensures
        nodes_view(r@) == Seq::<NodeV>::empty(),
{
    let r: Vec<Node> = Vec::new();
    proof {
        assert(nodes_view(r@) =~= Seq::<NodeV>::empty());
    }
    r
}

/// A one-node child list.
pub fn nodes1(a: Node) -> (r: Vec<Node>)
    ensures
        nodes_view(r@) == seq![node_view(a)],
{
    let ghost a0 = a;
    let mut r: Vec<Node> = Vec::new();
    r.push(a);
    proof {
        assert(r@ =~= seq![a0]);
        lemma_nodes_view(r@);
        assert(nodes_view(r@) =~= seq![node_view(a0)]);
    }
    r
}

/// A two-node child list, in order.
pub fn nodes2(a: Node, b: Node) -> (r: Vec<Node>)
    ensures
        nodes_view(r@) == seq![node_view(a), node_view(b)],
{
    let ghost a0 = a;
    let ghost b0 = b;
    let mut r: Vec<Node> = Vec::new();
    r.push(a);
    r.push(b);
    proof {
        assert(r@ =~= seq![a0, b0]);
        lemma_nodes_view(r@);
        assert(nodes_view(r@) =~= seq![node_view(a0), node_view(b0)]);
    }
    r
}

/// A three-node child list, in order.
pub fn nodes3(a: Node, b: Node, c: Node) -> (r: Vec<Node>)
    ensures
        nodes_view(r@) == seq![node_view(a), node_view(b), node_view(c)],
{
    let ghost a0 = a;
    let ghost b0 = b;
    let ghost c0 = c;
    let mut r: Vec<Node> = Vec::new();
    r.push(a);
    r.push(b);
    r.push(c);
    proof {
        assert(r@ =~= seq![a0, b0, c0]);
        lemma_nodes_view(r@);
        assert(nodes_view(r@) =~= seq![node_view(a0), node_view(b0), node_view(c0)]);
    }
    r
}

/// A six-node child list, in order.
pub fn nodes6(a: Node, b: Node, c: Node, d: Node, e: Node, f: Node) -> (r: Vec<Node>)
    ensures
        nodes_view(r@) == seq![
            node_view(a),
            node_view(b),
            node_view(c),
            node_view(d),
            node_view(e),
            node_view(f),
        ],
{
    let ghost a0 = a;
    let ghost b0 = b;
    let ghost c0 = c;
    let ghost d0 = d;
    let ghost e0 = e;
    let ghost f0 = f;
    let mut r: Vec<Node> = Vec::new();
    r.push(a);
    r.push(b);
    r.push(c);
    r.push(d);
    r.push(e);
    r.push(f);
    proof {
        assert(r@ =~= seq![a0, b0, c0, d0, e0, f0]);
        lemma_nodes_view(r@);
        assert(nodes_view(r@) =~= seq![
            node_view(a0),
            node_view(b0),
            node_view(c0),
            node_view(d0),
            node_view(e0),
            node_view(f0),
        ]);
    }
    r
}

} // verus!
