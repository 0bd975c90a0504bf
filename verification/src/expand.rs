//! Expansion: the renderer's core procedure. A depth-first, pre-order
//! traversal replaces every component-invocation node by the tree the
//! referenced component renders, and keeps traversing into the
//! replacement until no invocation remains. Termination rests on the
//! composition ranks: every component invokes only components of
//! strictly smaller rank.

use vstd::prelude::*;
use crate::component::{ComponentId, PropsV, RouteContext};
use crate::component::{el_v, footer_v, name_of, rank, render_component, sattr, spec_render,
    title_of, txt_v};
use crate::html::{Attr, AttrValue, Node, NodeV};
use crate::html::{attr_view, attrs_view, element, fully_expanded, fully_expanded_seq,
    lemma_nodes_view, node_view, nodes_view, text};

verus! {

/// Larger of two naturals.
pub open spec fn max2(a: nat, b: nat) -> nat {
    if a >= b {
        a
    } else {
        b
    }
}

/// The composition rank of a tree: the largest rank of any invocation in
/// it, zero if it holds none.
pub open spec fn crank(nv: NodeV) -> nat
    decreases nv,
{
    match nv {
        NodeV::Element { children, .. } => crank_seq(children),
        NodeV::Text(_) => 0,
        NodeV::Invocation { component, .. } => rank(component),
    }
}

/// The largest composition rank in a sequence of trees.
pub open spec fn crank_seq(s: Seq<NodeV>) -> nat
    decreases s,
{
    if s.len() == 0 {
        0
    } else {
        max2(crank(s[0]), crank_seq(s.drop_first()))
    }
}

/// Each element of a sequence ranks at most the sequence.
proof fn lemma_crank_seq_index(s: Seq<NodeV>, i: int)
    requires
        0 <= i < s.len(),
    ensures
        crank(s[i]) <= crank_seq(s),
    decreases s,
{
    if i > 0 {
        lemma_crank_seq_index(s.drop_first(), i - 1);
        assert(s.drop_first()[i - 1] == s[i]);
    }
}

/// A sequence whose elements all rank at most `b` ranks at most `b`.
proof fn lemma_crank_seq_bounded(s: Seq<NodeV>, b: nat)
    requires
        forall|k: int| 0 <= k < s.len() ==> crank(#[trigger] s[k]) <= b,
    ensures
        crank_seq(s) <= b,
    decreases s,
{
    if s.len() > 0 {
        assert forall|k: int| 0 <= k < s.drop_first().len() implies crank(
            #[trigger] s.drop_first()[k],
        ) <= b by {
            assert(s.drop_first()[k] == s[k + 1]);
        }
        lemma_crank_seq_bounded(s.drop_first(), b);
    }
}

/// A text-only child list ranks zero.
proof fn lemma_crank_text_children(s: Seq<NodeV>)
    requires
        forall|k: int| 0 <= k < s.len() ==> (#[trigger] s[k]) is Text,
    ensures
        crank_seq(s) <= 0,
{
    assert forall|k: int| 0 <= k < s.len() implies crank(#[trigger] s[k]) <= 0 by {
        assert(s[k] is Text);
    }
    lemma_crank_seq_bounded(s, 0);
}

/// Every component's rendered tree invokes only components of strictly
/// smaller rank: the well-foundedness of the composition graph.
pub proof fn lemma_spec_render_crank(c: ComponentId, p: PropsV, chain: u64, block: u64)
    ensures
        crank(spec_render(c, p, chain, block)) < rank(c),
{
    let body = spec_render(c, p, chain, block);
    match body {
        NodeV::Element { children: cs, .. } => {
            match c {
                ComponentId::Head => {
                    lemma_crank_text_children(seq![txt_v(title_of(p))]);
                    assert forall|k: int| 0 <= k < cs.len() implies crank(
                        #[trigger] cs[k],
                    ) <= 0 by {
                        if k == 2 {
                            assert(crank(cs[2]) <= 0);
                        } else {
                            assert(crank_seq(Seq::<NodeV>::empty()) == 0);
                        }
                    }
                    lemma_crank_seq_bounded(cs, 0);
                },
                ComponentId::Nav => {
                    lemma_crank_text_children(seq![txt_v("Home"@)]);
                    let link = el_v("a"@, seq![sattr("href"@, "/"@)], seq![txt_v("Home"@)]);
                    assert(crank(link) <= 0);
                    lemma_crank_seq_bounded(seq![link], 0);
                    assert forall|k: int| 0 <= k < cs.len() implies crank(
                        #[trigger] cs[k],
                    ) <= 0 by {
                        assert(crank(cs[0]) <= 0);
                    }
                    lemma_crank_seq_bounded(cs, 0);
                },
                ComponentId::UserCard => {
                    lemma_crank_text_children(seq![txt_v("Connect User"@)]);
                    assert forall|k: int| 0 <= k < cs.len() implies crank(
                        #[trigger] cs[k],
                    ) <= 0 by {
                        assert(crank(cs[0]) <= 0);
                    }
                    lemma_crank_seq_bounded(cs, 0);
                },
                ComponentId::UserComponent => {
                    lemma_crank_text_children(seq![txt_v("Name: "@ + name_of(p))]);
                    assert forall|k: int| 0 <= k < cs.len() implies crank(
                        #[trigger] cs[k],
                    ) <= 0 by {
                        assert(crank(cs[0]) <= 0);
                    }
                    lemma_crank_seq_bounded(cs, 0);
                },
                ComponentId::Main => {
                    lemma_crank_text_children(seq![txt_v("Connect"@)]);
                    assert forall|k: int| 0 <= k < cs.len() implies crank(
                        #[trigger] cs[k],
                    ) <= 1 by {
                        if k == 0 {
                            assert(crank(cs[0]) == rank(ComponentId::UserCard));
                        } else {
                            assert(crank(cs[1]) <= 0);
                        }
                    }
                    lemma_crank_seq_bounded(cs, 1);
                },
                ComponentId::PageRoot => {
                    let chain_line = el_v(
                        "p"@,
                        Seq::empty(),
                        seq![txt_v("Chain: "@ + crate::textfmt::dec_str(chain as nat))],
                    );
                    let block_line = el_v(
                        "p"@,
                        Seq::empty(),
                        seq![txt_v("Block: "@ + crate::textfmt::dec_str(block as nat))],
                    );
                    lemma_crank_text_children(
                        seq![txt_v("Chain: "@ + crate::textfmt::dec_str(chain as nat))],
                    );
                    lemma_crank_text_children(
                        seq![txt_v("Block: "@ + crate::textfmt::dec_str(block as nat))],
                    );
                    let foot_cs = seq![chain_line, block_line];
                    assert forall|k: int| 0 <= k < foot_cs.len() implies crank(
                        #[trigger] foot_cs[k],
                    ) <= 0 by {
                        if k == 0 {
                            assert(crank(chain_line) <= 0);
                        } else {
                            assert(crank(block_line) <= 0);
                        }
                    }
                    lemma_crank_seq_bounded(foot_cs, 0);
                    assert(crank(footer_v(chain, block)) <= 0);
                    let body_cs = seq![
                        NodeV::Invocation {
                            component: ComponentId::Nav,
                            props: PropsV::Empty,
                        },
                        NodeV::Invocation {
                            component: ComponentId::Main,
                            props: PropsV::Empty,
                        },
                        footer_v(chain, block),
                    ];
                    assert forall|k: int| 0 <= k < body_cs.len() implies crank(
                        #[trigger] body_cs[k],
                    ) <= 2 by {
                        if k == 0 {
                        } else if k == 1 {
                        } else {
                            assert(crank(body_cs[2]) <= 0);
                        }
                    }
                    lemma_crank_seq_bounded(body_cs, 2);
                    assert forall|k: int| 0 <= k < cs.len() implies crank(
                        #[trigger] cs[k],
                    ) <= 2 by {
                        if k == 0 {
                            assert(crank(cs[0]) == rank(ComponentId::Head));
                        } else {
                            assert(cs[1] == el_v("body"@, Seq::empty(), body_cs));
                            assert(crank(cs[1]) <= 2);
                        }
                    }
                    lemma_crank_seq_bounded(cs, 2);
                },
            }
        },
        _ => {},
    }
}

/// The expansion of a tree, with the two signal values every component
/// of this system may read.
pub open spec fn spec_expand(nv: NodeV, chain: u64, block: u64) -> NodeV
    decreases crank(nv), nv,
    via spec_expand_dec
{
    match nv {
        NodeV::Element { tag, attrs, children } => NodeV::Element {
            tag,
            attrs,
            children: spec_expand_seq(children, chain, block),
        },
        NodeV::Text(s) => NodeV::Text(s),
        NodeV::Invocation { component, props } => spec_expand(
            spec_render(component, props, chain, block),
            chain,
            block,
        ),
    }
}

/// The elementwise expansion of a sequence of trees.
pub open spec fn spec_expand_seq(s: Seq<NodeV>, chain: u64, block: u64) -> Seq<NodeV>
    decreases crank_seq(s), s,
    via spec_expand_seq_dec
{
    if s.len() == 0 {
        Seq::empty()
    } else {
        seq![spec_expand(s[0], chain, block)] + spec_expand_seq(s.drop_first(), chain, block)
    }
}

#[via_fn]
proof fn spec_expand_dec(nv: NodeV, chain: u64, block: u64) {
    match nv {
        NodeV::Invocation { component, props } => {
            lemma_spec_render_crank(component, props, chain, block);
        },
        _ => {},
    }
}

#[via_fn]
proof fn spec_expand_seq_dec(s: Seq<NodeV>, chain: u64, block: u64) {
}

proof fn lemma_spec_expand_seq_skip(s: Seq<NodeV>, i: int, chain: u64, block: u64)
    requires
        0 <= i < s.len(),
    ensures
        spec_expand_seq(s.skip(i), chain, block) == seq![spec_expand(s[i], chain, block)]
            + spec_expand_seq(s.skip(i + 1), chain, block),
{
    assert(s.skip(i)[0] == s[i]);
    assert(s.skip(i).drop_first() =~= s.skip(i + 1));
}

/// Expansion is complete: for every tree over this component set, the
/// expanded tree contains zero unresolved component invocations.
pub proof fn lemma_spec_expand_fully_expanded(nv: NodeV, chain: u64, block: u64)
    ensures
        fully_expanded(spec_expand(nv, chain, block)),
    decreases crank(nv), nv,
{
    match nv {
        NodeV::Element { tag, attrs, children } => {
            lemma_spec_expand_seq_fully_expanded(children, chain, block);
        },
        NodeV::Text(_) => {},
        NodeV::Invocation { component, props } => {
            lemma_spec_render_crank(component, props, chain, block);
            lemma_spec_expand_fully_expanded(
                spec_render(component, props, chain, block),
                chain,
                block,
            );
        },
    }
}

/// Expansion of a sequence is complete in each element.
pub proof fn lemma_spec_expand_seq_fully_expanded(s: Seq<NodeV>, chain: u64, block: u64)
    ensures
        fully_expanded_seq(spec_expand_seq(s, chain, block)),
    decreases crank_seq(s), s,
{
    if s.len() > 0 {
        lemma_spec_expand_fully_expanded(s[0], chain, block);
        lemma_spec_expand_seq_fully_expanded(s.drop_first(), chain, block);
        let e = spec_expand_seq(s, chain, block);
        assert(e[0] == spec_expand(s[0], chain, block));
        assert(e.drop_first() =~= spec_expand_seq(s.drop_first(), chain, block));
    }
}

/// Duplicates one attribute.
fn clone_attr(a: &Attr) -> (r: Attr)
    ensures
        attr_view(r) == attr_view(*a),
{
    Attr {
        name: a.name.clone(),
        value: match &a.value {
            AttrValue::Value(v) => AttrValue::Value(v.clone()),
            AttrValue::Present => AttrValue::Present,
        },
    }
}

/// Duplicates an attribute list.
fn clone_attrs(attrs: &Vec<Attr>) -> (r: Vec<Attr>)
    ensures
        attrs_view(r@) == attrs_view(attrs@),
{
    let mut r: Vec<Attr> = Vec::new();
    let mut i: usize = 0;
    while i < attrs.len()
        invariant
            i <= attrs.len(),
            r@.len() == i,
            forall|k: int| 0 <= k < i ==> attr_view(#[trigger] r@[k]) == attr_view(attrs@[k]),
        decreases attrs.len() - i,
    {
        r.push(clone_attr(&attrs[i]));
        i = i + 1;
    }
    proof {
        assert(attrs_view(r@) =~= attrs_view(attrs@));
    }
    r
}

/// Expands a tree: depth-first pre-order traversal; each invocation is
/// replaced by the referenced component's rendered tree, and traversal
/// continues into the replacement. The result is fully expanded and is
/// exactly the expansion of the input under the context's signal values;
/// the signal values themselves are unchanged.
pub fn expand(n: &Node, ctx: &mut RouteContext) -> (r: Node)
    ensures
        node_view(r) == spec_expand(
            node_view(*n),
            old(ctx).chain_id.spec_value(),
            old(ctx).block_number.spec_value(),
        ),
        fully_expanded(node_view(r)),
        final(ctx).chain_id.spec_value() == old(ctx).chain_id.spec_value(),
        final(ctx).chain_id.is_written() == old(ctx).chain_id.is_written(),
        old(ctx).chain_id.is_observed() ==> final(ctx).chain_id.is_observed(),
        final(ctx).block_number.spec_value() == old(ctx).block_number.spec_value(),
        final(ctx).block_number.is_written() == old(ctx).block_number.is_written(),
        old(ctx).block_number.is_observed() ==> final(ctx).block_number.is_observed(),
        final(ctx).user == old(ctx).user,
    decreases crank(node_view(*n)), *n,
{
    proof {
        lemma_spec_expand_fully_expanded(
            node_view(*n),
            ctx.chain_id.spec_value(),
            ctx.block_number.spec_value(),
        );
    }
    match n {
        Node::Text(s) => text(s.as_str()),
        Node::Element { tag, attrs, children } => {
            let new_attrs = clone_attrs(attrs);
            let new_children = expand_children(children, ctx);
            element(tag.as_str(), new_attrs, new_children)
        },
        Node::Invocation { component, props } => {
            proof {
                lemma_spec_render_crank(
                    *component,
                    crate::component::props_view(*props),
                    ctx.chain_id.spec_value(),
                    ctx.block_number.spec_value(),
                );
            }
            let body = render_component(*component, props, ctx);
            let r = expand(&body, ctx);
            r
        },
    }
}

/// Expands each child of an element, in order.
fn expand_children(children: &Vec<Node>, ctx: &mut RouteContext) -> (r: Vec<Node>)
    ensures
        nodes_view(r@) == spec_expand_seq(
            nodes_view(children@),
            old(ctx).chain_id.spec_value(),
            old(ctx).block_number.spec_value(),
        ),
        final(ctx).chain_id.spec_value() == old(ctx).chain_id.spec_value(),
        final(ctx).chain_id.is_written() == old(ctx).chain_id.is_written(),
        old(ctx).chain_id.is_observed() ==> final(ctx).chain_id.is_observed(),
        final(ctx).block_number.spec_value() == old(ctx).block_number.spec_value(),
        final(ctx).block_number.is_written() == old(ctx).block_number.is_written(),
        old(ctx).block_number.is_observed() ==> final(ctx).block_number.is_observed(),
        final(ctx).user == old(ctx).user,
    decreases crank_seq(nodes_view(children@)), *children,
{
    let ghost cv = nodes_view(children@);
    let ghost c0 = ctx.chain_id.spec_value();
    let ghost b0 = ctx.block_number.spec_value();
    let mut r: Vec<Node> = Vec::new();
    let mut i: usize = 0;
    proof {
        assert(cv.skip(0) =~= cv);
        assert(nodes_view(r@) =~= Seq::<NodeV>::empty());
    }
    while i < children.len()
        invariant
            i <= children.len(),
            cv == nodes_view(children@),
            c0 == old(ctx).chain_id.spec_value(),
            b0 == old(ctx).block_number.spec_value(),
            nodes_view(r@) + spec_expand_seq(cv.skip(i as int), c0, b0) == spec_expand_seq(
                cv,
                c0,
                b0,
            ),
            ctx.chain_id.spec_value() == old(ctx).chain_id.spec_value(),
            ctx.chain_id.is_written() == old(ctx).chain_id.is_written(),
            old(ctx).chain_id.is_observed() ==> ctx.chain_id.is_observed(),
            ctx.block_number.spec_value() == old(ctx).block_number.spec_value(),
            ctx.block_number.is_written() == old(ctx).block_number.is_written(),
            old(ctx).block_number.is_observed() ==> ctx.block_number.is_observed(),
            ctx.user == old(ctx).user,
        decreases children.len() - i,
    {
        let ghost pre = nodes_view(r@);
        let ghost rpre = r@;
        proof {
            lemma_nodes_view(children@);
            assert(cv[i as int] == node_view(children@[i as int]));
            lemma_crank_seq_index(cv, i as int);
            lemma_spec_expand_seq_skip(cv, i as int, c0, b0);
        }
        let e = expand(&children[i], ctx);
        let ghost ev = node_view(e);
        r.push(e);
        proof {
            lemma_nodes_view(rpre);
            lemma_nodes_view(r@);
            assert(nodes_view(r@) =~= pre + seq![ev]);
            assert((pre + seq![ev]) + spec_expand_seq(cv.skip(i + 1), c0, b0) =~= pre + (seq![
                ev,
            ] + spec_expand_seq(cv.skip(i + 1), c0, b0)));
        }
        i = i + 1;
    }
    proof {
        lemma_nodes_view(children@);
        assert(cv.skip(children@.len() as int) =~= Seq::<NodeV>::empty());
        assert(nodes_view(r@) =~= spec_expand_seq(cv, c0, b0));
    }
    r
}

} // verus!
