//! Serialization: a pure, total function from a fully-expanded node tree
//! to an HTML string, with HTML-entity escaping of text nodes and
//! quote-escaping of attribute values as the single injection-safety
//! boundary.

use vstd::prelude::*;
use vstd::string::StringExecFns;
use vstd::string::StrSliceExecFns;
use crate::html::{Attr, AttrV, AttrValue, AttrValueV, Node, NodeV};
use crate::html::{attr_view, attrs_view, fully_expanded, lemma_fully_expanded_children,
    lemma_nodes_view, node_view, nodes_view};
use crate::textfmt::push_char;

verus! {

/// The entity escaping of one text character: `&`, `<`, `>` and `"` become
/// entities; every other character stands for itself.
pub open spec fn escaped_text_char(c: char) -> Seq<char> {
    if c == '&' {
        seq!['&', 'a', 'm', 'p', ';']
    } else if c == '<' {
        seq!['&', 'l', 't', ';']
    } else if c == '>' {
        seq!['&', 'g', 't', ';']
    } else if c == '"' {
        seq!['&', 'q', 'u', 'o', 't', ';']
    } else {
        seq![c]
    }
}

/// The entity escaping of a text node's characters.
pub open spec fn escaped_text(s: Seq<char>) -> Seq<char>
    decreases s.len(),
{
    if s.len() == 0 {
        Seq::empty()
    } else {
        escaped_text_char(s[0]) + escaped_text(s.drop_first())
    }
}

/// The escaping of one attribute-value character: quote-escaping only.
pub open spec fn escaped_attr_char(c: char) -> Seq<char> {
    if c == '"' {
        seq!['&', 'q', 'u', 'o', 't', ';']
    } else {
        seq![c]
    }
}

/// The escaping of an attribute value.
pub open spec fn escaped_attr(s: Seq<char>) -> Seq<char>
    decreases s.len(),
{
    if s.len() == 0 {
        Seq::empty()
    } else {
        escaped_attr_char(s[0]) + escaped_attr(s.drop_first())
    }
}

/// The serialized form of one attribute: a leading space, the name, and
/// for string values `="..."` with the value quote-escaped.
pub open spec fn ser_attr(a: AttrV) -> Seq<char> {
    match a.value {
        AttrValueV::Value(v) => seq![' '] + a.name + seq!['=', '"'] + escaped_attr(v)
            + seq!['"'],
        AttrValueV::Present => seq![' '] + a.name,
    }
}

/// The serialized form of an attribute list, in declared order.
pub open spec fn ser_attrs(s: Seq<AttrV>) -> Seq<char>
    decreases s.len(),
{
    if s.len() == 0 {
        Seq::empty()
    } else {
        ser_attr(s[0]) + ser_attrs(s.drop_first())
    }
}

/// The defined set of self-closing tags, rendered without children or a
/// closing tag.
pub open spec fn is_void_tag(t: Seq<char>) -> bool {
    t == "link"@ || t == "meta"@
}

/// The serialized form of a fully-expanded node tree; an unresolved
/// component invocation contributes nothing (serialization is only ever
/// applied after expansion).
pub open spec fn serialized(nv: NodeV) -> Seq<char>
    decreases nv,
{
    match nv {
        NodeV::Text(s) => escaped_text(s),
        NodeV::Element { tag, attrs, children } => {
            let opening = seq!['<'] + tag + ser_attrs(attrs) + seq!['>'];
            if is_void_tag(tag) {
                opening
            } else {
                opening + serialized_seq(children) + seq!['<', '/'] + tag + seq!['>']
            }
        },
        NodeV::Invocation { .. } => Seq::empty(),
    }
}

/// The serialized form of a node sequence, in order.
pub open spec fn serialized_seq(s: Seq<NodeV>) -> Seq<char>
    decreases s,
{
    if s.len() == 0 {
        Seq::empty()
    } else {
        serialized(s[0]) + serialized_seq(s.drop_first())
    }
}

proof fn lemma_escaped_text_skip(s: Seq<char>, i: int)
    requires
        0 <= i < s.len(),
    ensures
        escaped_text(s.skip(i)) == escaped_text_char(s[i]) + escaped_text(s.skip(i + 1)),
{
    assert(s.skip(i)[0] == s[i]);
    assert(s.skip(i).drop_first() =~= s.skip(i + 1));
}

proof fn lemma_escaped_attr_skip(s: Seq<char>, i: int)
    requires
        0 <= i < s.len(),
    ensures
        escaped_attr(s.skip(i)) == escaped_attr_char(s[i]) + escaped_attr(s.skip(i + 1)),
{
    assert(s.skip(i)[0] == s[i]);
    assert(s.skip(i).drop_first() =~= s.skip(i + 1));
}

proof fn lemma_ser_attrs_skip(s: Seq<AttrV>, i: int)
    requires
        0 <= i < s.len(),
    ensures
        ser_attrs(s.skip(i)) == ser_attr(s[i]) + ser_attrs(s.skip(i + 1)),
{
    assert(s.skip(i)[0] == s[i]);
    assert(s.skip(i).drop_first() =~= s.skip(i + 1));
}

proof fn lemma_serialized_seq_skip(s: Seq<NodeV>, i: int)
    requires
        0 <= i < s.len(),
    ensures
        serialized_seq(s.skip(i)) == serialized(s[i]) + serialized_seq(s.skip(i + 1)),
{
    assert(s.skip(i)[0] == s[i]);
    assert(s.skip(i).drop_first() =~= s.skip(i + 1));
}

/// Escaped text contains no literal `<` or `>` character: text nodes can
/// never open a tag in the output.
pub proof fn lemma_escaped_text_no_angles(s: Seq<char>)
    ensures
        forall|i: int|
            0 <= i < escaped_text(s).len() ==> #[trigger] escaped_text(s)[i] != '<'
                && escaped_text(s)[i] != '>',
    decreases s.len(),
{
    if s.len() > 0 {
        lemma_escaped_text_no_angles(s.drop_first());
        assert forall|i: int| 0 <= i < escaped_text(s).len() implies #[trigger] escaped_text(
            s,
        )[i] != '<' && escaped_text(s)[i] != '>' by {
            let head = escaped_text_char(s[0]);
            if i >= head.len() {
                assert(escaped_text(s)[i] == escaped_text(s.drop_first())[i - head.len()]);
            }
        }
    }
}

/// An escaped attribute value contains no literal `"` character: a value
/// can never break out of its surrounding quotes.
pub proof fn lemma_escaped_attr_no_quote(s: Seq<char>)
    ensures
        forall|i: int|
            0 <= i < escaped_attr(s).len() ==> #[trigger] escaped_attr(s)[i] != '"',
    decreases s.len(),
{
    if s.len() > 0 {
        lemma_escaped_attr_no_quote(s.drop_first());
        assert forall|i: int| 0 <= i < escaped_attr(s).len() implies #[trigger] escaped_attr(
            s,
        )[i] != '"' by {
            let head = escaped_attr_char(s[0]);
            if i >= head.len() {
                assert(escaped_attr(s)[i] == escaped_attr(s.drop_first())[i - head.len()]);
            }
        }
    }
}

/// Serialization is deterministic: any two serializations of the same
/// tree model are the same string.
pub proof fn lemma_serialize_deterministic(nv: NodeV, out1: Seq<char>, out2: Seq<char>)
    requires
        out1 == serialized(nv),
        out2 == serialized(nv),
    ensures
        out1 == out2,
{
}

/// Appends the entity-escaped form of `s` to `out`.
fn append_escaped_text(out: &mut String, s: &str)
    ensures
        final(out)@ == old(out)@ + escaped_text(s@),
{
    let len = s.unicode_len();
    let mut i: usize = 0;
    proof {
        assert(s@.skip(0) =~= s@);
    }
    while i < len
        invariant
            i <= len,
            len == s@.len(),
            out@ + escaped_text(s@.skip(i as int)) == old(out)@ + escaped_text(s@),
        decreases len - i,
    {
        let c = s.get_char(i);
        let ghost pre: Seq<char> = out@;
        let ghost head: Seq<char> = escaped_text_char(c);
        proof {
            lemma_escaped_text_skip(s@, i as int);
        }
        if c == '&' {
            out.append("&amp;");
            proof {
                reveal_strlit("&amp;");
                assert("&amp;"@ =~= head);
            }
        } else if c == '<' {
            out.append("&lt;");
            proof {
                reveal_strlit("&lt;");
                assert("&lt;"@ =~= head);
            }
        } else if c == '>' {
            out.append("&gt;");
            proof {
                reveal_strlit("&gt;");
                assert("&gt;"@ =~= head);
            }
        } else if c == '"' {
            out.append("&quot;");
            proof {
                reveal_strlit("&quot;");
                assert("&quot;"@ =~= head);
            }
        } else {
            push_char(out, c);
            proof {
                assert(seq![c] =~= head);
                assert(out@ == pre + head) by {
                    assert(pre.push(c) =~= pre + head);
                }
            }
        }
        proof {
            assert(out@ == pre + head);
            assert((pre + head) + escaped_text(s@.skip(i + 1)) =~= pre + (head + escaped_text(
                s@.skip(i + 1),
            )));
        }
        i = i + 1;
    }
    proof {
        assert(s@.skip(len as int) =~= Seq::<char>::empty());
    }
}

/// Appends the quote-escaped form of the attribute value `s` to `out`.
fn append_escaped_attr(out: &mut String, s: &str)
    ensures
        final(out)@ == old(out)@ + escaped_attr(s@),
{
    let len = s.unicode_len();
    let mut i: usize = 0;
    proof {
        assert(s@.skip(0) =~= s@);
    }
    while i < len
        invariant
            i <= len,
            len == s@.len(),
            out@ + escaped_attr(s@.skip(i as int)) == old(out)@ + escaped_attr(s@),
        decreases len - i,
    {
        let c = s.get_char(i);
        let ghost pre: Seq<char> = out@;
        let ghost head: Seq<char> = escaped_attr_char(c);
        proof {
            lemma_escaped_attr_skip(s@, i as int);
        }
        if c == '"' {
            out.append("&quot;");
            proof {
                reveal_strlit("&quot;");
                assert("&quot;"@ =~= head);
            }
        } else {
            push_char(out, c);
            proof {
                assert(seq![c] =~= head);
                assert(out@ == pre + head) by {
                    assert(pre.push(c) =~= pre + head);
                }
            }
        }
        proof {
            assert(out@ == pre + head);
            assert((pre + head) + escaped_attr(s@.skip(i + 1)) =~= pre + (head + escaped_attr(
                s@.skip(i + 1),
            )));
        }
        i = i + 1;
    }
    proof {
        assert(s@.skip(len as int) =~= Seq::<char>::empty());
    }
}

/// Whether a tag is in the defined self-closing set.
fn is_void(tag: &String) -> (r: bool)
    ensures
        r == is_void_tag(tag@),
{
    let l = String::from_str("link");
    let m = String::from_str("meta");
    *tag == l || *tag == m
}

/// Appends the serialized form of one attribute to `out`.
fn serialize_attr_into(a: &Attr, out: &mut String)
    ensures
        final(out)@ == old(out)@ + ser_attr(attr_view(*a)),
{
    push_char(out, ' ');
    out.append(a.name.as_str());
    proof {
        assert(out@ =~= old(out)@ + seq![' '] + a.name@);
    }
    match &a.value {
        AttrValue::Value(v) => {
            let ghost pre: Seq<char> = out@;
            out.append("=\"");
            append_escaped_attr(out, v.as_str());
            push_char(out, '"');
            proof {
                reveal_strlit("=\"");
                assert("=\""@ =~= seq!['=', '"']);
                assert(out@ =~= old(out)@ + ser_attr(attr_view(*a)));
            }
        },
        AttrValue::Present => {
            proof {
                assert(out@ =~= old(out)@ + ser_attr(attr_view(*a)));
            }
        },
    }
}

/// Appends the serialized form of a fully-expanded node tree to `out`.
fn serialize_into(n: &Node, out: &mut String)
    requires
        fully_expanded(node_view(*n)),
    ensures
        final(out)@ == old(out)@ + serialized(node_view(*n)),
    decreases *n,
{
    match n {
        Node::Text(s) => {
            append_escaped_text(out, s.as_str());
        },
        Node::Invocation { .. } => {
            proof {
                assert(false);
            }
        },
        Node::Element { tag, attrs, children } => {
            let ghost nv = node_view(*n);
            let ghost attrsv = attrs_view(attrs@);
            let ghost cv = nodes_view(children@);
            push_char(out, '<');
            out.append(tag.as_str());
            proof {
                assert(out@ =~= old(out)@ + seq!['<'] + tag@);
            }
            let ghost base1: Seq<char> = out@;
            let mut j: usize = 0;
            proof {
                assert(attrsv.skip(0) =~= attrsv);
            }
            while j < attrs.len()
                invariant
                    j <= attrs.len(),
                    attrsv == attrs_view(attrs@),
                    out@ + ser_attrs(attrsv.skip(j as int)) == base1 + ser_attrs(attrsv),
                decreases attrs.len() - j,
            {
                let ghost pre: Seq<char> = out@;
                proof {
                    lemma_ser_attrs_skip(attrsv, j as int);
                }
                serialize_attr_into(&attrs[j], out);
                proof {
                    assert(attrsv[j as int] == attr_view(attrs@[j as int]));
                    assert((pre + ser_attr(attrsv[j as int])) + ser_attrs(
                        attrsv.skip(j + 1),
                    ) =~= pre + (ser_attr(attrsv[j as int]) + ser_attrs(attrsv.skip(j + 1))));
                }
                j = j + 1;
            }
            proof {
                assert(attrsv.skip(attrs@.len() as int) =~= Seq::<AttrV>::empty());
                assert(out@ =~= base1 + ser_attrs(attrsv));
            }
            push_char(out, '>');
            proof {
                assert(out@ =~= old(out)@ + (seq!['<'] + tag@ + ser_attrs(attrsv) + seq!['>']));
            }
            let ghost opened: Seq<char> = out@;
            if is_void(tag) {
                proof {
                    assert(serialized(nv) == seq!['<'] + tag@ + ser_attrs(attrsv) + seq!['>']);
                }
            } else {
                proof {
                    lemma_nodes_view(children@);
                    assert(nv == (NodeV::Element { tag: tag@, attrs: attrsv, children: cv }));
                    lemma_fully_expanded_children(tag@, attrsv, cv);
                }
                serialize_children(children, out);
                proof {
                    assert(out@ =~= opened + serialized_seq(cv));
                }
                out.append("</");
                out.append(tag.as_str());
                push_char(out, '>');
                proof {
                    reveal_strlit("</");
                    assert("</"@ =~= seq!['<', '/']);
                    assert(out@ =~= opened + serialized_seq(cv) + seq!['<', '/'] + tag@ + seq![
                        '>',
                    ]);
                }
            }
            proof {
                assert(out@ =~= old(out)@ + serialized(nv));
            }
        },
    }
}

/// Appends the serialized forms of the children of an element, in order.
fn serialize_children(children: &Vec<Node>, out: &mut String)
    requires
        forall|k: int|
            0 <= k < children@.len() ==> fully_expanded(#[trigger] nodes_view(children@)[k]),
    ensures
        final(out)@ == old(out)@ + serialized_seq(nodes_view(children@)),
    decreases *children,
{
    let ghost cv = nodes_view(children@);
    let mut i: usize = 0;
    proof {
        assert(cv.skip(0) =~= cv);
        lemma_nodes_view(children@);
    }
    while i < children.len()
        invariant
            i <= children.len(),
            cv == nodes_view(children@),
            forall|k: int| 0 <= k < children@.len() ==> fully_expanded(#[trigger] cv[k]),
            out@ + serialized_seq(cv.skip(i as int)) == old(out)@ + serialized_seq(cv),
        decreases children.len() - i,
    {
        let ghost pre: Seq<char> = out@;
        proof {
            lemma_nodes_view(children@);
            assert(cv[i as int] == node_view(children@[i as int]));
            assert(fully_expanded(cv[i as int]));
            lemma_serialized_seq_skip(cv, i as int);
        }
        serialize_into(&children[i], out);
        proof {
            assert((pre + serialized(cv[i as int])) + serialized_seq(cv.skip(i + 1)) =~= pre + (
            serialized(cv[i as int]) + serialized_seq(cv.skip(i + 1))));
        }
        i = i + 1;
    }
    proof {
        assert(cv.skip(children@.len() as int) =~= Seq::<NodeV>::empty());
        assert(out@ =~= old(out)@ + serialized_seq(cv));
    }
}

/// Serializes a fully-expanded node tree to its HTML string.
pub fn serialize(n: &Node) -> (out: String)
    requires
        fully_expanded(node_view(*n)),
    ensures
        out@ == serialized(node_view(*n)),
{
    let mut out = String::new();
    serialize_into(n, &mut out);
    proof {
        assert(Seq::<char>::empty() + serialized(node_view(*n)) =~= serialized(node_view(*n)));
    }
    out
}

} // verus!
