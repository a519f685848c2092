//! A read-only model of a parsed markup tree: each node is an element, a
//! text node, or some other container (document, comment, ...), with its
//! ordered children. The signature engine only reads this structure.

use vstd::prelude::*;
use vstd::string::StringExecFns;

verus! {

/// The node-specific payload of a tree node. Element-ness and text-ness
/// are mutually exclusive; everything else (document roots, comments,
/// doctypes) carries no data of its own and is `Container`.
pub enum NodeData {
    /// An element with its tag's local name and its attributes, each a
    /// key/value pair with distinct keys, in no particular order.
    Element { name: String, attributes: Vec<(String, String)> },
    /// A text node with its raw character data.
    Text { content: String },
    /// Any other kind of node: it contributes no local data, only its
    /// children.
    Container,
}

/// A tree node: its payload and its children in document order.
pub struct Node {
    pub data: NodeData,
    pub children: Vec<Node>,
}

/// The value of the first attribute whose key equals `key`, if any.
pub open spec fn spec_attr_lookup(attrs: Seq<(String, String)>, key: Seq<char>) -> Option<
    Seq<char>,
>
    decreases attrs.len(),
{
    if attrs.len() == 0 {
        None
    } else if attrs[0].0@ == key {
        Some(attrs[0].1@)
    } else {
        spec_attr_lookup(attrs.drop_first(), key)
    }
}

/// The concatenated text of all text nodes in the subtree rooted at `n`,
/// in document order, the node itself included.
pub open spec fn spec_text_contents(n: Node) -> Seq<char>
    decreases n,
{
    (match n.data {
        NodeData::Text { content } => content@,
        _ => Seq::<char>::empty(),
    }) + spec_concat_texts(n.children@)
}

/// The concatenated subtree texts of a sequence of nodes, left to right.
pub open spec fn spec_concat_texts(ns: Seq<Node>) -> Seq<char>
    decreases ns,
{
    if ns.len() == 0 {
        Seq::<char>::empty()
    } else {
        spec_concat_texts(ns.drop_last()) + spec_text_contents(ns.last())
    }
}

/// Looks up an attribute by key, returning the value of the first pair
/// whose key matches.
pub fn attr_lookup<'a>(attrs: &'a Vec<(String, String)>, key: &String) -> (r: Option<&'a String>)
    ensures
        match r {
            Some(v) => spec_attr_lookup(attrs@, key@) == Some(v@),
            None => spec_attr_lookup(attrs@, key@) is None,
        },
{
    let mut i: usize = 0;
    proof {
        assert(attrs@.skip(0) =~= attrs@);
    }
    while i < attrs.len()
        invariant
            i <= attrs@.len(),
            spec_attr_lookup(attrs@, key@) == spec_attr_lookup(attrs@.skip(i as int), key@),
        decreases attrs@.len() - i,
    {
        proof {
            assert(attrs@.skip(i as int)[0] == attrs@[i as int]);
            assert(attrs@.skip(i as int).drop_first() =~= attrs@.skip(i + 1));
        }
        if attrs[i].0 == *key {
            return Some(&attrs[i].1);
        }
        i = i + 1;
    }
    proof {
        assert(attrs@.skip(attrs@.len() as int).len() == 0);
    }
    None
}

/// The concatenated text of all text nodes under `node`, itself included,
/// in document order.
pub fn text_contents(node: &Node) -> (r: String)
    ensures
        r@ == spec_text_contents(*node),
    decreases *node,
{
    let mut r = match &node.data {
        NodeData::Text { content } => content.clone(),
        _ => String::new(),
    };
    let ghost own: Seq<char> = r@;
    let mut i: usize = 0;
    while i < node.children.len()
        invariant
            i <= node.children@.len(),
            r@ == own + spec_concat_texts(node.children@.take(i as int)),
        decreases node.children@.len() - i,
    {
        let t = text_contents(&node.children[i]);
        r.append(t.as_str());
        proof {
            let pre = node.children@.take(i as int);
            let post = node.children@.take(i + 1);
            assert(post.drop_last() =~= pre);
            assert(post.last() == node.children@[i as int]);
        }
        i = i + 1;
    }
    proof {
        assert(node.children@.take(node.children@.len() as int) =~= node.children@);
        assert(r@ =~= spec_text_contents(*node));
    }
    r
}

} // verus!
