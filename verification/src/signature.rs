//! The signature engine: a node's self-signature, the recursive
//! aggregation over its children, the short-content suppression rule, and
//! the final hash-and-encode step.

use vstd::prelude::*;
use vstd::string::StringExecFns;
use vstd::utf8::encode_utf8;

use crate::mode::{encode_mode, spec_encode_mode, SignatureMode};
use crate::tree::{
    attr_lookup, spec_attr_lookup, spec_text_contents, text_contents, Node, NodeData,
};
use crate::trusted::{hex_encode, sha256_str, spec_digest, spec_hex, spec_trimmed, trim_str};

verus! {

/// A node whose trimmed descendant text has fewer bytes than this yields
/// the empty signature.
pub const LENGTH_THRESHOLD: usize = 6;

/// The number of UTF-8 bytes of a character sequence, as `str::len`
/// reports it. For the view of any string the cast is the identity, since
/// a string never holds more than `usize::MAX` bytes.
pub open spec fn spec_byte_len(s: Seq<char>) -> usize {
    encode_utf8(s).len() as usize
}

/// The tag every non-empty signature starts with: a version marker, the
/// canonical mode letters, and a separating colon.
pub open spec fn spec_mode_prefix(m: SignatureMode) -> Seq<char> {
    seq!['v', '0', ':'] + spec_encode_mode(m) + seq![':']
}

/// The node-local part of a self-signature: for an element its tag name,
/// then its `id` attribute value if `id` is in the mode, then its `class`
/// attribute value if `class` is in the mode; for a text node its raw
/// content if `text` is in the mode; nothing for any other node.
pub open spec fn spec_local_payload(n: Node, m: SignatureMode) -> Seq<char> {
    match n.data {
        NodeData::Element { name, attributes } => name@ + (if m.id {
            match spec_attr_lookup(attributes@, "id"@) {
                Some(v) => v,
                None => Seq::<char>::empty(),
            }
        } else {
            Seq::<char>::empty()
        }) + (if m.class {
            match spec_attr_lookup(attributes@, "class"@) {
                Some(v) => v,
                None => Seq::<char>::empty(),
            }
        } else {
            Seq::<char>::empty()
        }),
        NodeData::Text { content } => if m.text {
            content@
        } else {
            Seq::<char>::empty()
        },
        NodeData::Container => Seq::<char>::empty(),
    }
}

/// The unhashed, node-local contribution of a node: empty when the node's
/// trimmed descendant text is empty, otherwise the version/mode prefix
/// followed by the local payload.
pub open spec fn spec_self_signature(n: Node, m: SignatureMode) -> Seq<char> {
    if spec_trimmed(spec_text_contents(n)).len() == 0 {
        Seq::<char>::empty()
    } else {
        spec_mode_prefix(m) + spec_local_payload(n, m)
    }
}

/// The full signature of a node: empty when the trimmed descendant text
/// has fewer than [`LENGTH_THRESHOLD`] bytes; otherwise the self-signature
/// with every child's full signature appended, hashed and tagged — or
/// empty if that accumulated string is itself empty.
pub open spec fn spec_signature(n: Node, m: SignatureMode) -> Seq<char>
    decreases n,
{
    if spec_byte_len(spec_trimmed(spec_text_contents(n))) < LENGTH_THRESHOLD {
        Seq::<char>::empty()
    } else {
        let acc = spec_self_signature(n, m) + spec_child_signatures(n.children@, m);
        if acc.len() == 0 {
            Seq::<char>::empty()
        } else {
            spec_mode_prefix(m) + spec_hex(spec_digest(acc))
        }
    }
}

/// The concatenated full signatures of a sequence of nodes, left to right.
pub open spec fn spec_child_signatures(ns: Seq<Node>, m: SignatureMode) -> Seq<char>
    decreases ns,
{
    if ns.len() == 0 {
        Seq::<char>::empty()
    } else {
        spec_child_signatures(ns.drop_last(), m) + spec_signature(ns.last(), m)
    }
}

/// Builds the version/mode prefix of a signature.
fn mode_prefix(mode: SignatureMode) -> (r: String)
    ensures
        r@ == spec_mode_prefix(mode),
{
    proof {
        reveal_strlit("v0:");
        reveal_strlit(":");
    }
    let mut r = String::from_str("v0:");
    let enc = encode_mode(mode);
    r.append(enc.as_str());
    r.append(":");
    proof {
        assert(r@ =~= spec_mode_prefix(mode));
    }
    r
}

/// The self-signature of a node: its local contribution before recursing
/// into children, unhashed; empty when the node's trimmed descendant text
/// is empty.
pub fn get_node_self_signature(node: &Node, mode: SignatureMode) -> (r: String)
    ensures
        r@ == spec_self_signature(*node, mode),
{
    let text = text_contents(node);
    let trimmed = trim_str(text.as_str());
    if trimmed.is_empty() {
        return String::new();
    }
    let mut signature = mode_prefix(mode);
    match &node.data {
        NodeData::Element { name, attributes } => {
            signature.append(name.as_str());
            if mode.id {
                let key = String::from_str("id");
                if let Some(v) = attr_lookup(attributes, &key) {
                    signature.append(v.as_str());
                }
            }
            if mode.class {
                let key = String::from_str("class");
                if let Some(v) = attr_lookup(attributes, &key) {
                    signature.append(v.as_str());
                }
            }
        },
        NodeData::Text { content } => {
            if mode.text {
                signature.append(content.as_str());
            }
        },
        NodeData::Container => {},
    }
    proof {
        assert(signature@ =~= spec_self_signature(*node, mode));
    }
    signature
}

/// The full signature of a node: the externally visible entry point,
/// applied recursively to every descendant in document order.
pub fn get_node_signature(node: &Node, mode: SignatureMode) -> (r: String)
    ensures
        r@ == spec_signature(*node, mode),
    decreases *node,
{
    let text = text_contents(node);
    let trimmed = trim_str(text.as_str());
    if trimmed.len() < LENGTH_THRESHOLD {
        return String::new();
    }
    let mut signature = get_node_self_signature(node, mode);
    let ghost own = signature@;
    let mut i: usize = 0;
    while i < node.children.len()
        invariant
            i <= node.children@.len(),
            signature@ == own + spec_child_signatures(node.children@.take(i as int), mode),
        decreases node.children@.len() - i,
    {
        let child_signature = get_node_signature(&node.children[i], mode);
        signature.append(child_signature.as_str());
        proof {
            let pre = node.children@.take(i as int);
            let post = node.children@.take(i + 1);
            assert(post.drop_last() =~= pre);
            assert(post.last() == node.children@[i as int]);
        }
        i = i + 1;
    }
    proof {
        assert(node.children@.take(node.children@.len() as int) =~= node.children@);
    }
    if signature.as_str().is_empty() {
        return signature;
    }
    let digest = sha256_str(signature.as_str());
    let hexstr = hex_encode(digest.as_slice());
    let mut out = mode_prefix(mode);
    out.append(hexstr.as_str());
    proof {
        assert(out@ =~= spec_signature(*node, mode));
    }
    out
}

} // verus!
