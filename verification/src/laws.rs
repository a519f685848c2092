//! Laws of the signature engine: suppression, the shape of non-empty
//! signatures, and what signatures do and do not depend on.

use vstd::prelude::*;
use vstd::utf8::encode_utf8;

use crate::mode::{lemma_mode_round_trip, spec_encode_mode, SignatureMode};
use crate::signature::{
    spec_byte_len, spec_child_signatures, spec_local_payload, spec_mode_prefix,
    spec_self_signature, spec_signature, LENGTH_THRESHOLD,
};
use crate::tree::{spec_attr_lookup, spec_concat_texts, spec_text_contents, Node, NodeData};
use crate::trusted::{spec_digest, spec_hex, spec_hex_digit, spec_trimmed};

verus! {

/// Short-text suppression: a node whose trimmed descendant text has fewer
/// bytes than the threshold yields the empty signature, under every mode.
pub proof fn lemma_short_text_suppression(n: Node, m: SignatureMode)
    requires
        spec_byte_len(spec_trimmed(spec_text_contents(n))) < LENGTH_THRESHOLD,
    ensures
        spec_signature(n, m) == Seq::<char>::empty(),
{
}

/// Empty-subtree suppression: a node that is not a text node and has no
/// children — a leaf element, say — has no descendant text at all and
/// yields the empty signature, under every mode.
pub proof fn lemma_empty_subtree_suppression(n: Node, m: SignatureMode)
    requires
        !(n.data is Text),
        n.children@.len() == 0,
    ensures
        spec_signature(n, m) == Seq::<char>::empty(),
{
    assert(spec_text_contents(n) =~= Seq::<char>::empty());
    assert(encode_utf8(Seq::<char>::empty()).len() == 0);
}

/// A lowercase hexadecimal digit.
pub open spec fn is_lower_hex_digit(c: char) -> bool {
    ('0' <= c && c <= '9') || ('a' <= c && c <= 'f')
}

/// The hexadecimal encoding of a byte sequence has two characters per
/// byte, each a lowercase hexadecimal digit.
pub proof fn lemma_hex_shape(bytes: Seq<u8>)
    ensures
        spec_hex(bytes).len() == 2 * bytes.len(),
        forall|i: int|
            0 <= i < spec_hex(bytes).len() ==> is_lower_hex_digit(#[trigger] spec_hex(bytes)[i]),
    decreases bytes.len(),
{
    if bytes.len() == 0 {
    } else {
        lemma_hex_shape(bytes.drop_last());
        assert(is_lower_hex_digit(spec_hex_digit(bytes.last() / 16)));
        assert(is_lower_hex_digit(spec_hex_digit(bytes.last() % 16)));
        assert forall|i: int| 0 <= i < spec_hex(bytes).len() implies is_lower_hex_digit(
            #[trigger] spec_hex(bytes)[i],
        ) by {
            if i < spec_hex(bytes.drop_last()).len() {
                assert(spec_hex(bytes)[i] == spec_hex(bytes.drop_last())[i]);
            }
        }
    }
}

/// Version/mode tagging: every non-empty signature is exactly the version
/// marker `v0:`, the canonical mode letters, a colon, and 64 lowercase
/// hexadecimal digits of a SHA-256 digest.
pub proof fn lemma_signature_shape(n: Node, m: SignatureMode)
    requires
        spec_signature(n, m).len() != 0,
    ensures
        spec_signature(n, m) == spec_mode_prefix(m) + spec_hex(
            spec_digest(spec_self_signature(n, m) + spec_child_signatures(n.children@, m)),
        ),
        spec_signature(n, m).len() == spec_mode_prefix(m).len() + 64,
        spec_signature(n, m).subrange(0, spec_mode_prefix(m).len() as int) == spec_mode_prefix(m),
        forall|i: int|
            spec_mode_prefix(m).len() <= i < spec_signature(n, m).len() ==> is_lower_hex_digit(
                #[trigger] spec_signature(n, m)[i],
            ),
{
    let acc = spec_self_signature(n, m) + spec_child_signatures(n.children@, m);
    lemma_hex_shape(spec_digest(acc));
    assert(spec_digest(acc).len() == 32);
    assert(spec_signature(n, m).subrange(0, spec_mode_prefix(m).len() as int) =~= spec_mode_prefix(
        m,
    ));
}

/// Mode sensitivity: on one and the same node, two different modes never
/// yield the same non-empty signature — the mode letters embedded in the
/// prefix keep them apart, whatever the hashed payloads are.
pub proof fn lemma_mode_sensitivity(n: Node, m1: SignatureMode, m2: SignatureMode)
    requires
        m1 != m2,
        spec_signature(n, m1).len() != 0,
        spec_signature(n, m2).len() != 0,
    ensures
        spec_signature(n, m1) != spec_signature(n, m2),
{
    let s1 = spec_signature(n, m1);
    let s2 = spec_signature(n, m2);
    let e1 = spec_encode_mode(m1);
    let e2 = spec_encode_mode(m2);
    lemma_signature_shape(n, m1);
    lemma_signature_shape(n, m2);
    if e1 =~= e2 {
        lemma_mode_round_trip(m1);
        lemma_mode_round_trip(m2);
        assert(false);
    }
    if e1.len() == e2.len() {
        let j = choose|j: int| 0 <= j < e1.len() && e1[j] != e2[j];
        assert(s1[3 + j] == e1[j]);
        assert(s2[3 + j] == e2[j]);
        assert(s1 != s2);
    } else {
        assert(s1.len() != s2.len());
    }
}

/// Determinism: the signature is a function of the tree and the mode
/// alone, so any two results of [`crate::signature::get_node_signature`]
/// on the same unmodified tree and the same mode are the same string.
pub proof fn lemma_signature_deterministic(
    n: &Node,
    m: SignatureMode,
    r1: String,
    r2: String,
)
    requires
        call_ensures(crate::signature::get_node_signature, (n, m), r1),
        call_ensures(crate::signature::get_node_signature, (n, m), r2),
    ensures
        r1@ == r2@,
{
}

/// Everything the signature of a subtree reads, except class attributes:
/// the two trees have the same shape, the same tag names, `id` attributes
/// and text, but may differ in their `class` (or any other non-`id`)
/// attributes.
pub open spec fn eq_ignoring_class(a: Node, b: Node) -> bool
    decreases a,
{
    &&& match (a.data, b.data) {
        (
            NodeData::Element { name: name_a, attributes: attrs_a },
            NodeData::Element { name: name_b, attributes: attrs_b },
        ) => name_a@ == name_b@ && spec_attr_lookup(attrs_a@, "id"@) == spec_attr_lookup(
            attrs_b@,
            "id"@,
        ),
        (NodeData::Text { content: content_a }, NodeData::Text { content: content_b }) => content_a@
            == content_b@,
        (NodeData::Container, NodeData::Container) => true,
        _ => false,
    }
    &&& a.children@.len() == b.children@.len()
    &&& forall|i: int|
        0 <= i < a.children@.len() ==> eq_ignoring_class(
            #[trigger] a.children@[i],
            b.children@[i],
        )
}

proof fn lemma_eq_ignoring_class_text(a: Node, b: Node)
    requires
        eq_ignoring_class(a, b),
    ensures
        spec_text_contents(a) == spec_text_contents(b),
    decreases a,
{
    lemma_eq_ignoring_class_texts(a.children@, b.children@);
}

proof fn lemma_eq_ignoring_class_texts(xs: Seq<Node>, ys: Seq<Node>)
    requires
        xs.len() == ys.len(),
        forall|i: int| 0 <= i < xs.len() ==> eq_ignoring_class(#[trigger] xs[i], ys[i]),
    ensures
        spec_concat_texts(xs) == spec_concat_texts(ys),
    decreases xs,
{
    if xs.len() != 0 {
        lemma_eq_ignoring_class_texts(xs.drop_last(), ys.drop_last());
        lemma_eq_ignoring_class_text(xs.last(), ys.last());
    }
}

/// Class insensitivity: when the mode does not include `class`, two trees
/// that agree on everything the signature reads except class attributes
/// get identical signatures.
pub proof fn lemma_class_insensitivity(a: Node, b: Node, m: SignatureMode)
    requires
        eq_ignoring_class(a, b),
        !m.class,
    ensures
        spec_signature(a, m) == spec_signature(b, m),
    decreases a,
{
    lemma_eq_ignoring_class_text(a, b);
    assert(spec_local_payload(a, m) == spec_local_payload(b, m));
    lemma_class_insensitivity_children(a.children@, b.children@, m);
}

proof fn lemma_class_insensitivity_children(xs: Seq<Node>, ys: Seq<Node>, m: SignatureMode)
    requires
        xs.len() == ys.len(),
        forall|i: int| 0 <= i < xs.len() ==> eq_ignoring_class(#[trigger] xs[i], ys[i]),
        !m.class,
    ensures
        spec_child_signatures(xs, m) == spec_child_signatures(ys, m),
    decreases xs,
{
    if xs.len() != 0 {
        lemma_class_insensitivity_children(xs.drop_last(), ys.drop_last(), m);
        lemma_class_insensitivity(xs.last(), ys.last(), m);
    }
}

} // verus!
