use domsig::mode::SignatureMode;
use domsig::signature::{get_node_self_signature, get_node_signature};
use domsig::tree::{Node, NodeData};
use sha2::Digest;

fn mode(class: bool, id: bool, text: bool) -> SignatureMode {
    SignatureMode { class, id, text }
}

fn all_modes() -> Vec<SignatureMode> {
    let mut v = Vec::new();
    for &class in &[false, true] {
        for &id in &[false, true] {
            for &text in &[false, true] {
                v.push(mode(class, id, text));
            }
        }
    }
    v
}

fn elem(name: &str, attrs: &[(&str, &str)], children: Vec<Node>) -> Node {
    Node {
        data: NodeData::Element {
            name: name.to_string(),
            attributes: attrs.iter().map(|(k, v)| (k.to_string(), v.to_string())).collect(),
        },
        children,
    }
}

fn text(content: &str) -> Node {
    Node { data: NodeData::Text { content: content.to_string() }, children: Vec::new() }
}

fn sha_hex(s: &str) -> String {
    hex::encode(sha2::Sha256::digest(s.as_bytes()))
}

fn assert_sig_shape(sig: &str, letters: &str) {
    let prefix = format!("v0:{}:", letters);
    assert!(sig.starts_with(&prefix), "signature {:?} lacks prefix {:?}", sig, prefix);
    let digits = &sig[prefix.len()..];
    assert_eq!(digits.len(), 64);
    assert!(digits.chars().all(|c| ('0'..='9').contains(&c) || ('a'..='f').contains(&c)));
}

#[test]
fn determinism_same_tree_same_mode() {
    let n = elem(
        "div",
        &[("id", "a"), ("class", "b")],
        vec![text("sufficient text here"), elem("p", &[], vec![text("another paragraph")])],
    );
    for m in all_modes() {
        assert_eq!(get_node_signature(&n, m), get_node_signature(&n, m));
    }
}

#[test]
fn short_text_is_suppressed() {
    for m in all_modes() {
        assert_eq!(get_node_signature(&text("hi"), m), "");
        assert_eq!(get_node_signature(&elem("p", &[], vec![text("hi")]), m), "");
        assert_eq!(get_node_signature(&text("12345"), m), "");
    }
    // exactly at the threshold: no longer suppressed
    assert_eq!(get_node_signature(&text("123456"), mode(false, false, false)).is_empty(), false);
}

#[test]
fn empty_subtree_is_suppressed() {
    for m in all_modes() {
        assert_eq!(get_node_signature(&elem("br", &[], Vec::new()), m), "");
        assert_eq!(get_node_signature(&elem("div", &[("id", "x")], Vec::new()), m), "");
    }
}

#[test]
fn whitespace_only_text_is_suppressed() {
    // nine bytes of text, but nothing after trimming
    for m in all_modes() {
        assert_eq!(get_node_signature(&text("         "), m), "");
        assert_eq!(get_node_signature(&text("  \n\t  hi  "), m), "");
    }
}

#[test]
fn byte_length_feeds_the_gate() {
    // five characters, but six bytes: enough for the threshold
    let n = text("h\u{e9}llo");
    let sig = get_node_signature(&n, mode(false, false, true));
    assert_sig_shape(&sig, "t");
}

#[test]
fn mode_changes_the_signature() {
    let n = elem("div", &[("id", "a"), ("class", "b")], vec![text("sufficient text here")]);
    let s_plain = get_node_signature(&n, mode(false, false, false));
    let s_id = get_node_signature(&n, mode(false, true, false));
    let s_class = get_node_signature(&n, mode(true, false, false));
    assert_ne!(s_id, s_class);
    assert_ne!(s_id, s_plain);
    assert_ne!(s_class, s_plain);
}

#[test]
fn every_nonempty_signature_is_tagged() {
    let n = elem("div", &[("id", "a"), ("class", "b")], vec![text("sufficient text here")]);
    assert_sig_shape(&get_node_signature(&n, mode(false, false, false)), "");
    assert_sig_shape(&get_node_signature(&n, mode(true, false, false)), "c");
    assert_sig_shape(&get_node_signature(&n, mode(false, true, false)), "i");
    assert_sig_shape(&get_node_signature(&n, mode(false, false, true)), "t");
    assert_sig_shape(&get_node_signature(&n, mode(true, true, true)), "cit");
}

#[test]
fn class_difference_in_a_child() {
    let parent = |class: &str| {
        elem(
            "div",
            &[],
            vec![elem("span", &[("class", class)], vec![text("sufficient text here")])],
        )
    };
    let a = parent("one");
    let b = parent("two");
    let with_class = mode(true, false, true);
    let without_class = mode(false, false, true);
    assert_ne!(get_node_signature(&a, with_class), get_node_signature(&b, with_class));
    assert_eq!(get_node_signature(&a, without_class), get_node_signature(&b, without_class));
}

#[test]
fn child_order_changes_the_signature() {
    let a = elem("div", &[], vec![text("first child text"), text("second child text")]);
    let b = elem("div", &[], vec![text("second child text"), text("first child text")]);
    let m = mode(false, false, true);
    assert_ne!(get_node_signature(&a, m), get_node_signature(&b, m));
}

#[test]
fn end_to_end_hello_world() {
    let n = elem("p", &[], vec![text("hello world")]);
    let m = mode(false, false, true);
    // the text child's self-signature, hashed and tagged
    assert_eq!(get_node_self_signature(&n.children[0], m), "v0:t:hello world");
    let child_sig = format!("v0:t:{}", sha_hex("v0:t:hello world"));
    assert_eq!(get_node_signature(&n.children[0], m), child_sig);
    // the parent accumulates its own self-signature and the child's hash
    assert_eq!(get_node_self_signature(&n, m), "v0:t:p");
    let expected = format!("v0:t:{}", sha_hex(&format!("v0:t:p{}", child_sig)));
    assert_eq!(get_node_signature(&n, m), expected);
}

#[test]
fn self_signature_reads_id_then_class() {
    let n = elem("div", &[("class", "b"), ("id", "a")], vec![text("sufficient text here")]);
    assert_eq!(get_node_self_signature(&n, mode(true, true, false)), "v0:ci:divab");
    assert_eq!(get_node_self_signature(&n, mode(false, true, false)), "v0:i:diva");
    assert_eq!(get_node_self_signature(&n, mode(true, false, false)), "v0:c:divb");
    assert_eq!(get_node_self_signature(&n, mode(false, false, false)), "v0::div");
}

#[test]
fn missing_attributes_contribute_nothing() {
    let with_attrs = elem("div", &[], vec![text("sufficient text here")]);
    let m = mode(true, true, false);
    assert_eq!(get_node_self_signature(&with_attrs, m), "v0:ci:div");
}

#[test]
fn self_signature_empty_without_visible_text() {
    for m in all_modes() {
        assert_eq!(get_node_self_signature(&elem("br", &[], Vec::new()), m), "");
        assert_eq!(get_node_self_signature(&text("   "), m), "");
    }
}

#[test]
fn container_node_aggregates_children() {
    let doc = Node {
        data: NodeData::Container,
        children: vec![elem("p", &[], vec![text("hello world")])],
    };
    let m = mode(false, false, true);
    let sig = get_node_signature(&doc, m);
    assert_sig_shape(&sig, "t");
    // the container itself adds only its prefix before the children
    let p_sig = get_node_signature(&doc.children[0], m);
    let expected = format!("v0:t:{}", sha_hex(&format!("v0:t:{}", p_sig)));
    assert_eq!(sig, expected);
}

#[test]
fn short_child_subtree_is_fully_abandoned() {
    // the first child's own trimmed text "ab" is short, so that whole
    // subtree contributes nothing; only the second child is aggregated
    let child_short_gate = elem("div", &[], vec![text("ab   ")]);
    let parent = elem("body", &[], vec![child_short_gate, text("abcdefgh")]);
    let m = mode(false, false, true);
    let second_child_sig = format!("v0:t:{}", sha_hex("v0:t:abcdefgh"));
    let expected = format!("v0:t:{}", sha_hex(&format!("v0:t:body{}", second_child_sig)));
    assert_eq!(get_node_signature(&parent, m), expected);
}
