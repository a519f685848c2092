//! Structural fingerprints for nodes of a parsed markup tree.
//!
//! A signature is a deterministic string derived from a node's tag name,
//! selected attributes, text content and the recursively computed signatures
//! of its children. Comparing two signatures tells whether the meaningful
//! content of two subtrees is identical, without a full-tree diff.

pub mod laws;
pub mod mode;
pub mod signature;
pub mod tree;
pub mod trusted;

pub use mode::{decode_mode, encode_mode, SignatureMode};
pub use signature::get_node_signature;
