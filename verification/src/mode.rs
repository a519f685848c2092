//! The signature mode: which facets of a node feed its signature, and the
//! compact string form of that choice.

use vstd::prelude::*;
use vstd::string::StringExecFns;

verus! {

/// Which facets of a node contribute to its signature: the `class`
/// attribute, the `id` attribute, and raw text content.
#[derive(Clone, Copy, PartialEq, Eq, Debug, Hash, Structural)]
pub struct SignatureMode {
    pub class: bool,
    pub id: bool,
    pub text: bool,
}

/// The canonical string form of a mode: `'c'` if `class`, then `'i'` if
/// `id`, then `'t'` if `text`, always in that order.
pub open spec fn spec_encode_mode(m: SignatureMode) -> Seq<char> {
    (if m.class {
        seq!['c']
    } else {
        Seq::<char>::empty()
    }) + (if m.id {
        seq!['i']
    } else {
        Seq::<char>::empty()
    }) + (if m.text {
        seq!['t']
    } else {
        Seq::<char>::empty()
    })
}

/// The mode read from a string: `'c'`, `'i'` and `'t'` set their flag, in
/// any order and however often; every other character is ignored.
pub open spec fn spec_decode_mode(s: Seq<char>) -> SignatureMode
    decreases s.len(),
{
    if s.len() == 0 {
        SignatureMode { class: false, id: false, text: false }
    } else {
        let m = spec_decode_mode(s.drop_last());
        SignatureMode {
            class: m.class || s.last() == 'c',
            id: m.id || s.last() == 'i',
            text: m.text || s.last() == 't',
        }
    }
}

/// Decoding only tests membership: a flag is set exactly when its letter
/// occurs anywhere in the string, so the order and multiplicity of the
/// input characters do not matter.
pub proof fn lemma_decode_mode_membership(s: Seq<char>)
    ensures
        spec_decode_mode(s).class == s.contains('c'),
        spec_decode_mode(s).id == s.contains('i'),
        spec_decode_mode(s).text == s.contains('t'),
    decreases s.len(),
{
    if s.len() == 0 {
    } else {
        lemma_decode_mode_membership(s.drop_last());
        assert(s =~= s.drop_last().push(s.last()));
        lemma_contains_push(s.drop_last(), s.last(), 'c');
        lemma_contains_push(s.drop_last(), s.last(), 'i');
        lemma_contains_push(s.drop_last(), s.last(), 't');
    }
}

proof fn lemma_contains_push(s: Seq<char>, x: char, y: char)
    ensures
        s.push(x).contains(y) == (s.contains(y) || x == y),
{
    if s.contains(y) {
        let i = choose|i: int| 0 <= i < s.len() && s[i] == y;
        assert(s.push(x)[i] == y);
    }
    if x == y {
        assert(s.push(x)[s.len() as int] == y);
    }
    if s.push(x).contains(y) {
        let i = choose|i: int| 0 <= i < s.push(x).len() && s.push(x)[i] == y;
        if i < s.len() {
            assert(s[i] == y);
        }
    }
}

/// Mode round-trip: re-decoding the canonical encoding of any mode yields
/// that same mode, for every subset of the three flags.
pub proof fn lemma_mode_round_trip(m: SignatureMode)
    ensures
        spec_decode_mode(spec_encode_mode(m)) == m,
{
    let s = spec_encode_mode(m);
    lemma_decode_mode_membership(s);
    if m.class {
        assert(s[0] == 'c');
    }
    if m.id {
        assert(s[if m.class { 1int } else { 0int }] == 'i');
    }
    if m.text {
        assert(s[s.len() - 1] == 't');
    }
    assert(s.contains('c') ==> m.class) by {
        if s.contains('c') {
            let i = choose|i: int| 0 <= i < s.len() && s[i] == 'c';
            assert(m.class);
        }
    }
    assert(s.contains('i') ==> m.id) by {
        if s.contains('i') {
            let i = choose|i: int| 0 <= i < s.len() && s[i] == 'i';
            assert(m.id);
        }
    }
    assert(s.contains('t') ==> m.text) by {
        if s.contains('t') {
            let i = choose|i: int| 0 <= i < s.len() && s[i] == 't';
            assert(m.text);
        }
    }
}

/// Canonicalization: the encoding of a decoded mode depends only on which
/// of the three letters occur in the source string, never on their order
/// or repetition; the output itself is ordered `c`, `i`, `t` by
/// construction of [`spec_encode_mode`].
pub proof fn lemma_encode_mode_canonical(s1: Seq<char>, s2: Seq<char>)
    requires
        s1.contains('c') == s2.contains('c'),
        s1.contains('i') == s2.contains('i'),
        s1.contains('t') == s2.contains('t'),
    ensures
        spec_encode_mode(spec_decode_mode(s1)) == spec_encode_mode(spec_decode_mode(s2)),
{
    lemma_decode_mode_membership(s1);
    lemma_decode_mode_membership(s2);
}

/// Reads a mode from its string form: `'c'`, `'i'` and `'t'` set the
/// corresponding flag; all other characters are ignored.
pub fn decode_mode(s: &str) -> (m: SignatureMode)
    ensures
        m == spec_decode_mode(s@),
{
    let mut m = SignatureMode { class: false, id: false, text: false };
    let len = s.unicode_len();
    let mut i: usize = 0;
    while i < len
        invariant
            len == s@.len(),
            i <= len,
            m == spec_decode_mode(s@.take(i as int)),
        decreases len - i,
    {
        let c = s.get_char(i);
        if c == 'c' {
            m.class = true;
        } else if c == 'i' {
            m.id = true;
        } else if c == 't' {
            m.text = true;
        }
        proof {
            let pre = s@.take(i as int);
            let post = s@.take(i + 1);
            assert(post.drop_last() =~= pre);
            assert(post.last() == s@[i as int]);
        }
        i = i + 1;
    }
    proof {
        assert(s@.take(len as int) =~= s@);
    }
    m
}

/// Writes the canonical string form of a mode: `'c'`, `'i'`, `'t'` in that
/// fixed order, each present exactly when its flag is set.
pub fn encode_mode(m: SignatureMode) -> (s: String)
    ensures
        s@ == spec_encode_mode(m),
{
    proof {
        reveal_strlit("c");
        reveal_strlit("i");
        reveal_strlit("t");
    }
    let mut s = String::new();
    if m.class {
        s.append("c");
        proof {
            assert(s@ =~= seq!['c']);
        }
    }
    if m.id {
        s.append("i");
    }
    if m.text {
        s.append("t");
    }
    proof {
        assert(s@ =~= spec_encode_mode(m));
    }
    s
}

impl From<String> for SignatureMode {
    /// Decodes a mode from an owned string, as [`decode_mode`] does.
    fn from(s: String) -> (m: Self)
        ensures
            m == spec_decode_mode(s@),
    {
        decode_mode(s.as_str())
    }
}

impl vstd::std_specs::convert::FromSpecImpl<String> for SignatureMode {
    open spec fn obeys_from_spec() -> bool {
        true
    }

    open spec fn from_spec(s: String) -> Self {
        spec_decode_mode(s@)
    }
}

impl From<SignatureMode> for String {
    /// Encodes a mode into its canonical string form, as [`encode_mode`]
    /// does.
    fn from(m: SignatureMode) -> (s: Self)
        ensures
            s@ == spec_encode_mode(m),
    {
        encode_mode(m)
    }
}

impl vstd::std_specs::convert::FromSpecImpl<SignatureMode> for String {
    open spec fn obeys_from_spec() -> bool {
        // A `String` cannot be written down in specification code, so the
        // contract lives on [`encode_mode`] and on the impl itself.
        false
    }

    open spec fn from_spec(m: SignatureMode) -> Self {
        arbitrary()
    }
}

} // verus!
