//! Keys: opaque byte strings in lexicographic order, and their text.

use vstd::prelude::*;
use vstd::utf8::{decode_utf8, decode_utf8_encode_utf8, encode_utf8, valid_utf8};

verus! {

/// Whether key `a` sorts strictly before key `b`: at the first position where
/// the two differ `a` holds the smaller byte, or `a` ends there and `b` goes on.
pub open spec fn key_lt(a: Seq<u8>, b: Seq<u8>) -> bool
    decreases a.len(),
{
    if b.len() == 0 {
        false
    } else if a.len() == 0 {
        true
    } else if a[0] != b[0] {
        a[0] < b[0]
    } else {
        key_lt(a.drop_first(), b.drop_first())
    }
}

/// Whether key `a` sorts before key `b` or is the same key.
pub open spec fn key_le(a: Seq<u8>, b: Seq<u8>) -> bool {
    a == b || key_lt(a, b)
}

/// Whether `key` lies in the half-open range from `lo` up to, not including, `hi`.
pub open spec fn in_range(key: Seq<u8>, lo: Seq<u8>, hi: Seq<u8>) -> bool {
    key_le(lo, key) && key_lt(key, hi)
}

/// Whether each key of `keys` sorts strictly before the one behind it.
pub open spec fn ascending(keys: Seq<Seq<u8>>) -> bool {
    forall|i: int, j: int| 0 <= i < j < keys.len() ==> key_lt(#[trigger] keys[i], #[trigger] keys[j])
}

/// No key sorts strictly before itself.
pub proof fn lemma_key_lt_irreflexive(a: Seq<u8>)
    ensures
        !key_lt(a, a),
    decreases a.len(),
{
    if a.len() > 0 {
        lemma_key_lt_irreflexive(a.drop_first());
    }
}

/// The strict order on keys is transitive.
pub proof fn lemma_key_lt_transitive(a: Seq<u8>, b: Seq<u8>, c: Seq<u8>)
    requires
        key_lt(a, b),
        key_lt(b, c),
    ensures
        key_lt(a, c),
    decreases a.len(),
{
    if a.len() > 0 && a[0] == b[0] && b[0] == c[0] {
        lemma_key_lt_transitive(a.drop_first(), b.drop_first(), c.drop_first());
    }
}

/// The order on keys is transitive.
pub proof fn lemma_key_le_transitive(a: Seq<u8>, b: Seq<u8>, c: Seq<u8>)
    requires
        key_le(a, b),
        key_le(b, c),
    ensures
        key_le(a, c),
{
    if key_lt(a, b) && key_lt(b, c) {
        lemma_key_lt_transitive(a, b, c);
    }
}

/// Of two different keys one sorts strictly before the other.
pub proof fn lemma_key_order_total(a: Seq<u8>, b: Seq<u8>)
    ensures
        key_lt(a, b) || a == b || key_lt(b, a),
    decreases a.len(),
{
    if a.len() > 0 && b.len() > 0 && a[0] == b[0] {
        lemma_key_order_total(a.drop_first(), b.drop_first());
        if a.drop_first() == b.drop_first() {
            assert(a =~= seq![a[0]] + a.drop_first());
            assert(b =~= seq![b[0]] + b.drop_first());
        }
    } else if a.len() == 0 && b.len() == 0 {
        assert(a =~= b);
    }
}

/// No two keys sort strictly before each other.
pub proof fn lemma_key_lt_asymmetric(a: Seq<u8>, b: Seq<u8>)
    requires
        key_lt(a, b),
    ensures
        !key_lt(b, a),
{
    if key_lt(b, a) {
        lemma_key_lt_transitive(a, b, a);
        lemma_key_lt_irreflexive(a);
    }
}

/// The text that a lossy UTF-8 decoding makes of `bytes`.
pub uninterp spec fn lossy_text(bytes: Seq<u8>) -> Seq<char>;

/// The text of a key: the characters it encodes where it is well-formed
/// UTF-8, and what a lossy decoding makes of it where it is not.
pub open spec fn key_text(bytes: Seq<u8>) -> Seq<char> {
    if valid_utf8(bytes) {
        decode_utf8(bytes)
    } else {
        lossy_text(bytes)
    }
}

/// The bytes that stand for `text` when it is used as a key.
pub open spec fn text_key(text: Seq<char>) -> Seq<u8> {
    encode_utf8(text)
}

/// A key that is well-formed UTF-8 is the key of its own text.
pub proof fn lemma_text_round_trip(bytes: Seq<u8>)
    requires
        valid_utf8(bytes),
    ensures
        text_key(key_text(bytes)) == bytes,
{
    decode_utf8_encode_utf8(bytes);
}

/// Calls `String::from_utf8_lossy` on the key and takes the text out of the
/// `Cow`. Trusted: the text is named `lossy_text` of the key's bytes, and for a
/// key that is well-formed UTF-8 it is the string that the bytes encode, as
/// std documents. The call does not panic.
#[verifier::external_body]
pub(crate) fn lossy_string(key: &Vec<u8>) -> (text: String)
    ensures
        text@ == lossy_text(key@),
        valid_utf8(key@) ==> text@ == decode_utf8(key@),
{
    String::from_utf8_lossy(key.as_slice()).into_owned()
}

/// The text of `key`, with each ill-formed stretch of bytes replaced as a
/// lossy UTF-8 decoding replaces it.
pub fn text_of_key(key: &Vec<u8>) -> (text: String)
    ensures
        text@ == key_text(key@),
{
    lossy_string(key)
}

} // verus!
