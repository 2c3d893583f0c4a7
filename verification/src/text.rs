//! Ordering of texts, as a store with binary collation orders them.
//!
//! Two texts are compared through their UTF-8 encodings, byte by byte, the
//! shorter one first when it is a prefix of the other. Dates written as
//! `YYYY-MM-DD` come out in calendar order.

use vstd::prelude::*;
use vstd::string::StringSliceAdditionalSpecFns;
use vstd::utf8::{encode_utf8, encode_utf8_decode_utf8};

verus! {

/// Lexicographic `a <= b` on bytes, deciding from position `from` on.
pub open spec fn bytes_le_from(a: Seq<u8>, b: Seq<u8>, from: int) -> bool
    decreases a.len() - from,
{
    if from < 0 || from >= a.len() {
        true
    } else if from >= b.len() {
        false
    } else if a[from] != b[from] {
        a[from] < b[from]
    } else {
        bytes_le_from(a, b, from + 1)
    }
}

/// Lexicographic `a <= b` on bytes.
pub open spec fn bytes_le(a: Seq<u8>, b: Seq<u8>) -> bool {
    bytes_le_from(a, b, 0)
}

/// `a <= b` in the order of the encoded texts.
pub open spec fn text_le(a: Seq<char>, b: Seq<char>) -> bool {
    bytes_le(encode_utf8(a), encode_utf8(b))
}

/// `low <= x <= high` in the order of the encoded texts.
pub open spec fn text_between(x: Seq<char>, low: Seq<char>, high: Seq<char>) -> bool {
    text_le(low, x) && text_le(x, high)
}

/// The two sequences agree on the positions `from..upto`.
pub open spec fn agree_on(a: Seq<u8>, b: Seq<u8>, from: int, upto: int) -> bool {
    forall|k: int| from <= k < upto ==> a[k] == b[k]
}

/// Where two sequences agree up to a position, the order is decided from there.
pub proof fn lemma_le_skips_common_prefix(a: Seq<u8>, b: Seq<u8>, from: int, upto: int)
    requires
        0 <= from <= upto,
        upto <= a.len(),
        upto <= b.len(),
        agree_on(a, b, from, upto),
    ensures
        bytes_le_from(a, b, from) == bytes_le_from(a, b, upto),
    decreases upto - from,
{
    if from < upto {
        lemma_le_skips_common_prefix(a, b, from + 1, upto);
    }
}

/// Every text is at most itself.
pub proof fn lemma_bytes_le_reflexive(a: Seq<u8>)
    ensures
        bytes_le(a, a),
{
    lemma_le_skips_common_prefix(a, a, 0, a.len() as int);
}

/// Of two byte sequences that agree before `from`, one is at most the other.
proof fn lemma_le_total_from(a: Seq<u8>, b: Seq<u8>, from: int)
    requires
        0 <= from,
    ensures
        bytes_le_from(a, b, from) || bytes_le_from(b, a, from),
    decreases a.len() - from,
{
    if from < a.len() && from < b.len() && a[from] == b[from] {
        lemma_le_total_from(a, b, from + 1);
    }
}

/// The order is total.
pub proof fn lemma_bytes_le_total(a: Seq<u8>, b: Seq<u8>)
    ensures
        bytes_le(a, b) || bytes_le(b, a),
{
    lemma_le_total_from(a, b, 0);
}

proof fn lemma_le_transitive_from(a: Seq<u8>, b: Seq<u8>, c: Seq<u8>, from: int)
    requires
        0 <= from,
        bytes_le_from(a, b, from),
        bytes_le_from(b, c, from),
    ensures
        bytes_le_from(a, c, from),
    decreases a.len() - from,
{
    if from < a.len() && from < b.len() && from < c.len() && a[from] == b[from] && b[from]
        == c[from] {
        lemma_le_transitive_from(a, b, c, from + 1);
    }
}

/// The order is transitive.
pub proof fn lemma_bytes_le_transitive(a: Seq<u8>, b: Seq<u8>, c: Seq<u8>)
    requires
        bytes_le(a, b),
        bytes_le(b, c),
    ensures
        bytes_le(a, c),
{
    lemma_le_transitive_from(a, b, c, 0);
}

proof fn lemma_le_antisymmetric_from(a: Seq<u8>, b: Seq<u8>, from: int)
    requires
        0 <= from <= a.len(),
        from <= b.len(),
        bytes_le_from(a, b, from),
        bytes_le_from(b, a, from),
    ensures
        a.len() == b.len(),
        agree_on(a, b, from, a.len() as int),
    decreases a.len() - from,
{
    if from < a.len() {
        lemma_le_antisymmetric_from(a, b, from + 1);
    }
}

/// Two byte sequences that are each at most the other are equal.
pub proof fn lemma_bytes_le_antisymmetric(a: Seq<u8>, b: Seq<u8>)
    requires
        bytes_le(a, b),
        bytes_le(b, a),
    ensures
        a == b,
{
    lemma_le_antisymmetric_from(a, b, 0);
    assert(a =~= b);
}

/// Texts with the same encoding are the same text.
pub proof fn lemma_encoding_is_injective(a: Seq<char>, b: Seq<char>)
    requires
        encode_utf8(a) == encode_utf8(b),
    ensures
        a == b,
{
    encode_utf8_decode_utf8(a);
    encode_utf8_decode_utf8(b);
}

/// The order of texts is reflexive, total and transitive, and two texts
/// that are each at most the other are the same text.
pub proof fn lemma_text_le_is_total_order(a: Seq<char>, b: Seq<char>, c: Seq<char>)
    ensures
        text_le(a, a),
        text_le(a, b) || text_le(b, a),
        text_le(a, b) && text_le(b, c) ==> text_le(a, c),
        text_le(a, b) && text_le(b, a) ==> a == b,
{
    let (x, y, z) = (encode_utf8(a), encode_utf8(b), encode_utf8(c));
    lemma_bytes_le_reflexive(x);
    lemma_bytes_le_total(x, y);
    if text_le(a, b) && text_le(b, c) {
        lemma_bytes_le_transitive(x, y, z);
    }
    if text_le(a, b) && text_le(b, a) {
        lemma_bytes_le_antisymmetric(x, y);
        lemma_encoding_is_injective(a, b);
    }
}

/// Whether `a` comes before `b` or is the same text, comparing the encoded
/// bytes as a store with binary collation does.
pub fn text_at_most(a: &str, b: &str) -> (r: bool)
    ensures
        r == text_le(a@, b@),
{
    let x = a.as_bytes();
    let y = b.as_bytes();
    let mut i: usize = 0;
    while i < x.len() && i < y.len()
        invariant
            i <= x.len(),
            i <= y.len(),
            x@ == encode_utf8(a@),
            y@ == encode_utf8(b@),
            agree_on(x@, y@, 0, i as int),
        decreases x.len() - i,
    {
        if x[i] != y[i] {
            proof {
                lemma_le_skips_common_prefix(x@, y@, 0, i as int);
            }
            return x[i] < y[i];
        }
        i += 1;
    }
    proof {
        lemma_le_skips_common_prefix(x@, y@, 0, i as int);
    }
    i >= x.len()
}

/// Whether the two texts are the same.
pub fn text_equal(a: &str, b: &str) -> (r: bool)
    ensures
        r == (a@ == b@),
{
    let x = a.as_bytes();
    let y = b.as_bytes();
    if x.len() != y.len() {
        return false;
    }
    let mut i: usize = 0;
    while i < x.len()
        invariant
            i <= x.len(),
            x.len() == y.len(),
            x@ == encode_utf8(a@),
            y@ == encode_utf8(b@),
            agree_on(x@, y@, 0, i as int),
        decreases x.len() - i,
    {
        if x[i] != y[i] {
            return false;
        }
        i += 1;
    }
    proof {
        assert(x@ =~= y@);
        lemma_encoding_is_injective(a@, b@);
    }
    true
}

} // verus!
