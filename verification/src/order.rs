//! Byte-lexicographic order on addresses.
//!
//! The surrounding runtime's key-value store ranges ballot keys by the UTF-8
//! bytes of the judge address.  The ledger reproduces that order: the spec
//! order compares the UTF-8 encodings of the two character sequences, and the
//! executable comparison walks the byte slices.

use vstd::prelude::*;
use vstd::string::StringSliceAdditionalSpecFns;
use vstd::utf8::encode_utf8;

verus! {

/// Strict lexicographic order on byte strings, read from position `i` on.
pub open spec fn lex_lt_from(a: Seq<u8>, b: Seq<u8>, i: int) -> bool
    decreases b.len() - i,
{
    i < b.len() && (i >= a.len() || a[i] < b[i] || (a[i] == b[i] && lex_lt_from(a, b, i + 1)))
}

/// Strict lexicographic order on byte strings.
pub open spec fn lex_lt(a: Seq<u8>, b: Seq<u8>) -> bool {
    lex_lt_from(a, b, 0)
}

/// Strict order on addresses: byte-wise comparison of their UTF-8 encodings.
pub open spec fn addr_lt(a: Seq<char>, b: Seq<char>) -> bool {
    lex_lt(encode_utf8(a), encode_utf8(b))
}

/// Skipping a common prefix does not change the comparison.
proof fn lemma_lex_lt_skip(a: Seq<u8>, b: Seq<u8>, i: int)
    requires
        0 <= i <= a.len(),
        i <= b.len(),
        forall|k: int| 0 <= k < i ==> a[k] == b[k],
    ensures
        lex_lt(a, b) == lex_lt_from(a, b, i),
    decreases i,
{
    if i > 0 {
        assert(lex_lt_from(a, b, i - 1) == lex_lt_from(a, b, i));
        lemma_lex_lt_skip(a, b, i - 1);
    }
}

/// The order is asymmetric from any position on.
proof fn lemma_lex_lt_from_asym(a: Seq<u8>, b: Seq<u8>, i: int)
    ensures
        !(lex_lt_from(a, b, i) && lex_lt_from(b, a, i)),
    decreases b.len() - i,
{
    if i < b.len() && i < a.len() && a[i] == b[i] {
        lemma_lex_lt_from_asym(a, b, i + 1);
    }
}

/// Two byte strings that neither order below the other agree from `i` on.
proof fn lemma_lex_lt_from_connected(a: Seq<u8>, b: Seq<u8>, i: int)
    requires
        0 <= i <= a.len(),
        i <= b.len(),
        !lex_lt_from(a, b, i),
        !lex_lt_from(b, a, i),
    ensures
        a.len() == b.len(),
        forall|k: int| i <= k < a.len() ==> a[k] == b[k],
    decreases b.len() - i,
{
    if i < a.len() && i < b.len() {
        lemma_lex_lt_from_connected(a, b, i + 1);
    }
}

/// The order is transitive from any position on.
proof fn lemma_lex_lt_from_trans(a: Seq<u8>, b: Seq<u8>, c: Seq<u8>, i: int)
    requires
        lex_lt_from(a, b, i),
        lex_lt_from(b, c, i),
    ensures
        lex_lt_from(a, c, i),
    decreases c.len() - i,
{
    if i < a.len() && i < b.len() && i < c.len() && a[i] == b[i] && b[i] == c[i] {
        lemma_lex_lt_from_trans(a, b, c, i + 1);
    }
}

/// An address never orders below itself, and never below an address that
/// orders below it.
pub proof fn lemma_addr_lt_asym(a: Seq<char>, b: Seq<char>)
    ensures
        !(addr_lt(a, b) && addr_lt(b, a)),
{
    lemma_lex_lt_from_asym(encode_utf8(a), encode_utf8(b), 0);
}

/// Two addresses that neither order below the other are the same address.
pub proof fn lemma_addr_lt_connected(a: Seq<char>, b: Seq<char>)
    requires
        !addr_lt(a, b),
        !addr_lt(b, a),
    ensures
        a == b,
{
    broadcast use vstd::utf8::encode_utf8_decode_utf8;

    lemma_lex_lt_from_connected(encode_utf8(a), encode_utf8(b), 0);
    assert(encode_utf8(a) =~= encode_utf8(b));
    assert(vstd::utf8::decode_utf8(encode_utf8(a)) == a);
}

/// The address order is transitive.
pub proof fn lemma_addr_lt_trans(a: Seq<char>, b: Seq<char>, c: Seq<char>)
    requires
        addr_lt(a, b),
        addr_lt(b, c),
    ensures
        addr_lt(a, c),
{
    lemma_lex_lt_from_trans(encode_utf8(a), encode_utf8(b), encode_utf8(c), 0);
}

/// Executable comparison of two addresses in the order of `addr_lt`.
pub fn addr_str_lt(a: &str, b: &str) -> (r: bool)
    ensures
        r == addr_lt(a@, b@),
{
    let ab = a.as_bytes();
    let bb = b.as_bytes();
    let alen = ab.len();
    let blen = bb.len();
    let mut i: usize = 0;
    while i < alen && i < blen
        invariant
            ab@ == encode_utf8(a@),
            bb@ == encode_utf8(b@),
            alen == ab@.len(),
            blen == bb@.len(),
            0 <= i <= alen,
            i <= blen,
            forall|k: int| 0 <= k < i ==> ab@[k] == bb@[k],
        decreases alen - i,
    {
        if ab[i] < bb[i] {
            proof {
                lemma_lex_lt_skip(ab@, bb@, i as int);
            }
            return true;
        }
        if ab[i] > bb[i] {
            proof {
                lemma_lex_lt_skip(ab@, bb@, i as int);
            }
            return false;
        }
        i = i + 1;
    }
    proof {
        lemma_lex_lt_skip(ab@, bb@, i as int);
    }
    alen < blen
}

} // verus!
