//! The order in which a directory lists its names: lexicographic by the bytes
//! of their UTF-8 encoding, which is the order of `str` itself.

use vstd::prelude::*;
use vstd::string::StringSliceAdditionalSpecFns;
use vstd::utf8::encode_utf8;
use vstd::utf8::encode_utf8_decode_utf8;

verus! {

/// How one name stands to another in the listing order.
#[derive(Debug, Clone, Copy, PartialEq, Eq, Structural)]
pub enum NameRank {
    Before,
    Same,
    After,
}

/// The first `k` bytes of `a` and `b` agree.
pub open spec fn common_prefix(a: Seq<u8>, b: Seq<u8>, k: int) -> bool {
    &&& 0 <= k <= a.len()
    &&& k <= b.len()
    &&& forall|j: int| 0 <= j < k ==> a[j] == b[j]
}

/// `a` and `b` agree on their first `k` bytes, and at position `k` either `a`
/// has ended while `b` goes on, or `a` holds the smaller byte.
pub open spec fn bytes_lt_at(a: Seq<u8>, b: Seq<u8>, k: int) -> bool {
    &&& common_prefix(a, b, k)
    &&& k < b.len()
    &&& (k == a.len() || a[k] < b[k])
}

/// `a` comes strictly before `b` in lexicographic order.
pub open spec fn bytes_lt(a: Seq<u8>, b: Seq<u8>) -> bool {
    exists|k: int| bytes_lt_at(a, b, k)
}

/// The name `a` is listed strictly before the name `b`.
pub open spec fn name_lt(a: Seq<char>, b: Seq<char>) -> bool {
    bytes_lt(encode_utf8(a), encode_utf8(b))
}

/// Every two names of `names` stand in listing order, so none occurs twice.
pub open spec fn strictly_ascending(names: Seq<Seq<char>>) -> bool {
    forall|i: int, j: int| 0 <= i < j < names.len() ==> name_lt(#[trigger] names[i], #[trigger] names[j])
}

/// No byte string comes before itself.
pub proof fn lemma_bytes_lt_irreflexive(a: Seq<u8>)
    ensures
        !bytes_lt(a, a),
{
    assert forall|k: int| !bytes_lt_at(a, a, k) by {}
}

/// The order is transitive.
pub proof fn lemma_bytes_lt_transitive(a: Seq<u8>, b: Seq<u8>, c: Seq<u8>)
    requires
        bytes_lt(a, b),
        bytes_lt(b, c),
    ensures
        bytes_lt(a, c),
{
    let k1 = choose|k: int| bytes_lt_at(a, b, k);
    let k2 = choose|k: int| bytes_lt_at(b, c, k);
    if k1 <= k2 {
        assert(bytes_lt_at(a, c, k1));
    } else {
        assert(bytes_lt_at(a, c, k2));
    }
}

/// No name is listed before itself.
pub proof fn lemma_name_lt_irreflexive(a: Seq<char>)
    ensures
        !name_lt(a, a),
{
    lemma_bytes_lt_irreflexive(encode_utf8(a));
}

/// The listing order is transitive.
pub proof fn lemma_name_lt_transitive(a: Seq<char>, b: Seq<char>, c: Seq<char>)
    requires
        name_lt(a, b),
        name_lt(b, c),
    ensures
        name_lt(a, c),
{
    lemma_bytes_lt_transitive(encode_utf8(a), encode_utf8(b), encode_utf8(c));
}

/// Finds how `a` stands to `b` in the listing order.
pub fn name_rank(a: &str, b: &str) -> (r: NameRank)
    ensures
        r == NameRank::Before <==> name_lt(a@, b@),
        r == NameRank::Same <==> a@ == b@,
        r == NameRank::After <==> name_lt(b@, a@),
{
    let x = a.as_bytes();
    let y = b.as_bytes();
    let n = x.len();
    let m = y.len();
    let mut i: usize = 0;
    let mut r = NameRank::Same;
    while i < n && i < m && r == NameRank::Same
        invariant
            n == x@.len(),
            m == y@.len(),
            x@ == encode_utf8(a@),
            y@ == encode_utf8(b@),
            r == NameRank::Same ==> common_prefix(x@, y@, i as int),
            r == NameRank::Before ==> bytes_lt(x@, y@),
            r == NameRank::After ==> bytes_lt(y@, x@),
        decreases (if r == NameRank::Same { 1int } else { 0int }), n - i,
    {
        if x[i] < y[i] {
            assert(bytes_lt_at(x@, y@, i as int));
            r = NameRank::Before;
        } else if x[i] > y[i] {
            assert(bytes_lt_at(y@, x@, i as int));
            r = NameRank::After;
        } else {
            i += 1;
        }
    }
    if r == NameRank::Same {
        if n < m {
            assert(bytes_lt_at(x@, y@, n as int));
            r = NameRank::Before;
        } else if m < n {
            assert(bytes_lt_at(y@, x@, m as int));
            r = NameRank::After;
        } else {
            assert(x@ =~= y@);
        }
    }
    proof {
        encode_utf8_decode_utf8(a@);
        encode_utf8_decode_utf8(b@);
        lemma_bytes_lt_irreflexive(x@);
        if bytes_lt(x@, y@) && bytes_lt(y@, x@) {
            lemma_bytes_lt_transitive(x@, y@, x@);
        }
    }
    r
}

} // verus!
