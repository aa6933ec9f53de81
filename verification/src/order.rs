//! The lexicographic order of byte strings, which is also the order of texts.
use vstd::prelude::*;
use vstd::utf8::*;

verus! {

/// `a` and `b` agree on their first `n` bytes, and at `n` either `a` has ended or its byte is
/// the smaller one.
pub open spec fn below_at(a: Seq<u8>, b: Seq<u8>, n: int) -> bool {
    &&& 0 <= n <= a.len()
    &&& n < b.len()
    &&& forall|i: int| 0 <= i < n ==> a[i] == b[i]
    &&& n == a.len() || a[n] < b[n]
}

/// `a` comes before `b` in lexicographic order.
pub open spec fn bytes_lt(a: Seq<u8>, b: Seq<u8>) -> bool {
    exists|n: int| below_at(a, b, n)
}

/// `a` comes before `b` in the order of texts: that of their UTF-8 bytes.
pub open spec fn text_lt(a: Seq<char>, b: Seq<char>) -> bool {
    bytes_lt(encode_utf8(a), encode_utf8(b))
}

/// The order has no two-way pairs.
pub proof fn lemma_bytes_lt_asymmetric(a: Seq<u8>, b: Seq<u8>)
    requires
        bytes_lt(a, b),
    ensures
        !bytes_lt(b, a),
{
    let n = choose|n: int| below_at(a, b, n);
    assert forall|m: int| !below_at(b, a, m) by {
        if below_at(b, a, m) {
            if m < n {
                assert(a[m] == b[m]);
            } else if n < m {
                assert(a[n] == b[n]);
            }
        }
    }
}

/// The order is transitive.
pub proof fn lemma_bytes_lt_transitive(a: Seq<u8>, b: Seq<u8>, c: Seq<u8>)
    requires
        bytes_lt(a, b),
        bytes_lt(b, c),
    ensures
        bytes_lt(a, c),
{
    let n = choose|n: int| below_at(a, b, n);
    let m = choose|m: int| below_at(b, c, m);
    if n <= m {
        assert(below_at(a, c, n));
    } else {
        assert(below_at(a, c, m));
    }
}

/// Two texts with the same UTF-8 bytes are the same text.
pub proof fn lemma_encode_utf8_injective(a: Seq<char>, b: Seq<char>)
    requires
        encode_utf8(a) == encode_utf8(b),
    ensures
        a == b,
{
    encode_utf8_decode_utf8(a);
    encode_utf8_decode_utf8(b);
}

/// Whether `a` comes before `b` in lexicographic order, given that they agree before `n`.
proof fn lemma_first_difference(a: Seq<u8>, b: Seq<u8>, n: int)
    requires
        0 <= n <= a.len(),
        n <= b.len(),
        forall|i: int| 0 <= i < n ==> a[i] == b[i],
        n == a.len() || n == b.len() || a[n] != b[n],
    ensures
        bytes_lt(a, b) == (n < b.len() && (n == a.len() || a[n] < b[n])),
        n == a.len() && n == b.len() ==> a == b,
        !(n == a.len() && n == b.len()) ==> bytes_lt(a, b) || bytes_lt(b, a),
{
    if n < b.len() && (n == a.len() || a[n] < b[n]) {
        assert(below_at(a, b, n));
    } else {
        assert forall|m: int| !below_at(a, b, m) by {
            if below_at(a, b, m) && m < n {
                assert(a[m] == b[m]);
            }
        }
        if n < a.len() {
            assert(below_at(b, a, n));
        } else {
            assert(a =~= b);
        }
    }
}

/// How two texts stand to each other.
#[derive(Clone, Copy, PartialEq, Eq, Structural, Debug)]
pub enum Relation {
    Before,
    Same,
    After,
}

/// Places `a` before, at or after `b` in the order of texts.
pub fn relate(a: &str, b: &str) -> (relation: Relation)
    ensures
        match relation {
            Relation::Before => text_lt(a@, b@) && a@ != b@ && !text_lt(b@, a@),
            Relation::Same => a@ == b@ && !text_lt(a@, b@) && !text_lt(b@, a@),
            Relation::After => text_lt(b@, a@) && a@ != b@ && !text_lt(a@, b@),
        },
{
    let x = a.as_bytes();
    let y = b.as_bytes();
    let mut n: usize = 0;
    while n < x.len() && n < y.len() && x[n] == y[n]
        invariant
            n <= x@.len(),
            n <= y@.len(),
            forall|i: int| 0 <= i < n ==> x@[i] == y@[i],
        decreases x@.len() - n,
    {
        n = n + 1;
    }
    proof {
        lemma_first_difference(x@, y@, n as int);
        lemma_first_difference(y@, x@, n as int);
        if x@ == y@ {
            lemma_encode_utf8_injective(a@, b@);
        }
        if bytes_lt(x@, y@) {
            lemma_bytes_lt_asymmetric(x@, y@);
        }
    }
    if n == y.len() {
        if n == x.len() {
            Relation::Same
        } else {
            Relation::After
        }
    } else if n == x.len() {
        Relation::Before
    } else if x[n] < y[n] {
        Relation::Before
    } else {
        Relation::After
    }
}

} // verus!
