//! Lexicographic order on byte strings, the order in which a sorted index
//! compares raw keys.

use vstd::prelude::*;
use crate::bytes::{be_value, lemma_be_value_injective};

verus! {

/// `a` and `b` agree on their first `k` bytes, and at position `k` either
/// `a` has ended while `b` goes on, or `a` holds the smaller byte.
pub open spec fn lex_lt_at(a: Seq<u8>, b: Seq<u8>, k: int) -> bool {
    &&& 0 <= k <= a.len()
    &&& k < b.len()
    &&& forall|i: int| 0 <= i < k ==> a[i] == b[i]
    &&& k < a.len() ==> a[k] < b[k]
}

/// `a` comes strictly before `b` when the two are compared byte by byte as
/// unsigned values, a proper prefix coming before any of its extensions.
pub open spec fn lex_lt(a: Seq<u8>, b: Seq<u8>) -> bool {
    exists|k: int| lex_lt_at(a, b, k)
}

/// No string comes before itself, and no two strings come before each other.
pub proof fn lemma_lex_lt_asymmetric(a: Seq<u8>, b: Seq<u8>)
    requires
        lex_lt(a, b),
    ensures
        !lex_lt(b, a),
        a != b,
{
    let k = choose|k: int| lex_lt_at(a, b, k);
    if lex_lt(b, a) {
        let j = choose|j: int| lex_lt_at(b, a, j);
        if j < k {
            assert(a[j] == b[j]);
        } else if k < j {
            assert(b[k] == a[k]);
        }
    }
}

/// A smaller first byte decides the order.
pub proof fn lemma_lex_lt_first_byte(a: Seq<u8>, b: Seq<u8>)
    requires
        a.len() > 0,
        b.len() > 0,
        a[0] < b[0],
    ensures
        lex_lt(a, b),
{
    assert(lex_lt_at(a, b, 0));
}

/// Behind a common prefix the order of the rests decides.
pub proof fn lemma_lex_lt_after_prefix(p: Seq<u8>, a: Seq<u8>, b: Seq<u8>)
    requires
        lex_lt(a, b),
    ensures
        lex_lt(p + a, p + b),
{
    let k = choose|k: int| lex_lt_at(a, b, k);
    assert(lex_lt_at(p + a, p + b, p.len() + k));
}

/// Of two digit strings of one length, the one that spells the smaller
/// number comes first.
pub proof fn lemma_lex_lt_of_be_value(a: Seq<u8>, b: Seq<u8>)
    requires
        a.len() == b.len(),
        be_value(a) < be_value(b),
    ensures
        lex_lt(a, b),
    decreases a.len(),
{
    if a.len() > 0 {
        let a1 = a.drop_last();
        let b1 = b.drop_last();
        if be_value(a1) < be_value(b1) {
            lemma_lex_lt_of_be_value(a1, b1);
            let k = choose|k: int| lex_lt_at(a1, b1, k);
            assert(lex_lt_at(a, b, k)) by {
                assert forall|i: int| 0 <= i < k implies a[i] == b[i] by {
                    assert(a1[i] == b1[i]);
                }
                assert(a[k] == a1[k] && b[k] == b1[k]);
            }
        } else {
            assert(be_value(a1) == be_value(b1));
            lemma_be_value_injective(a1, b1);
            assert(lex_lt_at(a, b, a.len() - 1)) by {
                assert forall|i: int| 0 <= i < a.len() - 1 implies a[i] == b[i] by {
                    assert(a[i] == a1[i]);
                    assert(b[i] == b1[i]);
                }
            }
        }
    }
}

/// Compares two byte strings as a sorted index compares keys.
pub fn precedes(a: &Vec<u8>, b: &Vec<u8>) -> (r: bool)
    ensures
        r == lex_lt(a@, b@),
{
    let mut i: usize = 0;
    while i < a.len() && i < b.len()
        invariant
            i <= a@.len(),
            i <= b@.len(),
            forall|j: int| 0 <= j < i ==> a@[j] == b@[j],
        decreases a@.len() - i,
    {
        if a[i] != b[i] {
            proof {
                if a@[i as int] < b@[i as int] {
                    assert(lex_lt_at(a@, b@, i as int));
                } else {
                    assert forall|k: int| !lex_lt_at(a@, b@, k) by {
                        if lex_lt_at(a@, b@, k) && k > i {
                            assert(a@[i as int] == b@[i as int]);
                        }
                    }
                }
            }
            return a[i] < b[i];
        }
        i += 1;
    }
    proof {
        if a@.len() < b@.len() {
            assert(lex_lt_at(a@, b@, i as int));
        } else {
            assert forall|k: int| !lex_lt_at(a@, b@, k) by {
                if lex_lt_at(a@, b@, k) {
                    assert(a@[k] == b@[k]);
                }
            }
        }
    }
    a.len() < b.len()
}

} // verus!
