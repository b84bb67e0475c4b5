//! Big-endian base-256 digit strings and the numbers they stand for.
//!
//! Everything here is mathematics over `int`, `nat` and `Seq<u8>`; the codecs
//! state their contracts with these functions.

use vstd::prelude::*;

verus! {

/// `256` to the power `n`.
pub open spec fn pow256(n: nat) -> nat
    decreases n,
{
    if n == 0 {
        1
    } else {
        256 * pow256((n - 1) as nat)
    }
}

/// The `n` low-order base-256 digits of `v`, most significant first.
///
/// Division and remainder are Euclidean, so for a negative `v` these are the
/// low `n` bytes of its two's-complement form.
pub open spec fn be_bytes(v: int, n: nat) -> Seq<u8>
    decreases n,
{
    if n == 0 {
        Seq::empty()
    } else {
        be_bytes(v / 256, (n - 1) as nat).push((v % 256) as u8)
    }
}

/// The number that a digit string spells, most significant digit first.
pub open spec fn be_value(s: Seq<u8>) -> nat
    decreases s.len(),
{
    if s.len() == 0 {
        0
    } else {
        256 * be_value(s.drop_last()) + s.last() as nat
    }
}

/// How many base-256 digits `v` has; zero counts as one digit.
pub open spec fn min_len(v: nat) -> nat
    decreases v,
{
    if v < 256 {
        1
    } else {
        1 + min_len(v / 256)
    }
}

/// The first nine powers of 256.
pub proof fn lemma_pow256_values()
    ensures
        pow256(0) == 1,
        pow256(1) == 0x100,
        pow256(2) == 0x1_0000,
        pow256(3) == 0x100_0000,
        pow256(4) == 0x1_0000_0000,
        pow256(5) == 0x100_0000_0000,
        pow256(6) == 0x1_0000_0000_0000,
        pow256(7) == 0x100_0000_0000_0000,
        pow256(8) == 0x1_0000_0000_0000_0000,
{
    reveal_with_fuel(pow256, 9);
}

/// Powers of 256 are positive and grow with the exponent.
pub proof fn lemma_pow256_monotone(m: nat, n: nat)
    requires
        m <= n,
    ensures
        0 < pow256(m) <= pow256(n),
    decreases n,
{
    if n == 0 {
    } else if m == n {
        lemma_pow256_monotone((m - 1) as nat, (n - 1) as nat);
    } else {
        lemma_pow256_monotone(m, (n - 1) as nat);
    }
}

/// A digit string of `n` digits has length `n`.
pub proof fn lemma_be_bytes_len(v: int, n: nat)
    ensures
        be_bytes(v, n).len() == n,
    decreases n,
{
    if n > 0 {
        lemma_be_bytes_len(v / 256, (n - 1) as nat);
    }
}

/// A digit string of length `n` spells a number below `256^n`.
pub proof fn lemma_be_value_bound(s: Seq<u8>)
    ensures
        be_value(s) < pow256(s.len()),
    decreases s.len(),
{
    if s.len() > 0 {
        lemma_be_value_bound(s.drop_last());
    }
}

/// Reading back the `n` digits of `v` gives `v` reduced modulo `256^n`: `v`
/// itself where it is non-negative and fits, and `v + 256^n` for a negative
/// `v` no smaller than `-256^n`.
pub proof fn lemma_be_value_of_be_bytes(v: int, n: nat)
    requires
        -pow256(n) <= v < pow256(n),
    ensures
        be_value(be_bytes(v, n)) == if v >= 0 {
            v
        } else {
            v + pow256(n)
        },
    decreases n,
{
    if n > 0 {
        let m = (n - 1) as nat;
        lemma_be_value_of_be_bytes(v / 256, m);
        assert(be_bytes(v, n).drop_last() =~= be_bytes(v / 256, m));
    }
}

/// Writing out the digits of the number that a string spells gives the string.
pub proof fn lemma_be_bytes_of_be_value(s: Seq<u8>)
    ensures
        be_bytes(be_value(s) as int, s.len()) == s,
    decreases s.len(),
{
    if s.len() > 0 {
        lemma_be_bytes_of_be_value(s.drop_last());
        let v = be_value(s) as int;
        assert(v / 256 == be_value(s.drop_last()));
        assert(v % 256 == s.last());
        assert(be_bytes(v, s.len()) =~= s);
    } else {
        assert(be_bytes(0, 0) =~= s);
    }
}

/// Two digit strings of one length that spell the same number are equal.
pub proof fn lemma_be_value_injective(a: Seq<u8>, b: Seq<u8>)
    requires
        a.len() == b.len(),
        be_value(a) == be_value(b),
    ensures
        a == b,
{
    lemma_be_bytes_of_be_value(a);
    lemma_be_bytes_of_be_value(b);
}

/// `min_len(v)` is the one digit count `n >= 1` with `v < 256^n` and, beyond
/// a single digit, `256^(n-1) <= v`: no shorter string can spell `v`.
pub proof fn lemma_min_len_bounds(v: nat)
    ensures
        1 <= min_len(v),
        v < pow256(min_len(v)),
        min_len(v) > 1 ==> pow256((min_len(v) - 1) as nat) <= v,
    decreases v,
{
    reveal_with_fuel(pow256, 2);
    if v >= 256 {
        lemma_min_len_bounds(v / 256);
    }
}

/// Any `n >= 1` that satisfies the two bounds of `lemma_min_len_bounds` is
/// `min_len(v)`.
pub proof fn lemma_min_len_unique(v: nat, n: nat)
    requires
        1 <= n,
        v < pow256(n),
        n > 1 ==> pow256((n - 1) as nat) <= v,
    ensures
        min_len(v) == n,
    decreases n,
{
    reveal_with_fuel(pow256, 2);
    if n == 1 {
    } else {
        lemma_pow256_monotone(1, (n - 1) as nat);
        if n > 2 {
            lemma_pow256_monotone(1, (n - 2) as nat);
        }
        lemma_min_len_unique(v / 256, (n - 1) as nat);
    }
}

/// A number below `256^n` has at most `n` digits.
pub proof fn lemma_min_len_fits(v: nat, n: nat)
    requires
        1 <= n,
        v < pow256(n),
    ensures
        min_len(v) <= n,
{
    lemma_min_len_bounds(v);
    if min_len(v) > n {
        lemma_pow256_monotone(n, (min_len(v) - 1) as nat);
    }
}

/// A larger number never has fewer digits.
pub proof fn lemma_min_len_monotone(a: nat, b: nat)
    requires
        a <= b,
    ensures
        min_len(a) <= min_len(b),
    decreases b,
{
    if a >= 256 {
        lemma_min_len_monotone(a / 256, b / 256);
    }
}

/// A 64-bit number has at most eight digits.
pub proof fn lemma_min_len_u64(v: nat)
    requires
        v <= u64::MAX,
    ensures
        1 <= min_len(v) <= 8,
{
    lemma_min_len_bounds(v);
    lemma_pow256_values();
    lemma_min_len_fits(v, 8);
}

} // verus!
