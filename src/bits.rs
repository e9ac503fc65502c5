//! Bit addressing of basis states: bit `q` of a basis index is the classical
//! value of qubit `q`.
use vstd::arithmetic::power2::{lemma2_to64, lemma2_to64_rest, lemma_pow2_strictly_increases, pow2};
use vstd::bits::{lemma_usize_pow2_no_overflow, lemma_usize_shl_is_mul};
use vstd::prelude::*;

verus! {

/// Whether qubit `q` is 1 in basis state `i`.
pub open spec fn bit_of(i: usize, q: usize) -> bool {
    (i >> q) & 1usize != 0usize
}

/// Basis state `i` with qubit `q` flipped.
pub open spec fn flip(i: usize, q: usize) -> usize {
    i ^ (1usize << q)
}

/// The basis state that controlled-NOT (control `c`, target `t`) moves into
/// position `i`: where the control bit is 1, the target bit is flipped.
pub open spec fn cnot_index(i: usize, c: usize, t: usize) -> usize {
    if bit_of(i, c) {
        flip(i, t)
    } else {
        i
    }
}

/// Basis state `i` with qubits `a` and `b` exchanged.
pub open spec fn swap_bits(i: usize, a: usize, b: usize) -> usize {
    if bit_of(i, a) == bit_of(i, b) {
        i
    } else {
        flip(flip(i, a), b)
    }
}

/// Facts about flipping one qubit of a basis state of an `n`-qubit register.
pub proof fn lemma_flip(i: usize, q: usize, n: usize)
    requires
        q < n,
        n < 64,
        i < (1usize << n),
    ensures
        flip(i, q) < (1usize << n),
        flip(flip(i, q), q) == i,
        bit_of(flip(i, q), q) == !bit_of(i, q),
        !bit_of(i, q) ==> flip(i, q) == (i | (1usize << q)) && flip(i, q) > i,
        bit_of(i, q) ==> flip(i, q) < i,
{
    assert(flip(i, q) < (1usize << n)) by (bit_vector)
        requires
            q < n,
            n < 64,
            i < (1usize << n),
    ;
    assert(flip(flip(i, q), q) == i) by (bit_vector);
    assert(bit_of(flip(i, q), q) == !bit_of(i, q)) by (bit_vector)
        requires
            q < n,
            n < 64,
            i < (1usize << n),
    ;
    assert(!bit_of(i, q) ==> flip(i, q) == (i | (1usize << q)) && flip(i, q) > i) by (bit_vector)
        requires
            q < n,
            n < 64,
            i < (1usize << n),
    ;
    assert(bit_of(i, q) ==> flip(i, q) < i) by (bit_vector)
        requires
            q < n,
            n < 64,
            i < (1usize << n),
    ;
}

/// Flipping qubit `q` leaves every other qubit as it was.
pub proof fn lemma_flip_other(i: usize, q: usize, r: usize, n: usize)
    requires
        q < n,
        r < n,
        n < 64,
        i < (1usize << n),
        q != r,
    ensures
        bit_of(flip(i, q), r) == bit_of(i, r),
{
    assert(bit_of(flip(i, q), r) == bit_of(i, r)) by (bit_vector)
        requires
            q < n,
            r < n,
            n < 64,
            i < (1usize << n),
            q != r,
    ;
}

/// The number of basis states of an `n`-qubit register, as a shift.
pub proof fn lemma_shl_is_pow2(n: usize)
    requires
        pow2(n as nat) <= usize::MAX,
    ensures
        n < usize::BITS,
        n < 64,
        (1usize << n) as nat == pow2(n as nat),
{
    lemma2_to64();
    if n >= usize::BITS {
        if n > usize::BITS {
            lemma_pow2_strictly_increases(usize::BITS as nat, n as nat);
        }
        assert(false);
    }
    lemma_usize_pow2_no_overflow(n as nat);
    lemma_usize_shl_is_mul(1, n);
}

/// `1 << n` for a shift below the word size.
pub proof fn lemma_shl_is_pow2_small(n: usize)
    requires
        n < usize::BITS,
    ensures
        (1usize << n) as nat == pow2(n as nat),
        pow2(n as nat) <= usize::MAX,
{
    lemma2_to64();
    lemma2_to64_rest();
    lemma_usize_pow2_no_overflow(n as nat);
    lemma_usize_shl_is_mul(1, n);
}

/// Three controlled-NOTs, alternating control and target, exchange two
/// qubits.
pub proof fn lemma_three_cnots(i: usize, a: usize, b: usize, n: usize)
    requires
        a < n,
        b < n,
        a != b,
        n < 64,
        i < (1usize << n),
    ensures
        cnot_index(i, a, b) < (1usize << n),
        cnot_index(cnot_index(i, a, b), b, a) < (1usize << n),
        cnot_index(cnot_index(cnot_index(i, a, b), b, a), a, b) == swap_bits(i, a, b),
        swap_bits(i, a, b) < (1usize << n),
{
    assert(cnot_index(i, a, b) < (1usize << n)) by (bit_vector)
        requires
            a < n,
            b < n,
            n < 64,
            i < (1usize << n),
    ;
    assert(cnot_index(cnot_index(i, a, b), b, a) < (1usize << n)) by (bit_vector)
        requires
            a < n,
            b < n,
            n < 64,
            i < (1usize << n),
    ;
    assert(cnot_index(cnot_index(cnot_index(i, a, b), b, a), a, b) == swap_bits(i, a, b)) by (bit_vector)
        requires
            a < n,
            b < n,
            a != b,
            n < 64,
            i < (1usize << n),
    ;
    assert(swap_bits(i, a, b) < (1usize << n)) by (bit_vector)
        requires
            a < n,
            b < n,
            n < 64,
            i < (1usize << n),
    ;
}

} // verus!
