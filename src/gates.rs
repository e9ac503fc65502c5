//! Single- and two-qubit gates. Every gate acts on disjoint pairs, or single entries,
//! of basis amplitudes picked by the bits of their indices, and fails before
//! touching the register when a qubit index is out of range.
use vstd::arithmetic::power2::pow2;
use vstd::prelude::*;

use crate::bits::{lemma_shl_is_pow2, bit_of, cnot_index, flip, lemma_flip, lemma_flip_other, lemma_three_cnots, swap_bits};
use crate::error::{QuantumError, QuantumResult};
use crate::register::QuantumArray;

verus! {

/// The state after Pauli-X on qubit `q`: each amplitude trades places with
/// the one whose index differs in bit `q`.
pub open spec fn pauli_x_spec<A>(s: Seq<A>, q: usize) -> Seq<A> {
    Seq::new(s.len(), |i: int| s[flip(i as usize, q) as int])
}

/// The state after controlled-NOT: where the control bit is 1, the target
/// bit is flipped.
pub open spec fn cnot_spec<A>(s: Seq<A>, c: usize, t: usize) -> Seq<A> {
    Seq::new(s.len(), |i: int| s[cnot_index(i as usize, c, t) as int])
}

/// The state after exchanging qubits `a` and `b`.
pub open spec fn swap_spec<A>(s: Seq<A>, a: usize, b: usize) -> Seq<A> {
    Seq::new(s.len(), |i: int| s[swap_bits(i as usize, a, b) as int])
}

/// The error for a qubit index past the register.
pub open spec fn out_of_range(index: usize, n: nat) -> QuantumError {
    QuantumError::QubitIndexOutOfRange { index, max: n as usize }
}

/// The larger of two qubit indices, reported when either is out of range.
pub open spec fn larger(a: usize, b: usize) -> usize {
    if a >= b {
        a
    } else {
        b
    }
}

fn out_of_range_error(index: usize, n: usize) -> (e: QuantumError)
    ensures
        e == out_of_range(index, n as nat),
{
    QuantumError::QubitIndexOutOfRange { index, max: n }
}

fn same_qubit_error() -> (e: QuantumError)
    ensures
        e is InvalidQuantumState,
{
    QuantumError::InvalidQuantumState { reason: "控制比特和目标比特不能相同".to_string() }
}

/// Pauli-X (NOT) on `qubit`.
pub fn apply_pauli_x_gate<A: Copy>(qarray: &mut QuantumArray<A>, qubit: usize) -> (r: QuantumResult<()>)
    requires
        old(qarray).wf(),
    ensures
        final(qarray).wf(),
        final(qarray).qubits() == old(qarray).qubits(),
        r is Ok <==> qubit < old(qarray).qubits(),
        r is Ok ==> final(qarray)@ == pauli_x_spec(old(qarray)@, qubit),
        r matches Err(e) ==> e == out_of_range(qubit, old(qarray).qubits()) && *final(qarray) == *old(qarray),
{
    let n = qarray.num_qubits();
    if qubit >= n {
        return Err(out_of_range_error(qubit, n));
    }
    let ghost s0 = qarray@;
    let len = qarray.state_size();
    proof {
        qarray.lemma_len();
    }
    let mask: usize = 1usize << qubit;
    let mut i: usize = 0;
    while i < len
        invariant
            qarray.wf(),
            qarray.qubits() == n,
            qubit < n,
            n < 64,
            n < usize::BITS,
            len == qarray@.len(),
            len == s0.len(),
            len == (1usize << n),
            mask == (1usize << qubit),
            i <= len,
            forall|k: int|
                #![trigger qarray@[k]]
                0 <= k < len ==> qarray@[k] == if (!bit_of(k as usize, qubit) && k < i) || (bit_of(k as usize, qubit)
                    && flip(k as usize, qubit) < i) {
                    s0[flip(k as usize, qubit) as int]
                } else {
                    s0[k]
                },
        decreases len - i,
    {
        proof {
            lemma_flip(i, qubit, n);
        }
        if (i >> qubit) & 1 == 0 {
            let j = i | mask;
            let a = qarray.at(i);
            let b = qarray.at(j);
            qarray.put(i, b);
            qarray.put(j, a);
        }
        proof {
            assert forall|k: int| 0 <= k < len implies qarray@[k] == if (!bit_of(k as usize, qubit) && k < i + 1) || (
            bit_of(k as usize, qubit) && flip(k as usize, qubit) < i + 1) {
                s0[flip(k as usize, qubit) as int]
            } else {
                s0[k]
            } by {
                lemma_flip(k as usize, qubit, n);
            }
        }
        i = i + 1;
    }
    proof {
        assert forall|k: int| 0 <= k < len implies qarray@[k] == pauli_x_spec(s0, qubit)[k] by {
            lemma_flip(k as usize, qubit, n);
        }
        assert(qarray@ =~= pauli_x_spec(s0, qubit));
    }
    Ok(())
}

/// Controlled-NOT: wherever `control` is 1, flips `target`.
pub fn apply_cnot_gate<A: Copy>(qarray: &mut QuantumArray<A>, control: usize, target: usize) -> (r: QuantumResult<()>)
    requires
        old(qarray).wf(),
    ensures
        final(qarray).wf(),
        final(qarray).qubits() == old(qarray).qubits(),
        r is Ok <==> control < old(qarray).qubits() && target < old(qarray).qubits() && control != target,
        r is Ok ==> final(qarray)@ == cnot_spec(old(qarray)@, control, target),
        r is Err ==> *final(qarray) == *old(qarray),
        r matches Err(e) ==> if control >= old(qarray).qubits() || target >= old(qarray).qubits() {
            e == out_of_range(larger(control, target), old(qarray).qubits())
        } else {
            e is InvalidQuantumState
        },
{
    let n = qarray.num_qubits();
    if control >= n || target >= n {
        let index = if control >= target { control } else { target };
        return Err(out_of_range_error(index, n));
    }
    if control == target {
        return Err(same_qubit_error());
    }
    let ghost s0 = qarray@;
    let len = qarray.state_size();
    proof {
        qarray.lemma_len();
    }
    let mask: usize = 1usize << target;
    let mut i: usize = 0;
    while i < len
        invariant
            qarray.wf(),
            qarray.qubits() == n,
            control < n,
            target < n,
            control != target,
            n < 64,
            n < usize::BITS,
            len == qarray@.len(),
            len == s0.len(),
            len == (1usize << n),
            mask == (1usize << target),
            i <= len,
            forall|k: int|
                #![trigger qarray@[k]]
                0 <= k < len ==> qarray@[k] == if bit_of(k as usize, control) && ((!bit_of(k as usize, target) && k
                    < i) || (bit_of(k as usize, target) && flip(k as usize, target) < i)) {
                    s0[flip(k as usize, target) as int]
                } else {
                    s0[k]
                },
        decreases len - i,
    {
        proof {
            lemma_flip(i, target, n);
            lemma_flip_other(i, target, control, n);
        }
        if (i >> control) & 1 != 0 && (i >> target) & 1 == 0 {
            let j = i | mask;
            let a = qarray.at(i);
            let b = qarray.at(j);
            qarray.put(i, b);
            qarray.put(j, a);
        }
        proof {
            assert forall|k: int| 0 <= k < len implies qarray@[k] == if bit_of(k as usize, control) && ((!bit_of(
                k as usize,
                target,
            ) && k < i + 1) || (bit_of(k as usize, target) && flip(k as usize, target) < i + 1)) {
                s0[flip(k as usize, target) as int]
            } else {
                s0[k]
            } by {
                lemma_flip(k as usize, target, n);
                lemma_flip_other(k as usize, target, control, n);
            }
        }
        i = i + 1;
    }
    proof {
        assert forall|k: int| 0 <= k < len implies qarray@[k] == cnot_spec(s0, control, target)[k] by {
            lemma_flip(k as usize, target, n);
        }
        assert(qarray@ =~= cnot_spec(s0, control, target));
    }
    Ok(())
}

/// Exchanges qubits `qubit1` and `qubit2` with three controlled-NOTs.
pub fn swap_qubits<A: Copy>(qarray: &mut QuantumArray<A>, qubit1: usize, qubit2: usize) -> (r: QuantumResult<()>)
    requires
        old(qarray).wf(),
    ensures
        final(qarray).wf(),
        final(qarray).qubits() == old(qarray).qubits(),
        r is Ok <==> qubit1 < old(qarray).qubits() && qubit2 < old(qarray).qubits(),
        r is Ok ==> final(qarray)@ == swap_spec(old(qarray)@, qubit1, qubit2),
        r matches Err(e) ==> e == out_of_range(larger(qubit1, qubit2), old(qarray).qubits()) && *final(qarray)
            == *old(qarray),
{
    let n = qarray.num_qubits();
    if qubit1 >= n || qubit2 >= n {
        let index = if qubit1 >= qubit2 { qubit1 } else { qubit2 };
        return Err(out_of_range_error(index, n));
    }
    let ghost s0 = qarray@;
    proof {
        qarray.lemma_len();
    }
    if qubit1 == qubit2 {
        assert(qarray@ =~= swap_spec(s0, qubit1, qubit2));
        return Ok(());
    }
    let _ = apply_cnot_gate(qarray, qubit1, qubit2);
    let ghost s1 = qarray@;
    let _ = apply_cnot_gate(qarray, qubit2, qubit1);
    let ghost s2 = qarray@;
    let _ = apply_cnot_gate(qarray, qubit1, qubit2);
    proof {
        assert forall|k: int| 0 <= k < s0.len() implies qarray@[k] == swap_spec(s0, qubit1, qubit2)[k] by {
            lemma_three_cnots(k as usize, qubit1, qubit2, n);
        }
        assert(qarray@ =~= swap_spec(s0, qubit1, qubit2));
    }
    Ok(())
}

/// Whether `new` is `old` with the two-amplitude map `f` applied to every
/// pair of basis states that differ only in `qubit`, the state with the bit
/// clear coming first.
pub open spec fn pair_gate_applied<A, F: Fn(A, A) -> (A, A)>(old: Seq<A>, new: Seq<A>, qubit: usize, f: F) -> bool {
    &&& new.len() == old.len()
    &&& forall|i: int|
        #![trigger new[i]]
        0 <= i < old.len() && !bit_of(i as usize, qubit) ==> f.ensures(
            (old[i], old[flip(i as usize, qubit) as int]),
            (new[i], new[flip(i as usize, qubit) as int]),
        )
}

/// Whether `new` is `old` with `f` applied to the amplitude of every basis
/// state where all of the qubits `control` and `target` are 1, and every
/// other amplitude kept.
pub open spec fn diagonal_gate_applied<A, F: Fn(A) -> A>(
    old: Seq<A>,
    new: Seq<A>,
    control: usize,
    target: usize,
    f: F,
) -> bool {
    &&& new.len() == old.len()
    &&& forall|i: int|
        #![trigger new[i]]
        0 <= i < old.len() ==> if bit_of(i as usize, control) && bit_of(i as usize, target) {
            f.ensures((old[i],), new[i])
        } else {
            new[i] == old[i]
        }
}

/// A single-qubit gate given by its action `f` on an amplitude pair
/// `(a_i, a_j)`, where `j` is `i` with bit `qubit` set. Hadamard, Pauli-Y and
/// the general rotation are such gates.
pub fn apply_pair_gate<A: Copy, F: Fn(A, A) -> (A, A)>(qarray: &mut QuantumArray<A>, qubit: usize, f: F) -> (r:
    QuantumResult<()>)
    requires
        old(qarray).wf(),
        forall|a: A, b: A| f.requires((a, b)),
    ensures
        final(qarray).wf(),
        final(qarray).qubits() == old(qarray).qubits(),
        r is Ok <==> qubit < old(qarray).qubits(),
        r is Ok ==> pair_gate_applied(old(qarray)@, final(qarray)@, qubit, f),
        r matches Err(e) ==> e == out_of_range(qubit, old(qarray).qubits()) && *final(qarray) == *old(qarray),
{
    let n = qarray.num_qubits();
    if qubit >= n {
        return Err(out_of_range_error(qubit, n));
    }
    let ghost s0 = qarray@;
    let len = qarray.state_size();
    proof {
        qarray.lemma_len();
    }
    let mask: usize = 1usize << qubit;
    let mut i: usize = 0;
    while i < len
        invariant
            qarray.wf(),
            qarray.qubits() == n,
            qubit < n,
            n < 64,
            n < usize::BITS,
            len == qarray@.len(),
            len == s0.len(),
            len == (1usize << n),
            mask == (1usize << qubit),
            i <= len,
            forall|a: A, b: A| f.requires((a, b)),
            forall|k: int|
                #![trigger qarray@[k]]
                0 <= k < len && !bit_of(k as usize, qubit) ==> if k < i {
                    f.ensures(
                        (s0[k], s0[flip(k as usize, qubit) as int]),
                        (qarray@[k], qarray@[flip(k as usize, qubit) as int]),
                    )
                } else {
                    qarray@[k] == s0[k] && qarray@[flip(k as usize, qubit) as int] == s0[flip(
                        k as usize,
                        qubit,
                    ) as int]
                },
        decreases len - i,
    {
        proof {
            lemma_flip(i, qubit, n);
        }
        if (i >> qubit) & 1 == 0 {
            let j = i | mask;
            let a = qarray.at(i);
            let b = qarray.at(j);
            let (x, y) = f(a, b);
            proof {
                assert forall|k: int| 0 <= k < len && !bit_of(k as usize, qubit) && k != i implies k != j && #[trigger] flip(
                    k as usize,
                    qubit,
                ) != i && flip(k as usize, qubit) != j by {
                    lemma_flip(k as usize, qubit, n);
                }
            }
            qarray.put(i, x);
            qarray.put(j, y);
        }
        proof {
            assert forall|k: int| 0 <= k < len && !bit_of(k as usize, qubit) implies #[trigger] qarray@[k] == qarray@[k] && (
            if k < i + 1 {
                f.ensures(
                    (s0[k], s0[flip(k as usize, qubit) as int]),
                    (qarray@[k], qarray@[flip(k as usize, qubit) as int]),
                )
            } else {
                qarray@[k] == s0[k] && qarray@[flip(k as usize, qubit) as int] == s0[flip(k as usize, qubit) as int]
            }) by {
                lemma_flip(k as usize, qubit, n);
            }
        }
        i = i + 1;
    }
    Ok(())
}

/// A gate that multiplies the amplitude of every basis state where both
/// `control` and `target` are 1 by a factor, given as the map `f`, and keeps
/// every other amplitude. With `control == target` it acts on one qubit:
/// Pauli-Z and the phase gate are such gates.
fn apply_masked_diagonal<A: Copy, F: Fn(A) -> A>(qarray: &mut QuantumArray<A>, control: usize, target: usize, f: F)
    requires
        old(qarray).wf(),
        control < old(qarray).qubits(),
        target < old(qarray).qubits(),
        forall|a: A| f.requires((a,)),
    ensures
        final(qarray).wf(),
        final(qarray).qubits() == old(qarray).qubits(),
        diagonal_gate_applied(old(qarray)@, final(qarray)@, control, target, f),
{
    let ghost s0 = qarray@;
    let ghost n0 = qarray.qubits();
    let len = qarray.state_size();
    proof {
        qarray.lemma_len();
    }
    let mut i: usize = 0;
    while i < len
        invariant
            qarray.wf(),
            qarray.qubits() == n0,
            control < qarray.qubits(),
            target < qarray.qubits(),
            qarray.qubits() < usize::BITS,
            len == qarray@.len(),
            len == s0.len(),
            i <= len,
            forall|a: A| f.requires((a,)),
            forall|k: int|
                #![trigger qarray@[k]]
                0 <= k < len ==> if k < i && bit_of(k as usize, control) && bit_of(k as usize, target) {
                    f.ensures((s0[k],), qarray@[k])
                } else {
                    qarray@[k] == s0[k]
                },
        decreases len - i,
    {
        if (i >> control) & 1 != 0 && (i >> target) & 1 != 0 {
            let a = qarray.at(i);
            let b = f(a);
            qarray.put(i, b);
        }
        i = i + 1;
    }
    assert(diagonal_gate_applied(s0, qarray@, control, target, f));
}

/// A single-qubit diagonal gate: `f` maps the amplitude of every basis state
/// where `qubit` is 1, the rest are kept. Pauli-Z and the phase gate are such
/// gates.
pub fn apply_diagonal_gate<A: Copy, F: Fn(A) -> A>(qarray: &mut QuantumArray<A>, qubit: usize, f: F) -> (r:
    QuantumResult<()>)
    requires
        old(qarray).wf(),
        forall|a: A| f.requires((a,)),
    ensures
        final(qarray).wf(),
        final(qarray).qubits() == old(qarray).qubits(),
        r is Ok <==> qubit < old(qarray).qubits(),
        r is Ok ==> diagonal_gate_applied(old(qarray)@, final(qarray)@, qubit, qubit, f),
        r matches Err(e) ==> e == out_of_range(qubit, old(qarray).qubits()) && *final(qarray) == *old(qarray),
{
    let n = qarray.num_qubits();
    if qubit >= n {
        return Err(out_of_range_error(qubit, n));
    }
    apply_masked_diagonal(qarray, qubit, qubit, f);
    Ok(())
}

/// A controlled diagonal gate: `f` maps the amplitude of every basis state
/// where both `control` and `target` are 1, the rest are kept. The
/// controlled phase gate is such a gate.
pub fn apply_controlled_diagonal_gate<A: Copy, F: Fn(A) -> A>(
    qarray: &mut QuantumArray<A>,
    control: usize,
    target: usize,
    f: F,
) -> (r: QuantumResult<()>)
    requires
        old(qarray).wf(),
        forall|a: A| f.requires((a,)),
    ensures
        final(qarray).wf(),
        final(qarray).qubits() == old(qarray).qubits(),
        r is Ok <==> control < old(qarray).qubits() && target < old(qarray).qubits() && control != target,
        r is Ok ==> diagonal_gate_applied(old(qarray)@, final(qarray)@, control, target, f),
        r is Err ==> *final(qarray) == *old(qarray),
        r matches Err(e) ==> if control >= old(qarray).qubits() || target >= old(qarray).qubits() {
            e == out_of_range(larger(control, target), old(qarray).qubits())
        } else {
            e is InvalidQuantumState
        },
{
    let n = qarray.num_qubits();
    if control >= n || target >= n {
        let index = if control >= target { control } else { target };
        return Err(out_of_range_error(index, n));
    }
    if control == target {
        return Err(same_qubit_error());
    }
    apply_masked_diagonal(qarray, control, target, f);
    Ok(())
}

/// Pauli-X applied twice to the same qubit restores every amplitude.
pub proof fn lemma_pauli_x_self_inverse<A>(s: Seq<A>, qubit: usize, n: usize)
    requires
        s.len() == pow2(n as nat),
        pow2(n as nat) <= usize::MAX,
        qubit < n,
    ensures
        pauli_x_spec(pauli_x_spec(s, qubit), qubit) == s,
{
    lemma_shl_is_pow2(n);
    assert forall|k: int| 0 <= k < s.len() implies pauli_x_spec(pauli_x_spec(s, qubit), qubit)[k] == s[k] by {
        lemma_flip(k as usize, qubit, n);
    }
    assert(pauli_x_spec(pauli_x_spec(s, qubit), qubit) =~= s);
}

/// The two-amplitude map `f` undoes itself.
pub open spec fn pair_map_involutive<A, F: Fn(A, A) -> (A, A)>(f: F) -> bool {
    forall|a: A, b: A, x: A, y: A, u: A, v: A|
        #![trigger f.ensures((a, b), (x, y)), f.ensures((x, y), (u, v))]
        f.ensures((a, b), (x, y)) && f.ensures((x, y), (u, v)) ==> u == a && v == b
}

/// Controlled-NOT applied twice with the same qubits restores every
/// amplitude.
pub proof fn lemma_cnot_self_inverse<A>(s: Seq<A>, control: usize, target: usize, n: usize)
    requires
        s.len() == pow2(n as nat),
        pow2(n as nat) <= usize::MAX,
        control < n,
        target < n,
        control != target,
    ensures
        cnot_spec(cnot_spec(s, control, target), control, target) == s,
{
    lemma_shl_is_pow2(n);
    assert forall|k: int| 0 <= k < s.len() implies cnot_spec(cnot_spec(s, control, target), control, target)[k]
        == s[k] by {
        lemma_flip(k as usize, target, n);
        lemma_flip_other(k as usize, target, control, n);
    }
    assert(cnot_spec(cnot_spec(s, control, target), control, target) =~= s);
}

/// A pair gate whose two-amplitude map undoes itself (as the exact Hadamard
/// map does) restores every amplitude when applied twice to the same qubit.
pub proof fn lemma_pair_gate_twice<A, F: Fn(A, A) -> (A, A)>(
    s0: Seq<A>,
    s1: Seq<A>,
    s2: Seq<A>,
    qubit: usize,
    n: usize,
    f: F,
)
    requires
        s0.len() == pow2(n as nat),
        pow2(n as nat) <= usize::MAX,
        qubit < n,
        pair_gate_applied(s0, s1, qubit, f),
        pair_gate_applied(s1, s2, qubit, f),
        pair_map_involutive(f),
    ensures
        s2 == s0,
{
    lemma_shl_is_pow2(n);
    assert forall|k: int| 0 <= k < s0.len() implies s2[k] == s0[k] by {
        lemma_flip(k as usize, qubit, n);
        let j = flip(k as usize, qubit) as int;
        if bit_of(k as usize, qubit) {
            lemma_flip(j as usize, qubit, n);
            assert(s2[j] == s2[j]);
            assert(s1[j] == s1[j]);
        } else {
            assert(s2[k] == s2[k]);
            assert(s1[k] == s1[k]);
        }
    }
    assert(s2 =~= s0);
}

} // verus!
