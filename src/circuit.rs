//! Running circuits of gates on a register: one dispatch over all gate
//! kinds, the quantum Fourier transform and its inverse, and the law that
//! the inverse undoes the transform.
use vstd::arithmetic::power2::pow2;
use vstd::prelude::*;

use crate::bits::bit_of;
use crate::error::QuantumResult;
use crate::gates::{
    apply_cnot_gate, apply_controlled_diagonal_gate, apply_pair_gate, cnot_spec, lemma_cnot_self_inverse,
    lemma_pair_gate_twice, pair_gate_applied, pair_map_involutive,
};
use crate::qft::{adjoint, adjoint_circuit, inverse_qft_schedule, qft_circuit, qft_schedule, GateOp};
use crate::register::QuantumArray;

verus! {

/// Whether `new` is `old` with the phase map `p` (by order `order`,
/// negated when `inverse`) applied where both `control` and `target` are 1.
pub open spec fn phase_applied<A, P: Fn(A, usize, bool) -> A>(
    old: Seq<A>,
    new: Seq<A>,
    control: usize,
    target: usize,
    order: usize,
    inverse: bool,
    p: P,
) -> bool {
    &&& new.len() == old.len()
    &&& forall|i: int|
        #![trigger new[i]]
        0 <= i < old.len() ==> if bit_of(i as usize, control) && bit_of(i as usize, target) {
            p.ensures((old[i], order, inverse), new[i])
        } else {
            new[i] == old[i]
        }
}

/// Whether `new` is `old` after `op`, Hadamard acting on each pair as `h`
/// does and a controlled phase acting on each amplitude as `p` does.
pub open spec fn gate_op_applied<A, H: Fn(A, A) -> (A, A), P: Fn(A, usize, bool) -> A>(
    op: GateOp,
    old: Seq<A>,
    new: Seq<A>,
    h: H,
    p: P,
) -> bool {
    match op {
        GateOp::Hadamard { qubit } => pair_gate_applied(old, new, qubit, h),
        GateOp::ControlledPhase { control, target, order, inverse } => phase_applied(
            old,
            new,
            control,
            target,
            order,
            inverse,
            p,
        ),
        GateOp::Cnot { control, target } => new == cnot_spec(old, control, target),
    }
}

/// Whether `op` addresses qubits of an `n`-qubit register, with distinct
/// control and target.
pub open spec fn gate_op_valid(op: GateOp, n: nat) -> bool {
    match op {
        GateOp::Hadamard { qubit } => qubit < n,
        GateOp::ControlledPhase { control, target, .. } => control < n && target < n && control != target,
        GateOp::Cnot { control, target } => control < n && target < n && control != target,
    }
}

/// Whether `states` records a run of `ops`: each state follows from the one
/// before by the next gate.
pub open spec fn circuit_trace<A, H: Fn(A, A) -> (A, A), P: Fn(A, usize, bool) -> A>(
    ops: Seq<GateOp>,
    states: Seq<Seq<A>>,
    h: H,
    p: P,
) -> bool {
    &&& states.len() == ops.len() + 1
    &&& forall|k: int|
        #![trigger ops[k]]
        0 <= k < ops.len() ==> gate_op_applied(ops[k], states[k], states[k + 1], h, p)
}

/// Whether running `ops` takes the amplitudes `old` to `new`.
pub open spec fn circuit_applied<A, H: Fn(A, A) -> (A, A), P: Fn(A, usize, bool) -> A>(
    ops: Seq<GateOp>,
    old: Seq<A>,
    new: Seq<A>,
    h: H,
    p: P,
) -> bool {
    exists|states: Seq<Seq<A>>|
        #[trigger] circuit_trace(ops, states, h, p) && states[0] == old && states[states.len() - 1] == new
}

/// The phase map `p` is undone by the opposite phase of the same order.
pub open spec fn phases_cancel<A, P: Fn(A, usize, bool) -> A>(p: P) -> bool {
    forall|a: A, order: usize, first: bool, second: bool, b: A, c: A|
        #![trigger p.ensures((a, order, first), b), p.ensures((b, order, second), c)]
        first != second && p.ensures((a, order, first), b) && p.ensures((b, order, second), c) ==> c == a
}

/// Applies one gate of a circuit. Hadamard acts on each amplitude pair as
/// `hadamard` does; a controlled phase of order `k` multiplies by
/// `phase(a, k, inverse)`, which stands for `e^(±2πi / 2^k)`.
pub fn apply_gate_op<A: Copy, H: Fn(A, A) -> (A, A), P: Fn(A, usize, bool) -> A>(
    qarray: &mut QuantumArray<A>,
    op: GateOp,
    hadamard: &H,
    phase: &P,
) -> (r: QuantumResult<()>)
    requires
        old(qarray).wf(),
        forall|a: A, b: A| hadamard.requires((a, b)),
        forall|a: A, k: usize, inverse: bool| phase.requires((a, k, inverse)),
    ensures
        final(qarray).wf(),
        final(qarray).qubits() == old(qarray).qubits(),
        r is Ok <==> gate_op_valid(op, old(qarray).qubits()),
        r is Ok ==> gate_op_applied(op, old(qarray)@, final(qarray)@, *hadamard, *phase),
        r is Err ==> *final(qarray) == *old(qarray),
{
    match op {
        GateOp::Hadamard { qubit } => apply_pair_gate(qarray, qubit, hadamard),
        GateOp::ControlledPhase { control, target, order, inverse } => {
            let f = |a: A| -> (b: A)
                requires
                    forall|x: A, k: usize, v: bool| phase.requires((x, k, v)),
                ensures
                    phase.ensures((a, order, inverse), b),
                { phase(a, order, inverse) };
            apply_controlled_diagonal_gate(qarray, control, target, f)
        },
        GateOp::Cnot { control, target } => apply_cnot_gate(qarray, control, target),
    }
}

/// Runs `ops` in order; every gate must address the register's qubits.
fn run_circuit<A: Copy, H: Fn(A, A) -> (A, A), P: Fn(A, usize, bool) -> A>(
    qarray: &mut QuantumArray<A>,
    ops: &Vec<GateOp>,
    hadamard: &H,
    phase: &P,
)
    requires
        old(qarray).wf(),
        forall|k: int| 0 <= k < ops@.len() ==> gate_op_valid(#[trigger] ops@[k], old(qarray).qubits()),
        forall|a: A, b: A| hadamard.requires((a, b)),
        forall|a: A, k: usize, inverse: bool| phase.requires((a, k, inverse)),
    ensures
        final(qarray).wf(),
        final(qarray).qubits() == old(qarray).qubits(),
        circuit_applied(ops@, old(qarray)@, final(qarray)@, *hadamard, *phase),
{
    let ghost s0 = qarray@;
    let ghost n0 = qarray.qubits();
    let ghost mut states: Seq<Seq<A>> = seq![qarray@];
    let mut k: usize = 0;
    assert(circuit_trace(ops@.take(0), states, *hadamard, *phase));
    while k < ops.len()
        invariant
            qarray.wf(),
            qarray.qubits() == n0,
            k <= ops@.len(),
            forall|j: int| 0 <= j < ops@.len() ==> gate_op_valid(#[trigger] ops@[j], n0),
            forall|a: A, b: A| hadamard.requires((a, b)),
            forall|a: A, j: usize, inverse: bool| phase.requires((a, j, inverse)),
            circuit_trace(ops@.take(k as int), states, *hadamard, *phase),
            states[0] == s0,
            states[states.len() - 1] == qarray@,
        decreases ops@.len() - k,
    {
        let ghost before = qarray@;
        let _ = apply_gate_op(qarray, ops[k], hadamard, phase);
        proof {
            let prev = states;
            states = states.push(qarray@);
            assert forall|j: int| 0 <= j < k + 1 implies gate_op_applied(
                #[trigger] ops@.take(k + 1)[j],
                states[j],
                states[j + 1],
                *hadamard,
                *phase,
            ) by {
                if j < k {
                    assert(ops@.take(k + 1)[j] == ops@.take(k as int)[j]);
                }
            }
        }
        k = k + 1;
    }
    assert(ops@.take(ops@.len() as int) =~= ops@);
}

/// The gates of the `n`-qubit transform address its qubits.
pub proof fn lemma_qft_circuit_valid(n: nat)
    requires
        n <= usize::MAX,
    ensures
        forall|k: int| 0 <= k < qft_circuit(n).len() ==> gate_op_valid(#[trigger] qft_circuit(n)[k], n),
{
    lemma_layers_valid(n, n);
    lemma_swaps_valid(n / 2, n);
    assert forall|k: int| 0 <= k < qft_circuit(n).len() implies gate_op_valid(#[trigger] qft_circuit(n)[k], n) by {
        if k < crate::qft::qft_layers(n, n).len() {
            assert(qft_circuit(n)[k] == crate::qft::qft_layers(n, n)[k]);
        } else {
            assert(qft_circuit(n)[k] == crate::qft::swap_blocks(n / 2, n)[k - crate::qft::qft_layers(n, n).len()]);
        }
    }
}

proof fn lemma_phase_run_valid(qubit: nat, k: nat, n: nat)
    requires
        qubit + k < n,
        n <= usize::MAX,
    ensures
        forall|j: int| 0 <= j < crate::qft::phase_run(qubit, k).len() ==> gate_op_valid(
            #[trigger] crate::qft::phase_run(qubit, k)[j],
            n,
        ),
        crate::qft::phase_run(qubit, k).len() == k,
    decreases k,
{
    if k > 0 {
        lemma_phase_run_valid(qubit, (k - 1) as nat, n);
        assert forall|j: int| 0 <= j < crate::qft::phase_run(qubit, k).len() implies gate_op_valid(
            #[trigger] crate::qft::phase_run(qubit, k)[j],
            n,
        ) by {
            if j < k - 1 {
                assert(crate::qft::phase_run(qubit, k)[j] == crate::qft::phase_run(qubit, (k - 1) as nat)[j]);
            }
        }
    }
}

proof fn lemma_layers_valid(m: nat, n: nat)
    requires
        m <= n,
        n <= usize::MAX,
    ensures
        forall|j: int| 0 <= j < crate::qft::qft_layers(m, n).len() ==> gate_op_valid(
            #[trigger] crate::qft::qft_layers(m, n)[j],
            n,
        ),
    decreases m,
{
    if m > 0 {
        let q = (m - 1) as nat;
        lemma_layers_valid(q, n);
        lemma_phase_run_valid(q, (n - q - 1) as nat, n);
        let prefix = crate::qft::qft_layers(q, n);
        let layer = crate::qft::qft_layer(q, n);
        assert forall|j: int| 0 <= j < crate::qft::qft_layers(m, n).len() implies gate_op_valid(
            #[trigger] crate::qft::qft_layers(m, n)[j],
            n,
        ) by {
            if j < prefix.len() {
                assert(crate::qft::qft_layers(m, n)[j] == prefix[j]);
            } else {
                assert(crate::qft::qft_layers(m, n)[j] == layer[j - prefix.len()]);
                if j - prefix.len() > 0 {
                    assert(layer[j - prefix.len()] == crate::qft::phase_run(q, (n - q - 1) as nat)[j - prefix.len() - 1]);
                }
            }
        }
    }
}

proof fn lemma_swaps_valid(m: nat, n: nat)
    requires
        m <= n / 2,
        n <= usize::MAX,
    ensures
        forall|j: int| 0 <= j < crate::qft::swap_blocks(m, n).len() ==> gate_op_valid(
            #[trigger] crate::qft::swap_blocks(m, n)[j],
            n,
        ),
    decreases m,
{
    if m > 0 {
        let i = (m - 1) as nat;
        lemma_swaps_valid(i, n);
        let prefix = crate::qft::swap_blocks(i, n);
        let block = crate::qft::swap_block(i, n);
        assert forall|j: int| 0 <= j < crate::qft::swap_blocks(m, n).len() implies gate_op_valid(
            #[trigger] crate::qft::swap_blocks(m, n)[j],
            n,
        ) by {
            if j < prefix.len() {
                assert(crate::qft::swap_blocks(m, n)[j] == prefix[j]);
            } else {
                assert(crate::qft::swap_blocks(m, n)[j] == block[j - prefix.len()]);
            }
        }
    }
}

/// The quantum Fourier transform: for each qubit a Hadamard followed by
/// controlled phases from the later qubits, then the qubit order reversed.
/// `hadamard` and `phase` give the arithmetic of the amplitude type; the
/// transform never fails on a register.
pub fn quantum_fft<A: Copy, H: Fn(A, A) -> (A, A), P: Fn(A, usize, bool) -> A>(
    qarray: &mut QuantumArray<A>,
    hadamard: &H,
    phase: &P,
) -> (r: QuantumResult<()>)
    requires
        old(qarray).wf(),
        forall|a: A, b: A| hadamard.requires((a, b)),
        forall|a: A, k: usize, inverse: bool| phase.requires((a, k, inverse)),
    ensures
        r is Ok,
        final(qarray).wf(),
        final(qarray).qubits() == old(qarray).qubits(),
        circuit_applied(qft_circuit(old(qarray).qubits()), old(qarray)@, final(qarray)@, *hadamard, *phase),
{
    let n = qarray.num_qubits();
    let ops = qft_schedule(n);
    proof {
        lemma_qft_circuit_valid(n as nat);
    }
    run_circuit(qarray, &ops, hadamard, phase);
    Ok(())
}

/// The inverse transform: the adjoint circuit of the transform, which
/// reverses the qubit order first and negates every phase.
pub fn inverse_quantum_fft<A: Copy, H: Fn(A, A) -> (A, A), P: Fn(A, usize, bool) -> A>(
    qarray: &mut QuantumArray<A>,
    hadamard: &H,
    phase: &P,
) -> (r: QuantumResult<()>)
    requires
        old(qarray).wf(),
        forall|a: A, b: A| hadamard.requires((a, b)),
        forall|a: A, k: usize, inverse: bool| phase.requires((a, k, inverse)),
    ensures
        r is Ok,
        final(qarray).wf(),
        final(qarray).qubits() == old(qarray).qubits(),
        circuit_applied(
            adjoint_circuit(qft_circuit(old(qarray).qubits())),
            old(qarray)@,
            final(qarray)@,
            *hadamard,
            *phase,
        ),
{
    let n = qarray.num_qubits();
    let ops = inverse_qft_schedule(n);
    proof {
        lemma_qft_circuit_valid(n as nat);
        let fwd = qft_circuit(n as nat);
        assert forall|k: int| 0 <= k < ops@.len() implies gate_op_valid(#[trigger] ops@[k], n as nat) by {
            assert(ops@[k] == adjoint(fwd[fwd.len() - 1 - k]));
            assert(gate_op_valid(fwd[fwd.len() - 1 - k], n as nat));
        }
    }
    run_circuit(qarray, &ops, hadamard, phase);
    Ok(())
}

/// A gate followed by its adjoint restores every amplitude, given that the
/// Hadamard map undoes itself and opposite phases cancel.
proof fn lemma_gate_then_adjoint<A, H: Fn(A, A) -> (A, A), P: Fn(A, usize, bool) -> A>(
    op: GateOp,
    x: Seq<A>,
    y: Seq<A>,
    z: Seq<A>,
    n: usize,
    h: H,
    p: P,
)
    requires
        x.len() == pow2(n as nat),
        pow2(n as nat) <= usize::MAX,
        gate_op_valid(op, n as nat),
        gate_op_applied(op, x, y, h, p),
        gate_op_applied(adjoint(op), y, z, h, p),
        pair_map_involutive(h),
        phases_cancel(p),
    ensures
        z == x,
{
    match op {
        GateOp::Hadamard { qubit } => {
            lemma_pair_gate_twice(x, y, z, qubit, n, h);
        },
        GateOp::ControlledPhase { control, target, order, inverse } => {
            assert forall|i: int| 0 <= i < x.len() implies z[i] == x[i] by {
                assert(z[i] == z[i] && y[i] == y[i]);
            }
            assert(z =~= x);
        },
        GateOp::Cnot { control, target } => {
            lemma_cnot_self_inverse(x, control, target, n);
        },
    }
}

proof fn lemma_trace_lengths<A, H: Fn(A, A) -> (A, A), P: Fn(A, usize, bool) -> A>(
    ops: Seq<GateOp>,
    states: Seq<Seq<A>>,
    h: H,
    p: P,
    j: int,
)
    requires
        circuit_trace(ops, states, h, p),
        0 <= j < states.len(),
    ensures
        states[j].len() == states[0].len(),
    decreases j,
{
    if j > 0 {
        lemma_trace_lengths(ops, states, h, p, j - 1);
        assert(gate_op_applied(ops[j - 1], states[j - 1], states[j], h, p));
    }
}

proof fn lemma_mirror<A, H: Fn(A, A) -> (A, A), P: Fn(A, usize, bool) -> A>(
    ops: Seq<GateOp>,
    forward: Seq<Seq<A>>,
    backward: Seq<Seq<A>>,
    k: int,
    n: usize,
    h: H,
    p: P,
)
    requires
        circuit_trace(ops, forward, h, p),
        circuit_trace(adjoint_circuit(ops), backward, h, p),
        backward[0] == forward[ops.len() as int],
        forall|j: int| 0 <= j < ops.len() ==> gate_op_valid(#[trigger] ops[j], n as nat),
        forward[0].len() == pow2(n as nat),
        pow2(n as nat) <= usize::MAX,
        pair_map_involutive(h),
        phases_cancel(p),
        0 <= k <= ops.len(),
    ensures
        backward[k] == forward[ops.len() - k],
    decreases k,
{
    if k > 0 {
        lemma_mirror(ops, forward, backward, k - 1, n, h, p);
        let m = ops.len() as int;
        let op = ops[m - k];
        assert(adjoint_circuit(ops)[k - 1] == adjoint(op));
        lemma_trace_lengths(ops, forward, h, p, m - k);
        assert(gate_op_applied(op, forward[m - k], forward[m - k + 1], h, p));
        assert(gate_op_applied(adjoint(op), backward[k - 1], backward[k], h, p));
        lemma_gate_then_adjoint(op, forward[m - k], forward[m - k + 1], backward[k], n, h, p);
    }
}

/// Running a circuit and then its adjoint circuit restores every amplitude,
/// given exact arithmetic: the Hadamard map undoes itself and opposite
/// phases cancel.
pub proof fn lemma_circuit_round_trip<A, H: Fn(A, A) -> (A, A), P: Fn(A, usize, bool) -> A>(
    ops: Seq<GateOp>,
    s0: Seq<A>,
    s1: Seq<A>,
    s2: Seq<A>,
    n: usize,
    h: H,
    p: P,
)
    requires
        s0.len() == pow2(n as nat),
        pow2(n as nat) <= usize::MAX,
        forall|j: int| 0 <= j < ops.len() ==> gate_op_valid(#[trigger] ops[j], n as nat),
        circuit_applied(ops, s0, s1, h, p),
        circuit_applied(adjoint_circuit(ops), s1, s2, h, p),
        pair_map_involutive(h),
        phases_cancel(p),
    ensures
        s2 == s0,
{
    let forward = choose|t: Seq<Seq<A>>| #[trigger] circuit_trace(ops, t, h, p) && t[0] == s0 && t[t.len() - 1] == s1;
    let backward = choose|t: Seq<Seq<A>>|
        #[trigger] circuit_trace(adjoint_circuit(ops), t, h, p) && t[0] == s1 && t[t.len() - 1] == s2;
    lemma_mirror(ops, forward, backward, ops.len() as int, n, h, p);
}

/// The inverse quantum Fourier transform undoes the transform: with exact
/// arithmetic (a Hadamard map that undoes itself, opposite phases that
/// cancel), running `quantum_fft` and then `inverse_quantum_fft` on a
/// register gives back its amplitudes.
pub proof fn lemma_qft_round_trip<A, H: Fn(A, A) -> (A, A), P: Fn(A, usize, bool) -> A>(
    s0: Seq<A>,
    s1: Seq<A>,
    s2: Seq<A>,
    n: usize,
    h: H,
    p: P,
)
    requires
        s0.len() == pow2(n as nat),
        pow2(n as nat) <= usize::MAX,
        circuit_applied(qft_circuit(n as nat), s0, s1, h, p),
        circuit_applied(adjoint_circuit(qft_circuit(n as nat)), s1, s2, h, p),
        pair_map_involutive(h),
        phases_cancel(p),
    ensures
        s2 == s0,
{
    lemma_qft_circuit_valid(n as nat);
    lemma_circuit_round_trip(qft_circuit(n as nat), s0, s1, s2, n, h, p);
}

} // verus!
