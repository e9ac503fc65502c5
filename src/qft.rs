//! The quantum Fourier transform as a circuit: the gates it applies, in
//! order, and the circuit that undoes it.
use vstd::prelude::*;

verus! {

/// One gate of a circuit over a register.
#[derive(Debug, Clone, Copy, PartialEq, Eq, Structural)]
pub enum GateOp {
    /// Hadamard on `qubit`.
    Hadamard { qubit: usize },
    /// Controlled phase by `2π / 2^order` where both qubits are 1, or by
    /// `-2π / 2^order` when `inverse` is set.
    ControlledPhase { control: usize, target: usize, order: usize, inverse: bool },
    /// Controlled-NOT.
    Cnot { control: usize, target: usize },
}

/// Adjoint of `op`: Hadamard and controlled-NOT undo themselves,
/// a phase is undone by the opposite angle.
pub open spec fn adjoint(op: GateOp) -> GateOp {
    match op {
        GateOp::ControlledPhase { control, target, order, inverse } => GateOp::ControlledPhase {
            control,
            target,
            order,
            inverse: !inverse,
        },
        _ => op,
    }
}

/// The circuit that undoes `ops`: its gates' adjoints in reverse order.
pub open spec fn adjoint_circuit(ops: Seq<GateOp>) -> Seq<GateOp> {
    Seq::new(ops.len(), |i: int| adjoint(ops[ops.len() - 1 - i]))
}

/// The controlled phases that follow the Hadamard on `qubit`: control
/// `qubit + 1`, ..., `qubit + k`, each by `2π / 2^(distance + 1)`.
pub open spec fn phase_run(qubit: nat, k: nat) -> Seq<GateOp>
    decreases k,
{
    if k == 0 {
        Seq::empty()
    } else {
        phase_run(qubit, (k - 1) as nat).push(
            GateOp::ControlledPhase {
                control: (qubit + k) as usize,
                target: qubit as usize,
                order: (k + 1) as usize,
                inverse: false,
            },
        )
    }
}

/// The gates for `qubit` in an `n`-qubit transform.
pub open spec fn qft_layer(qubit: nat, n: nat) -> Seq<GateOp> {
    seq![GateOp::Hadamard { qubit: qubit as usize }] + phase_run(qubit, (n - qubit - 1) as nat)
}

/// The gates for qubits `0 .. m` in an `n`-qubit transform.
pub open spec fn qft_layers(m: nat, n: nat) -> Seq<GateOp>
    decreases m,
{
    if m == 0 {
        Seq::empty()
    } else {
        qft_layers((m - 1) as nat, n) + qft_layer((m - 1) as nat, n)
    }
}

/// Exchanging qubits `i` and `n - 1 - i` with three controlled-NOTs.
pub open spec fn swap_block(i: nat, n: nat) -> Seq<GateOp> {
    let a = i as usize;
    let b = (n - 1 - i) as usize;
    seq![
        GateOp::Cnot { control: a, target: b },
        GateOp::Cnot { control: b, target: a },
        GateOp::Cnot { control: a, target: b },
    ]
}

/// The first `m` exchanges of the qubit-order reversal.
pub open spec fn swap_blocks(m: nat, n: nat) -> Seq<GateOp>
    decreases m,
{
    if m == 0 {
        Seq::empty()
    } else {
        swap_blocks((m - 1) as nat, n) + swap_block((m - 1) as nat, n)
    }
}

/// The `n`-qubit transform: a Hadamard and its controlled phases per qubit,
/// then the qubit order reversed.
pub open spec fn qft_circuit(n: nat) -> Seq<GateOp> {
    qft_layers(n, n) + swap_blocks(n / 2, n)
}

/// The gates of the quantum Fourier transform on `num_qubits` qubits, in the
/// order they are applied.
pub fn qft_schedule(num_qubits: usize) -> (r: Vec<GateOp>)
    ensures
        r@ == qft_circuit(num_qubits as nat),
{
    let n = num_qubits;
    let mut ops: Vec<GateOp> = Vec::new();
    let mut qubit: usize = 0;
    while qubit < n
        invariant
            qubit <= n,
            ops@ == qft_layers(qubit as nat, n as nat),
        decreases n - qubit,
    {
        let ghost before = ops@;
        ops.push(GateOp::Hadamard { qubit });
        let mut later: usize = qubit + 1;
        while later < n
            invariant
                qubit < n,
                qubit + 1 <= later <= n,
                ops@ == before + seq![GateOp::Hadamard { qubit: qubit as usize }] + phase_run(
                    qubit as nat,
                    (later - qubit - 1) as nat,
                ),
            decreases n - later,
        {
            ops.push(GateOp::ControlledPhase { control: later, target: qubit, order: later - qubit + 1, inverse: false });
            later = later + 1;
            assert(ops@ =~= before + seq![GateOp::Hadamard { qubit: qubit as usize }] + phase_run(
                qubit as nat,
                (later - qubit - 1) as nat,
            ));
        }
        qubit = qubit + 1;
        assert(ops@ =~= qft_layers(qubit as nat, n as nat));
    }
    let half = n / 2;
    let mut i: usize = 0;
    while i < half
        invariant
            half == n / 2,
            i <= half,
            ops@ == qft_layers(n as nat, n as nat) + swap_blocks(i as nat, n as nat),
        decreases half - i,
    {
        let j = n - 1 - i;
        ops.push(GateOp::Cnot { control: i, target: j });
        ops.push(GateOp::Cnot { control: j, target: i });
        ops.push(GateOp::Cnot { control: i, target: j });
        i = i + 1;
        assert(ops@ =~= qft_layers(n as nat, n as nat) + swap_blocks(i as nat, n as nat));
    }
    ops
}

/// Adjoint of `op`, the operation that undoes it.
pub fn adjoint_gate(op: GateOp) -> (r: GateOp)
    ensures
        r == adjoint(op),
{
    match op {
        GateOp::ControlledPhase { control, target, order, inverse } => GateOp::ControlledPhase {
            control,
            target,
            order,
            inverse: !inverse,
        },
        _ => op,
    }
}

/// The gates of the inverse transform: the qubit-order reversal first, then
/// each qubit's phases with negated angles and its Hadamard, from the last
/// qubit down.
pub fn inverse_qft_schedule(num_qubits: usize) -> (r: Vec<GateOp>)
    ensures
        r@ == adjoint_circuit(qft_circuit(num_qubits as nat)),
{
    let forward = qft_schedule(num_qubits);
    let len = forward.len();
    let mut ops: Vec<GateOp> = Vec::new();
    let mut k: usize = 0;
    while k < len
        invariant
            len == forward@.len(),
            k <= len,
            ops@ == adjoint_circuit(forward@).take(k as int),
        decreases len - k,
    {
        ops.push(adjoint_gate(forward[len - 1 - k]));
        k = k + 1;
        assert(ops@ =~= adjoint_circuit(forward@).take(k as int));
    }
    assert(ops@ =~= adjoint_circuit(forward@));
    ops
}

} // verus!
