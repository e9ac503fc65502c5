use quantum::qft::{inverse_qft_schedule, qft_schedule, GateOp};

#[test]
fn qft_schedule_for_three_qubits() {
    let ops = qft_schedule(3);
    let expected = vec![
        GateOp::Hadamard { qubit: 0 },
        GateOp::ControlledPhase { control: 1, target: 0, order: 2, inverse: false },
        GateOp::ControlledPhase { control: 2, target: 0, order: 3, inverse: false },
        GateOp::Hadamard { qubit: 1 },
        GateOp::ControlledPhase { control: 2, target: 1, order: 2, inverse: false },
        GateOp::Hadamard { qubit: 2 },
        GateOp::Cnot { control: 0, target: 2 },
        GateOp::Cnot { control: 2, target: 0 },
        GateOp::Cnot { control: 0, target: 2 },
    ];
    assert_eq!(ops, expected);
}

#[test]
fn inverse_schedule_mirrors_with_negated_phases() {
    for n in 0..6 {
        let forward = qft_schedule(n);
        let inverse = inverse_qft_schedule(n);
        assert_eq!(forward.len(), inverse.len());
        for (k, op) in inverse.iter().enumerate() {
            let mirrored = forward[forward.len() - 1 - k];
            let expected = match mirrored {
                GateOp::ControlledPhase { control, target, order, inverse } => {
                    GateOp::ControlledPhase { control, target, order, inverse: !inverse }
                }
                other => other,
            };
            assert_eq!(*op, expected);
        }
    }
    let inverse = inverse_qft_schedule(2);
    assert_eq!(inverse[0], GateOp::Cnot { control: 0, target: 1 });
    assert_eq!(inverse[3], GateOp::Hadamard { qubit: 1 });
    assert_eq!(inverse[4], GateOp::ControlledPhase { control: 1, target: 0, order: 2, inverse: true });
    assert_eq!(inverse[5], GateOp::Hadamard { qubit: 0 });
}
