use quantum::element::ArrayElement;
use quantum::error::QuantumError;
use quantum::gates::{apply_cnot_gate, apply_controlled_diagonal_gate, apply_diagonal_gate, apply_pair_gate, apply_pauli_x_gate, swap_qubits};
use quantum::register::QuantumArray;

#[derive(Debug, Clone, Copy, PartialEq)]
struct Complex {
    real: f64,
    imag: f64,
}

impl Complex {
    fn new(real: f64, imag: f64) -> Complex {
        Complex { real, imag }
    }
}

impl ArrayElement for Complex {
    fn zero() -> Complex {
        Complex::new(0.0, 0.0)
    }

    fn one() -> Complex {
        Complex::new(1.0, 0.0)
    }

    fn is_zero(&self) -> bool {
        self.real == 0.0 && self.imag == 0.0
    }
}

fn hadamard(a: Complex, b: Complex) -> (Complex, Complex) {
    let s = 1.0 / 2.0_f64.sqrt();
    (
        Complex::new((a.real + b.real) * s, (a.imag + b.imag) * s),
        Complex::new((a.real - b.real) * s, (a.imag - b.imag) * s),
    )
}

fn close(a: Complex, b: Complex, tol: f64) -> bool {
    (a.real - b.real).abs() < tol && (a.imag - b.imag).abs() < tol
}

#[test]
fn test_quantum_array_creation() {
    let qarray = QuantumArray::<Complex>::new(2).unwrap();
    assert_eq!(qarray.num_qubits(), 2);
    assert_eq!(qarray.state_size(), 4);
    assert_eq!(qarray.get_amplitude(0).unwrap().real, 1.0);
    assert_eq!(qarray.get_amplitude(1).unwrap().real, 0.0);
}

#[test]
fn test_quantum_array_from_amplitudes() {
    let amplitudes = vec![
        Complex::new(1.0 / 2.0_f64.sqrt(), 0.0),
        Complex::new(0.0, 0.0),
        Complex::new(0.0, 0.0),
        Complex::new(1.0 / 2.0_f64.sqrt(), 0.0),
    ];
    let qarray = QuantumArray::from_amplitudes(amplitudes).unwrap();
    assert_eq!(qarray.num_qubits(), 2);
}

#[test]
fn create_rejects_zero_and_too_many_qubits() {
    assert!(matches!(QuantumArray::<Complex>::new(0), Err(QuantumError::InvalidQuantumState { .. })));
    assert!(matches!(QuantumArray::<Complex>::new(65), Err(QuantumError::InvalidQuantumState { .. })));
}

#[test]
fn created_register_is_normalized() {
    for n in 1..6 {
        let qarray = QuantumArray::<Complex>::new(n).unwrap();
        let norm: f64 = qarray.amplitudes().iter().map(|a| a.real * a.real + a.imag * a.imag).sum();
        assert!((norm - 1.0).abs() <= 1e-10);
    }
}

#[test]
fn from_amplitudes_rejects_empty_and_non_power_of_two() {
    assert!(matches!(QuantumArray::<i64>::from_amplitudes(vec![]), Err(QuantumError::InvalidQuantumState { .. })));
    assert!(matches!(QuantumArray::from_amplitudes(vec![1i64, 0, 0]), Err(QuantumError::InvalidQuantumState { .. })));
    let single = QuantumArray::from_amplitudes(vec![1i64]).unwrap();
    assert_eq!(single.num_qubits(), 0);
    let eight = QuantumArray::from_amplitudes(vec![0i64; 8]).unwrap();
    assert_eq!(eight.num_qubits(), 3);
}

#[test]
fn get_and_set_amplitude_check_the_index() {
    let mut qarray = QuantumArray::<i64>::new(1).unwrap();
    assert!(matches!(qarray.get_amplitude(2), Err(QuantumError::QubitIndexOutOfRange { index: 2, max: 2 })));
    assert!(matches!(qarray.set_amplitude(2, 5), Err(QuantumError::QubitIndexOutOfRange { index: 2, max: 2 })));
    qarray.set_amplitude(1, 7).unwrap();
    assert_eq!(qarray.amplitudes(), &[1, 7]);
}

#[test]
fn mod_test_hadamard_gate() {
    let mut qarray = QuantumArray::<Complex>::new(1).unwrap();
    apply_pair_gate(&mut qarray, 0, hadamard).unwrap();
    let amp_0 = qarray.get_amplitude(0).unwrap();
    let amp_1 = qarray.get_amplitude(1).unwrap();
    let expected = 1.0 / 2.0_f64.sqrt();
    assert!((amp_0.real - expected).abs() < 1e-10);
    assert!((amp_1.real - expected).abs() < 1e-10);
    assert!(amp_0.imag.abs() < 1e-10 && amp_1.imag.abs() < 1e-10);
}

#[test]
fn hadamard_twice_restores_the_state() {
    let s = 0.5;
    let start = vec![Complex::new(s, 0.1), Complex::new(0.0, s), Complex::new(-s, 0.0), Complex::new(0.3, -0.2)];
    for qubit in 0..2 {
        let mut qarray = QuantumArray::from_amplitudes(start.clone()).unwrap();
        apply_pair_gate(&mut qarray, qubit, hadamard).unwrap();
        apply_pair_gate(&mut qarray, qubit, hadamard).unwrap();
        for (a, b) in qarray.amplitudes().iter().zip(start.iter()) {
            assert!(close(*a, *b, 1e-10));
        }
    }
}

#[test]
fn test_pauli_x_gate() {
    let mut qarray = QuantumArray::<Complex>::new(1).unwrap();
    apply_pauli_x_gate(&mut qarray, 0).unwrap();
    let amp_0 = qarray.get_amplitude(0).unwrap();
    let amp_1 = qarray.get_amplitude(1).unwrap();
    assert!((amp_0.real - 0.0).abs() < 1e-10);
    assert!((amp_1.real - 1.0).abs() < 1e-10);
}

#[test]
fn pauli_x_permutes_and_twice_restores() {
    let mut qarray = QuantumArray::from_amplitudes(vec![10i64, 11, 12, 13, 14, 15, 16, 17]).unwrap();
    apply_pauli_x_gate(&mut qarray, 1).unwrap();
    assert_eq!(qarray.amplitudes(), &[12, 13, 10, 11, 16, 17, 14, 15]);
    apply_pauli_x_gate(&mut qarray, 1).unwrap();
    assert_eq!(qarray.amplitudes(), &[10, 11, 12, 13, 14, 15, 16, 17]);
}

#[test]
fn test_cnot_gate() {
    let mut qarray = QuantumArray::<Complex>::new(2).unwrap();
    apply_pauli_x_gate(&mut qarray, 0).unwrap();
    apply_cnot_gate(&mut qarray, 0, 1).unwrap();
    let amp_3 = qarray.get_amplitude(3).unwrap();
    assert!((amp_3.real - 1.0).abs() < 1e-10);
    for i in 0..3 {
        assert!(close(*qarray.get_amplitude(i).unwrap(), Complex::new(0.0, 0.0), 1e-10));
    }
}

#[test]
fn cnot_flips_target_where_control_is_set() {
    let mut qarray = QuantumArray::from_amplitudes(vec![0i64, 1, 2, 3, 4, 5, 6, 7]).unwrap();
    apply_cnot_gate(&mut qarray, 0, 2).unwrap();
    assert_eq!(qarray.amplitudes(), &[0, 5, 2, 7, 4, 1, 6, 3]);
}

#[test]
fn cnot_rejects_same_qubit_and_bad_index() {
    let mut qarray = QuantumArray::<i64>::new(2).unwrap();
    assert!(matches!(apply_cnot_gate(&mut qarray, 0, 0), Err(QuantumError::InvalidQuantumState { .. })));
    assert!(matches!(apply_cnot_gate(&mut qarray, 0, 5), Err(QuantumError::QubitIndexOutOfRange { index: 5, max: 2 })));
    assert_eq!(qarray.amplitudes(), &[1, 0, 0, 0]);
}

#[test]
fn gates_reject_one_past_the_last_qubit() {
    let mut qarray = QuantumArray::<Complex>::new(3).unwrap();
    let before = qarray.amplitudes().to_vec();
    assert!(matches!(apply_pair_gate(&mut qarray, 3, hadamard), Err(QuantumError::QubitIndexOutOfRange { index: 3, max: 3 })));
    assert!(matches!(apply_pauli_x_gate(&mut qarray, 3), Err(QuantumError::QubitIndexOutOfRange { index: 3, max: 3 })));
    assert!(matches!(apply_diagonal_gate(&mut qarray, 3, |a: Complex| a), Err(QuantumError::QubitIndexOutOfRange { .. })));
    assert_eq!(qarray.amplitudes(), &before[..]);
}

#[test]
fn swap_exchanges_two_qubits() {
    let mut qarray = QuantumArray::from_amplitudes(vec![0i64, 1, 2, 3, 4, 5, 6, 7]).unwrap();
    swap_qubits(&mut qarray, 0, 2).unwrap();
    assert_eq!(qarray.amplitudes(), &[0, 4, 2, 6, 1, 5, 3, 7]);
    swap_qubits(&mut qarray, 1, 1).unwrap();
    assert_eq!(qarray.amplitudes(), &[0, 4, 2, 6, 1, 5, 3, 7]);
    assert!(matches!(swap_qubits(&mut qarray, 4, 1), Err(QuantumError::QubitIndexOutOfRange { index: 4, max: 3 })));
}

#[test]
fn diagonal_gates_touch_only_selected_states() {
    let mut qarray = QuantumArray::from_amplitudes(vec![1i64, 2, 3, 4]).unwrap();
    apply_diagonal_gate(&mut qarray, 1, |a: i64| -a).unwrap();
    assert_eq!(qarray.amplitudes(), &[1, 2, -3, -4]);
    apply_controlled_diagonal_gate(&mut qarray, 0, 1, |a: i64| a * 10).unwrap();
    assert_eq!(qarray.amplitudes(), &[1, 2, -3, -40]);
    assert!(matches!(
        apply_controlled_diagonal_gate(&mut qarray, 1, 1, |a: i64| a),
        Err(QuantumError::InvalidQuantumState { .. })
    ));
}
