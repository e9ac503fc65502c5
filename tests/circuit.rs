use quantum::circuit::{apply_gate_op, inverse_quantum_fft, quantum_fft};
use quantum::element::ArrayElement;
use quantum::error::QuantumError;
use quantum::qft::GateOp;
use quantum::register::QuantumArray;

#[derive(Debug, Clone, Copy, PartialEq)]
struct Amp {
    re: f64,
    im: f64,
}

impl ArrayElement for Amp {
    fn zero() -> Amp {
        Amp { re: 0.0, im: 0.0 }
    }

    fn one() -> Amp {
        Amp { re: 1.0, im: 0.0 }
    }

    fn is_zero(&self) -> bool {
        self.re == 0.0 && self.im == 0.0
    }
}

fn hadamard(a: Amp, b: Amp) -> (Amp, Amp) {
    let s = 1.0 / 2.0_f64.sqrt();
    (Amp { re: (a.re + b.re) * s, im: (a.im + b.im) * s }, Amp { re: (a.re - b.re) * s, im: (a.im - b.im) * s })
}

fn phase(a: Amp, order: usize, inverse: bool) -> Amp {
    let mut angle = 2.0 * std::f64::consts::PI / 2.0_f64.powi(order as i32);
    if inverse {
        angle = -angle;
    }
    let (c, s) = (angle.cos(), angle.sin());
    Amp { re: a.re * c - a.im * s, im: a.re * s + a.im * c }
}

#[test]
fn qft_then_inverse_restores_amplitudes() {
    let raw = [0.1, -0.3, 0.25, 0.4, -0.2, 0.15, 0.05, 0.35];
    let norm: f64 = raw.iter().map(|x| x * x).sum::<f64>().sqrt();
    let start: Vec<Amp> = raw.iter().enumerate().map(|(i, x)| Amp { re: x / norm, im: (i as f64) * 0.0 }).collect();
    let mut qarray = QuantumArray::from_amplitudes(start.clone()).unwrap();
    quantum_fft(&mut qarray, &hadamard, &phase).unwrap();
    assert!(qarray.amplitudes().iter().zip(start.iter()).any(|(a, b)| (a.re - b.re).abs() > 1e-3));
    inverse_quantum_fft(&mut qarray, &hadamard, &phase).unwrap();
    for (a, b) in qarray.amplitudes().iter().zip(start.iter()) {
        assert!((a.re - b.re).abs() < 1e-9 && (a.im - b.im).abs() < 1e-9);
    }
}

#[test]
fn qft_of_zero_state_is_uniform() {
    let mut qarray = QuantumArray::<Amp>::new(3).unwrap();
    quantum_fft(&mut qarray, &hadamard, &phase).unwrap();
    let expected = 1.0 / 8.0_f64.sqrt();
    for a in qarray.amplitudes() {
        assert!((a.re - expected).abs() < 1e-10 && a.im.abs() < 1e-10);
    }
}

#[test]
fn integer_round_trip_with_exact_maps() {
    let swap = |a: i64, b: i64| (b, a);
    let negate = |a: i64, _order: usize, _inverse: bool| -a;
    let mut qarray = QuantumArray::from_amplitudes((0..16).collect::<Vec<i64>>()).unwrap();
    quantum_fft(&mut qarray, &swap, &negate).unwrap();
    assert_ne!(qarray.amplitudes(), &(0..16).collect::<Vec<i64>>()[..]);
    inverse_quantum_fft(&mut qarray, &swap, &negate).unwrap();
    assert_eq!(qarray.amplitudes(), &(0..16).collect::<Vec<i64>>()[..]);
}

#[test]
fn gate_op_dispatch_and_rejection() {
    let swap = |a: i64, b: i64| (b, a);
    let double = |a: i64, order: usize, inverse: bool| if inverse { a - order as i64 } else { a + order as i64 };
    let mut qarray = QuantumArray::from_amplitudes(vec![1i64, 2, 3, 4]).unwrap();
    apply_gate_op(&mut qarray, GateOp::Hadamard { qubit: 1 }, &swap, &double).unwrap();
    assert_eq!(qarray.amplitudes(), &[3, 4, 1, 2]);
    apply_gate_op(&mut qarray, GateOp::ControlledPhase { control: 0, target: 1, order: 5, inverse: false }, &swap, &double)
        .unwrap();
    assert_eq!(qarray.amplitudes(), &[3, 4, 1, 7]);
    apply_gate_op(&mut qarray, GateOp::Cnot { control: 1, target: 0 }, &swap, &double).unwrap();
    assert_eq!(qarray.amplitudes(), &[3, 4, 7, 1]);
    assert!(matches!(
        apply_gate_op(&mut qarray, GateOp::Cnot { control: 1, target: 1 }, &swap, &double),
        Err(QuantumError::InvalidQuantumState { .. })
    ));
    assert!(matches!(
        apply_gate_op(&mut qarray, GateOp::Hadamard { qubit: 2 }, &swap, &double),
        Err(QuantumError::QubitIndexOutOfRange { index: 2, max: 2 })
    ));
    assert_eq!(qarray.amplitudes(), &[3, 4, 7, 1]);
}
