//! The quantum register: `2^n` amplitudes for `n` qubits, addressed by basis
//! index.
use vstd::arithmetic::power2::{lemma2_to64, lemma2_to64_rest, lemma_pow2_strictly_increases, lemma_pow2_unfold, pow2};
use vstd::prelude::*;

use crate::bits::{lemma_shl_is_pow2, lemma_shl_is_pow2_small};
use crate::element::ArrayElement;
use crate::error::{QuantumError, QuantumResult};

verus! {

/// The most qubits a register may be asked for.
pub const MAX_QUBITS: usize = 64;

/// The state of `len` amplitudes with a one at basis index `k` and zeros
/// elsewhere.
pub open spec fn basis_state<A: ArrayElement>(len: nat, k: int) -> Seq<A> {
    Seq::new(len, |i: int| if i == k { A::one_value() } else { A::zero_value() })
}

/// Whether `len` is a power of two.
pub open spec fn is_power_of_two(len: nat) -> bool {
    exists|n: nat| pow2(n) == len
}

/// The state vector of a register of qubits.
pub struct QuantumArray<A> {
    amplitudes: Vec<A>,
    num_qubits: usize,
}

impl<A> View for QuantumArray<A> {
    type V = Seq<A>;

    /// The amplitudes, by basis index.
    closed spec fn view(&self) -> Seq<A> {
        self.amplitudes@
    }
}

impl<A: Copy> QuantumArray<A> {
    /// The number of qubits.
    pub closed spec fn qubits(&self) -> nat {
        self.num_qubits as nat
    }

    /// The register holds exactly one amplitude per basis state.
    pub open spec fn wf(&self) -> bool {
        &&& self.qubits() < 64
        &&& self@.len() == pow2(self.qubits())
        &&& pow2(self.qubits()) <= usize::MAX
    }

    /// The state length as a shift, for the bit arithmetic of the gates.
    pub proof fn lemma_len(&self)
        requires
            self.wf(),
        ensures
            self@.len() == (1usize << (self.qubits() as usize)) as nat,
            self@.len() <= usize::MAX,
            self.qubits() < usize::BITS,
    {
        lemma_shl_is_pow2(self.num_qubits);
    }

    /// A register of `num_qubits` qubits in the all-zero basis state.
    pub fn new(num_qubits: usize) -> (r: QuantumResult<Self>)
        where
            A: ArrayElement,
        requires
            num_qubits > MAX_QUBITS || num_qubits < usize::BITS,
        ensures
            r is Ok <==> 1 <= num_qubits <= MAX_QUBITS,
            r matches Ok(q) ==> {
                &&& q.wf()
                &&& q.qubits() == num_qubits
                &&& q@ == basis_state::<A>(pow2(num_qubits as nat), 0)
            },
            r matches Err(e) ==> e is InvalidQuantumState,
    {
        if num_qubits == 0 {
            return Err(QuantumError::InvalidQuantumState { reason: "量子比特数量必须大于0".to_string() });
        }
        if num_qubits > MAX_QUBITS {
            return Err(QuantumError::InvalidQuantumState { reason: "量子比特数量不能超过64".to_string() });
        }
        proof {
            lemma_shl_is_pow2_small(num_qubits);
        }
        let size: usize = 1usize << num_qubits;
        let mut amplitudes: Vec<A> = Vec::new();
        let mut i: usize = 0;
        while i < size
            invariant
                i <= size,
                amplitudes@ == basis_state::<A>(i as nat, 0),
            decreases size - i,
        {
            if i == 0 {
                amplitudes.push(A::one());
            } else {
                amplitudes.push(A::zero());
            }
            i = i + 1;
            assert(amplitudes@ =~= basis_state::<A>(i as nat, 0));
        }
        assert(amplitudes@ =~= basis_state::<A>(pow2(num_qubits as nat), 0));
        Ok(QuantumArray { amplitudes, num_qubits })
    }

    /// A register over the given amplitudes. The length must be a power of
    /// two, `2^n` for `n` qubits; the caller checks normalization, which
    /// depends on the arithmetic of the amplitude type.
    pub fn from_amplitudes(amplitudes: Vec<A>) -> (r: QuantumResult<Self>)
        ensures
            r is Ok <==> amplitudes@.len() > 0 && is_power_of_two(amplitudes@.len()),
            r matches Ok(q) ==> {
                &&& q.wf()
                &&& q@ == amplitudes@
                &&& pow2(q.qubits()) == amplitudes@.len()
            },
            r matches Err(e) ==> e is InvalidQuantumState,
    {
        let len = amplitudes.len();
        if len == 0 {
            return Err(QuantumError::InvalidQuantumState { reason: "振幅向量不能为空".to_string() });
        }
        let top: usize = (usize::BITS - 1) as usize;
        let mut n: usize = 0;
        proof {
            lemma2_to64();
            lemma2_to64_rest();
        }
        while n < top && (1usize << n) < len
            invariant
                top == usize::BITS - 1,
                n <= top,
                n == 0 || pow2((n - 1) as nat) < len,
            decreases top - n,
        {
            proof {
                lemma_shl_is_pow2_small(n);
            }
            n = n + 1;
        }
        proof {
            lemma_shl_is_pow2_small(n);
        }
        if (1usize << n) != len {
            proof {
                assert forall|m: nat| pow2(m) != len by {
                    if m < n {
                        if m < n - 1 {
                            lemma_pow2_strictly_increases(m, (n - 1) as nat);
                        }
                    } else if m > n {
                        if n < top {
                            lemma_pow2_strictly_increases(n as nat, m);
                        } else if m > usize::BITS {
                            lemma_pow2_strictly_increases(usize::BITS as nat, m);
                        }
                    }
                }
            }
            return Err(QuantumError::InvalidQuantumState { reason: "振幅向量长度必须是2的幂".to_string() });
        }
        Ok(QuantumArray { amplitudes, num_qubits: n })
    }

    /// The number of qubits.
    pub fn num_qubits(&self) -> (r: usize)
        ensures
            r == self.qubits(),
    {
        self.num_qubits
    }

    /// The number of basis states, `2^n`.
    pub fn state_size(&self) -> (r: usize)
        ensures
            r == self@.len(),
    {
        self.amplitudes.len()
    }

    /// All amplitudes, by basis index.
    pub fn amplitudes(&self) -> (r: &[A])
        ensures
            r@ == self@,
    {
        self.amplitudes.as_slice()
    }

    /// The amplitude of basis state `state`.
    pub fn get_amplitude(&self, state: usize) -> (r: QuantumResult<&A>)
        ensures
            r is Ok <==> state < self@.len(),
            r matches Ok(a) ==> *a == self@[state as int],
            r matches Err(e) ==> e == (QuantumError::QubitIndexOutOfRange { index: state, max: self@.len() as usize }),
    {
        if state >= self.amplitudes.len() {
            return Err(QuantumError::QubitIndexOutOfRange { index: state, max: self.amplitudes.len() });
        }
        Ok(&self.amplitudes[state])
    }

    /// Replaces the amplitude of basis state `state`.
    pub fn set_amplitude(&mut self, state: usize, amplitude: A) -> (r: QuantumResult<()>)
        ensures
            r is Ok <==> state < old(self)@.len(),
            r is Ok ==> final(self)@ == old(self)@.update(state as int, amplitude),
            r matches Err(e) ==> e == (QuantumError::QubitIndexOutOfRange { index: state, max: old(self)@.len() as usize }) && *final(self) == *old(self),
            final(self).qubits() == old(self).qubits(),
    {
        if state >= self.amplitudes.len() {
            return Err(QuantumError::QubitIndexOutOfRange { index: state, max: self.amplitudes.len() });
        }
        self.amplitudes[state] = amplitude;
        Ok(())
    }

    /// The amplitude at `i`, for the gates.
    pub(crate) fn at(&self, i: usize) -> (r: A)
        requires
            i < self@.len(),
        ensures
            r == self@[i as int],
    {
        self.amplitudes[i]
    }

    /// Stores `a` at `i`, for the gates.
    pub(crate) fn put(&mut self, i: usize, a: A)
        requires
            i < old(self)@.len(),
        ensures
            final(self)@ == old(self)@.update(i as int, a),
            final(self).qubits() == old(self).qubits(),
    {
        self.amplitudes[i] = a;
    }
}

} // verus!
