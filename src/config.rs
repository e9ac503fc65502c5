//! Capabilities, configuration and error-recovery bookkeeping.
use vstd::prelude::*;

use crate::error::{QuantumError, QuantumResult};
use crate::register::MAX_QUBITS;

verus! {

/// The version of this library's register model.
pub const QUANTUM_VERSION: &'static str = "1.0.0-alpha";

/// What this build of the library offers.
#[derive(Debug, Clone)]
pub struct QuantumCapabilities {
    /// The most qubits a register may hold.
    pub max_qubits: usize,
    /// Whether a GPU backend is built in.
    pub supports_gpu: bool,
    /// Whether vectorised kernels are built in.
    pub supports_simd: bool,
    /// The library version.
    pub version: &'static str,
}

/// Whether register simulation is available; it always is.
pub fn is_quantum_available() -> (r: bool)
    ensures
        r,
{
    true
}

/// The capabilities of this build: up to 64 qubits, no accelerator
/// backends.
pub fn quantum_capabilities() -> (r: QuantumCapabilities)
    ensures
        r.max_qubits == MAX_QUBITS,
        !r.supports_gpu,
        !r.supports_simd,
        r.version == QUANTUM_VERSION,
{
    QuantumCapabilities { max_qubits: MAX_QUBITS, supports_gpu: false, supports_simd: false, version: QUANTUM_VERSION }
}

/// Counters of recovery attempts.
#[derive(Debug, Clone, Copy, PartialEq, Eq, Structural)]
pub struct ErrorRecoveryStats {
    pub total_errors: usize,
    pub successful_recoveries: usize,
    pub failed_recoveries: usize,
    pub auto_recovery_attempts: usize,
}

impl ErrorRecoveryStats {
    /// All counters at zero.
    pub open spec fn zeroed() -> ErrorRecoveryStats {
        ErrorRecoveryStats { total_errors: 0, successful_recoveries: 0, failed_recoveries: 0, auto_recovery_attempts: 0 }
    }
}

impl Default for ErrorRecoveryStats {
    fn default() -> (r: ErrorRecoveryStats)
        ensures
            r == ErrorRecoveryStats::zeroed(),
    {
        ErrorRecoveryStats { total_errors: 0, successful_recoveries: 0, failed_recoveries: 0, auto_recovery_attempts: 0 }
    }
}

/// The error reported after a recovery attempt failed: a degenerated state
/// is marked as having had automatic recovery tried, any other error is
/// passed on as it was.
pub open spec fn mark_attempted(error: QuantumError) -> QuantumError {
    match error {
        QuantumError::QuantumStateDegeneration { state_id, recovery_hint, auto_recovery_attempted } => {
            QuantumError::QuantumStateDegeneration { state_id, recovery_hint, auto_recovery_attempted: true }
        },
        _ => error,
    }
}

/// Runs recovery functions on errors and counts the outcomes.
pub struct QuantumErrorRecovery {
    stats: ErrorRecoveryStats,
    max_recovery_attempts: usize,
    enable_auto_recovery: bool,
}

impl QuantumErrorRecovery {
    /// The counters so far.
    pub closed spec fn spec_stats(&self) -> ErrorRecoveryStats {
        self.stats
    }

    /// Whether recovery functions are run at all.
    pub closed spec fn auto_recovery(&self) -> bool {
        self.enable_auto_recovery
    }

    /// The configured bound on attempts.
    pub closed spec fn max_attempts(&self) -> usize {
        self.max_recovery_attempts
    }

    /// A recovery tool with zeroed counters.
    pub fn new(max_attempts: usize, auto_recovery: bool) -> (r: QuantumErrorRecovery)
        ensures
            r.spec_stats() == ErrorRecoveryStats::zeroed(),
            r.max_attempts() == max_attempts,
            r.auto_recovery() == auto_recovery,
    {
        QuantumErrorRecovery {
            stats: ErrorRecoveryStats::default(),
            max_recovery_attempts: max_attempts,
            enable_auto_recovery: auto_recovery,
        }
    }

    /// Counts `error` and, when automatic recovery is on, runs `recovery_fn`
    /// on it. Its success is passed on; on its failure the given error
    /// is returned, marked as having had recovery tried.
    pub fn attempt_recovery<T, F: Fn(&QuantumError) -> QuantumResult<T>>(
        &mut self,
        error: QuantumError,
        recovery_fn: F,
    ) -> (r: QuantumResult<T>)
        requires
            old(self).spec_stats().total_errors < usize::MAX,
            old(self).spec_stats().auto_recovery_attempts < usize::MAX,
            old(self).spec_stats().successful_recoveries < usize::MAX,
            old(self).spec_stats().failed_recoveries < usize::MAX,
            forall|e: &QuantumError| recovery_fn.requires((e,)),
        ensures
            final(self).auto_recovery() == old(self).auto_recovery(),
            final(self).max_attempts() == old(self).max_attempts(),
            final(self).spec_stats().total_errors == old(self).spec_stats().total_errors + 1,
            !old(self).auto_recovery() ==> {
                &&& r == Err::<T, QuantumError>(error)
                &&& final(self).spec_stats().auto_recovery_attempts == old(self).spec_stats().auto_recovery_attempts
                &&& final(self).spec_stats().successful_recoveries == old(self).spec_stats().successful_recoveries
                &&& final(self).spec_stats().failed_recoveries == old(self).spec_stats().failed_recoveries
            },
            old(self).auto_recovery() ==> {
                &&& final(self).spec_stats().auto_recovery_attempts == old(self).spec_stats().auto_recovery_attempts
                    + 1
                &&& exists|out: QuantumResult<T>|
                    #[trigger] recovery_fn.ensures((&error,), out) && match out {
                        Ok(v) => {
                            &&& r == Ok::<T, QuantumError>(v)
                            &&& final(self).spec_stats().successful_recoveries == old(
                                self,
                            ).spec_stats().successful_recoveries + 1
                            &&& final(self).spec_stats().failed_recoveries == old(
                                self,
                            ).spec_stats().failed_recoveries
                        },
                        Err(_) => {
                            &&& r == Err::<T, QuantumError>(mark_attempted(error))
                            &&& final(self).spec_stats().successful_recoveries == old(
                                self,
                            ).spec_stats().successful_recoveries
                            &&& final(self).spec_stats().failed_recoveries == old(
                                self,
                            ).spec_stats().failed_recoveries + 1
                        },
                    }
            },
    {
        self.stats.total_errors = self.stats.total_errors + 1;
        if !self.enable_auto_recovery {
            return Err(error);
        }
        self.stats.auto_recovery_attempts = self.stats.auto_recovery_attempts + 1;
        let out = recovery_fn(&error);
        match out {
            Ok(result) => {
                self.stats.successful_recoveries = self.stats.successful_recoveries + 1;
                Ok(result)
            },
            Err(_) => {
                self.stats.failed_recoveries = self.stats.failed_recoveries + 1;
                match error {
                    QuantumError::QuantumStateDegeneration { state_id, recovery_hint, auto_recovery_attempted: _ } => {
                        Err(QuantumError::QuantumStateDegeneration { state_id, recovery_hint, auto_recovery_attempted: true })
                    },
                    other => Err(other),
                }
            },
        }
    }

    /// The counters so far.
    pub fn get_stats(&self) -> (r: &ErrorRecoveryStats)
        ensures
            *r == self.spec_stats(),
    {
        &self.stats
    }

    /// Sets every counter back to zero.
    pub fn reset_stats(&mut self)
        ensures
            final(self).spec_stats() == ErrorRecoveryStats::zeroed(),
            final(self).auto_recovery() == old(self).auto_recovery(),
            final(self).max_attempts() == old(self).max_attempts(),
    {
        self.stats = ErrorRecoveryStats::default();
    }
}

/// How errors are recovered from.
#[derive(Debug, Clone, Copy, PartialEq, Eq, Structural)]
pub struct ErrorRecoveryConfig {
    pub enable_auto_recovery: bool,
    pub max_recovery_attempts: usize,
    pub record_recovery_stats: bool,
}

impl Default for ErrorRecoveryConfig {
    /// Automatic recovery on, three attempts, statistics recorded.
    fn default() -> (r: ErrorRecoveryConfig)
        ensures
            r.enable_auto_recovery,
            r.max_recovery_attempts == 3,
            r.record_recovery_stats,
    {
        ErrorRecoveryConfig { enable_auto_recovery: true, max_recovery_attempts: 3, record_recovery_stats: true }
    }
}

/// Which stages of the pipeline are switched on, and how hard to optimize.
#[derive(Debug, Clone, Copy, PartialEq, Eq, Structural)]
pub struct QuantumConfig {
    pub quantum_lexing: bool,
    pub quantum_parsing: bool,
    pub quantum_semantic: bool,
    pub quantum_optimization: bool,
    /// Optimization level, 0 to 3.
    pub quantum_opt_level: u8,
    pub arrow_data_structures: bool,
}

impl Default for QuantumConfig {
    /// Every stage on, optimization level 2.
    fn default() -> (r: QuantumConfig)
        ensures
            r.quantum_lexing,
            r.quantum_parsing,
            r.quantum_semantic,
            r.quantum_optimization,
            r.quantum_opt_level == 2,
            r.arrow_data_structures,
    {
        QuantumConfig {
            quantum_lexing: true,
            quantum_parsing: true,
            quantum_semantic: true,
            quantum_optimization: true,
            quantum_opt_level: 2,
            arrow_data_structures: true,
        }
    }
}

} // verus!
