use vstd::prelude::*;
use vstd::string::StringExecFns;

use crate::text::{decimal, list_text, push_decimal, push_list};

verus! {

/// The ways an operation on a register or an array can fail.
#[derive(Debug)]
pub enum QuantumError {
    /// Two shapes, lengths or qubit counts that had to agree did not.
    DimensionMismatch { expected: Vec<usize>, actual: Vec<usize> },
    /// A qubit or basis-state index at or past `max`.
    QubitIndexOutOfRange { index: usize, max: usize },
    /// A request that no valid register state can satisfy.
    InvalidQuantumState { reason: String },
    /// A composite algorithm could not run.
    AlgorithmError { algorithm: String, reason: String },
    /// An analysis phase reported a problem.
    CompilerError { phase: String, message: String },
    /// A state lost its structure; recovery may have been tried.
    QuantumStateDegeneration { state_id: usize, recovery_hint: String, auto_recovery_attempted: bool },
    /// A container operation was asked for something out of its range.
    IntegrationError { message: String },
    /// A group of entangled nodes failed together.
    EntanglementNetworkFailure {
        network_id: usize,
        affected_nodes: Vec<usize>,
        recovery_strategy: String,
    },
}

/// Result of an operation of this library.
pub type QuantumResult<T> = Result<T, QuantumError>;

/// The message describing `e`.
pub open spec fn error_text(e: QuantumError) -> Seq<char> {
    match e {
        QuantumError::DimensionMismatch { expected, actual } => "维度不匹配: 期望 "@ + list_text(expected@) + ", 实际 "@
            + list_text(actual@),
        QuantumError::QubitIndexOutOfRange { index, max } => "量子比特索引 "@ + decimal(index as nat) + " 超出范围 [0, "@
            + decimal(max as nat) + ")"@,
        QuantumError::InvalidQuantumState { reason } => "无效的量子态: "@ + reason@,
        QuantumError::AlgorithmError { algorithm, reason } => "量子算法 '"@ + algorithm@ + "' 执行错误: "@ + reason@,
        QuantumError::CompilerError { phase, message } => "编译器错误 ("@ + phase@ + "): "@ + message@,
        QuantumError::QuantumStateDegeneration { state_id, recovery_hint, auto_recovery_attempted } => "量子态 "@
            + decimal(state_id as nat) + " 退化"@ + (if auto_recovery_attempted {
            " (已尝试自动恢复)"@
        } else {
            Seq::empty()
        }) + ". 建议: "@ + recovery_hint@,
        QuantumError::IntegrationError { message } => "Quantum integration error: "@ + message@,
        QuantumError::EntanglementNetworkFailure { network_id, affected_nodes, recovery_strategy } => "纠缠网络 "@
            + decimal(network_id as nat) + " 故障，影响节点: "@ + list_text(affected_nodes@) + ". 恢复策略: "@
            + recovery_strategy@,
    }
}

impl QuantumError {
    /// The message describing this error.
    pub fn to_string(&self) -> (r: String)
        ensures
            r@ == error_text(*self),
    {
        let mut out = String::new();
        match self {
            QuantumError::DimensionMismatch { expected, actual } => {
                out.append("维度不匹配: 期望 ");
                push_list(&mut out, expected);
                out.append(", 实际 ");
                push_list(&mut out, actual);
            },
            QuantumError::QubitIndexOutOfRange { index, max } => {
                out.append("量子比特索引 ");
                push_decimal(&mut out, *index);
                out.append(" 超出范围 [0, ");
                push_decimal(&mut out, *max);
                out.append(")");
            },
            QuantumError::InvalidQuantumState { reason } => {
                out.append("无效的量子态: ");
                out.append(reason.as_str());
            },
            QuantumError::AlgorithmError { algorithm, reason } => {
                out.append("量子算法 '");
                out.append(algorithm.as_str());
                out.append("' 执行错误: ");
                out.append(reason.as_str());
            },
            QuantumError::CompilerError { phase, message } => {
                out.append("编译器错误 (");
                out.append(phase.as_str());
                out.append("): ");
                out.append(message.as_str());
            },
            QuantumError::QuantumStateDegeneration { state_id, recovery_hint, auto_recovery_attempted } => {
                out.append("量子态 ");
                push_decimal(&mut out, *state_id);
                out.append(" 退化");
                if *auto_recovery_attempted {
                    out.append(" (已尝试自动恢复)");
                }
                out.append(". 建议: ");
                out.append(recovery_hint.as_str());
            },
            QuantumError::IntegrationError { message } => {
                out.append("Quantum integration error: ");
                out.append(message.as_str());
            },
            QuantumError::EntanglementNetworkFailure { network_id, affected_nodes, recovery_strategy } => {
                out.append("纠缠网络 ");
                push_decimal(&mut out, *network_id);
                out.append(" 故障，影响节点: ");
                push_list(&mut out, affected_nodes);
                out.append(". 恢复策略: ");
                out.append(recovery_strategy.as_str());
            },
        }
        assert(out@ =~= error_text(*self));
        out
    }
}

} // verus!
