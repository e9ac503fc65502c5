use quantum::config::{is_quantum_available, quantum_capabilities, ErrorRecoveryConfig, QuantumConfig, QuantumErrorRecovery, QUANTUM_VERSION};
use quantum::error::QuantumError;

#[test]
fn test_quantum_available() {
    assert!(is_quantum_available());
}

#[test]
fn test_quantum_capabilities() {
    let caps = quantum_capabilities();
    assert_eq!(caps.version, QUANTUM_VERSION);
    assert!(caps.max_qubits > 0);
    assert_eq!(caps.max_qubits, 64);
    assert!(!caps.supports_gpu);
}

#[test]
fn test_quantum_config_default() {
    let config = QuantumConfig::default();
    assert!(config.quantum_lexing);
    assert!(config.quantum_parsing);
    assert!(config.quantum_semantic);
    assert!(config.quantum_optimization);
    assert_eq!(config.quantum_opt_level, 2);
    assert!(config.arrow_data_structures);
}

#[test]
fn recovery_config_default() {
    let config = ErrorRecoveryConfig::default();
    assert!(config.enable_auto_recovery);
    assert_eq!(config.max_recovery_attempts, 3);
    assert!(config.record_recovery_stats);
}

#[test]
fn recovery_counts_outcomes() {
    let mut recovery = QuantumErrorRecovery::new(3, true);
    let ok = recovery.attempt_recovery(QuantumError::InvalidQuantumState { reason: "x".to_string() }, |_| Ok(7u32));
    assert_eq!(ok.unwrap(), 7);
    let failed = recovery.attempt_recovery(
        QuantumError::QuantumStateDegeneration {
            state_id: 4,
            recovery_hint: "retry".to_string(),
            auto_recovery_attempted: false,
        },
        |e| Err::<u32, QuantumError>(QuantumError::AlgorithmError { algorithm: "a".to_string(), reason: format!("{:?}", e) }),
    );
    match failed {
        Err(QuantumError::QuantumStateDegeneration { state_id, auto_recovery_attempted, .. }) => {
            assert_eq!(state_id, 4);
            assert!(auto_recovery_attempted);
        }
        other => panic!("unexpected {:?}", other),
    }
    let stats = *recovery.get_stats();
    assert_eq!(stats.total_errors, 2);
    assert_eq!(stats.auto_recovery_attempts, 2);
    assert_eq!(stats.successful_recoveries, 1);
    assert_eq!(stats.failed_recoveries, 1);
    recovery.reset_stats();
    assert_eq!(recovery.get_stats().total_errors, 0);
}

#[test]
fn recovery_disabled_returns_the_error() {
    let mut recovery = QuantumErrorRecovery::new(3, false);
    let r = recovery.attempt_recovery(QuantumError::QubitIndexOutOfRange { index: 1, max: 1 }, |_| Ok(1u8));
    assert!(matches!(r, Err(QuantumError::QubitIndexOutOfRange { index: 1, max: 1 })));
    assert_eq!(recovery.get_stats().total_errors, 1);
    assert_eq!(recovery.get_stats().auto_recovery_attempts, 0);
}

#[test]
fn test_quantum_error_display() {
    let error = QuantumError::DimensionMismatch { expected: vec![2, 3], actual: vec![3, 2] };
    let display = error.to_string();
    assert!(display.contains("维度不匹配"));
    assert_eq!(display, "维度不匹配: 期望 [2, 3], 实际 [3, 2]");
}

#[test]
fn error_messages_render_numbers() {
    let e = QuantumError::QubitIndexOutOfRange { index: 120, max: 7 };
    assert_eq!(e.to_string(), "量子比特索引 120 超出范围 [0, 7)");
    let e = QuantumError::QuantumStateDegeneration { state_id: 0, recovery_hint: "重试".to_string(), auto_recovery_attempted: true };
    assert_eq!(e.to_string(), "量子态 0 退化 (已尝试自动恢复). 建议: 重试");
    let e = QuantumError::EntanglementNetworkFailure { network_id: 10, affected_nodes: vec![], recovery_strategy: "s".to_string() };
    assert_eq!(e.to_string(), "纠缠网络 10 故障，影响节点: []. 恢复策略: s");
    let e = QuantumError::InvalidQuantumState { reason: "r".to_string() };
    assert_eq!(e.to_string(), "无效的量子态: r");
}
