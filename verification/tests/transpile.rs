use qcs_sdk_qir::decode::{qis_function_arguments, QirOperand};
use qcs_sdk_qir::qir::{
    DoubleWord, IntOperand, ParamType, QirBlock, QirFunction, QirInstruction, QirModule,
    RawOperand, ReturnType,
};
use qcs_sdk_qir::{transpile_qir_to_quil, transpile_unitary_qir_to_quil, ExecutionTarget,
    RecordedOutput, TranspileError};

fn qubit(i: u64) -> RawOperand {
    RawOperand::StructPointer { struct_name: b"Qubit".to_vec(), address: Some(i) }
}

fn result_ptr(i: u64) -> RawOperand {
    RawOperand::StructPointer { struct_name: b"Result".to_vec(), address: Some(i) }
}

fn dynamic_double(key: u64) -> RawOperand {
    RawOperand::DoubleOperand(DoubleWord { key, constant: None })
}

fn constant_double(key: u64, text: &str) -> RawOperand {
    RawOperand::DoubleOperand(DoubleWord { key, constant: Some(text.to_string()) })
}

fn call(id: u64, name: &str, operands: Vec<RawOperand>) -> QirInstruction {
    QirInstruction::Call { id, callee: Some(name.as_bytes().to_vec()), operands }
}

fn entry_function(blocks: Vec<QirBlock>) -> QirFunction {
    QirFunction {
        name: b"QuantumApplication__Run__body".to_vec(),
        has_entry_point_attribute: true,
        param_types: vec![],
        return_type: ReturnType::Void,
        is_var_arg: false,
        blocks,
    }
}

fn module_of(functions: Vec<QirFunction>) -> QirModule {
    QirModule { functions }
}

fn shot_loop_block(body: Vec<QirInstruction>, shots: i64) -> QirBlock {
    let mut instructions = vec![QirInstruction::Phi { id: 1 }];
    instructions.extend(body);
    instructions.push(QirInstruction::Add {
        id: 90,
        lhs: IntOperand::Defined(1),
        rhs: IntOperand::Constant(1),
    });
    instructions.push(QirInstruction::ICmp {
        id: 91,
        lhs: IntOperand::Defined(1),
        rhs: IntOperand::Constant(shots),
    });
    instructions.push(QirInstruction::CondBr {
        condition: IntOperand::Defined(91),
        then_target: b"body".to_vec(),
        else_target: b"exit".to_vec(),
    });
    QirBlock { name: b"body".to_vec(), instructions }
}

#[test]
fn bell_state_unitary() {
    let block = QirBlock {
        name: b"entry".to_vec(),
        instructions: vec![
            call(10, "__quantum__qis__h__body", vec![qubit(0)]),
            call(11, "__quantum__qis__cnot__body", vec![qubit(0), qubit(1)]),
            call(12, "__quantum__qis__mz__body", vec![qubit(0), result_ptr(0)]),
            call(13, "__quantum__qis__mz__body", vec![qubit(1), result_ptr(1)]),
            call(14, "__quantum__rt__tuple_start_record_output", vec![]),
            call(15, "__quantum__rt__result_record_output", vec![result_ptr(0)]),
            call(16, "__quantum__rt__result_record_output", vec![result_ptr(1)]),
            call(17, "__quantum__rt__tuple_end_record_output", vec![]),
            QirInstruction::Ret,
        ],
    };
    let module = module_of(vec![entry_function(vec![block])]);
    let out = transpile_unitary_qir_to_quil(&module).unwrap();
    assert_eq!(
        out.program.to_quil_text(),
        "H 0\nCNOT 0 1\nMEASURE 0 ro[0]\nMEASURE 1 ro[1]\nDECLARE ro BIT[2]\n"
    );
    assert_eq!(
        out.recorded_output,
        vec![
            RecordedOutput::TupleStart,
            RecordedOutput::ResultReadoutOffset(0),
            RecordedOutput::ResultReadoutOffset(1),
            RecordedOutput::TupleEnd,
        ]
    );
}

#[test]
fn shot_count_loop_1000_shots() {
    let body = vec![
        call(10, "__quantum__qis__h__body", vec![qubit(0)]),
        call(11, "__quantum__qis__mz__body", vec![qubit(0), result_ptr(0)]),
        call(12, "__quantum__qis__read_result__body", vec![result_ptr(0)]),
        call(13, "__quantum__rt__result_record_output", vec![result_ptr(0)]),
    ];
    let module = module_of(vec![entry_function(vec![shot_loop_block(body, 1000)])]);
    let out = transpile_qir_to_quil(&module).unwrap();
    assert_eq!(out.shot_count, 1000);
    assert_eq!(out.program.to_quil_text(), "H 0\nMEASURE 0 ro[0]\nDECLARE ro BIT[1]\n");
    assert_eq!(
        out.recorded_output,
        vec![
            RecordedOutput::ShotStart,
            RecordedOutput::ResultReadoutOffset(0),
            RecordedOutput::ShotEnd,
        ]
    );
}

#[test]
fn sparse_result_indices() {
    let block = QirBlock {
        name: b"entry".to_vec(),
        instructions: vec![
            call(10, "__quantum__qis__mz__body", vec![qubit(0), result_ptr(3)]),
            call(11, "__quantum__qis__mz__body", vec![qubit(1), result_ptr(7)]),
            call(12, "__quantum__qis__mz__body", vec![qubit(2), result_ptr(1)]),
            QirInstruction::Ret,
        ],
    };
    let module = module_of(vec![entry_function(vec![block])]);
    let out = transpile_unitary_qir_to_quil(&module).unwrap();
    assert_eq!(
        out.program.to_quil_text(),
        "MEASURE 0 ro[0]\nMEASURE 1 ro[1]\nMEASURE 2 ro[2]\nDECLARE ro BIT[3]\n"
    );
}

#[test]
fn measuring_one_result_twice_keeps_its_offset() {
    let block = QirBlock {
        name: b"entry".to_vec(),
        instructions: vec![
            call(10, "__quantum__qis__mz__body", vec![qubit(0), result_ptr(5)]),
            call(11, "__quantum__qis__mz__body", vec![qubit(1), result_ptr(5)]),
            QirInstruction::Ret,
        ],
    };
    let module = module_of(vec![entry_function(vec![block])]);
    let out = transpile_unitary_qir_to_quil(&module).unwrap();
    assert_eq!(
        out.program.to_quil_text(),
        "MEASURE 0 ro[0]\nMEASURE 1 ro[0]\nDECLARE ro BIT[1]\n"
    );
}

#[test]
fn parametric_rotation_shares_one_slot() {
    let block = QirBlock {
        name: b"entry".to_vec(),
        instructions: vec![
            call(10, "__quantum__qis__rz__body", vec![dynamic_double(100), qubit(0)]),
            call(11, "__quantum__qis__rz__body", vec![dynamic_double(100), qubit(0)]),
            call(12, "__quantum__qis__rz__body", vec![dynamic_double(100), qubit(0)]),
            QirInstruction::Ret,
        ],
    };
    let module = module_of(vec![entry_function(vec![block])]);
    let out = transpile_unitary_qir_to_quil(&module).unwrap();
    assert_eq!(
        out.program.to_quil_text(),
        "RZ(__qir_param[0]) 0\nRZ(__qir_param[0]) 0\nRZ(__qir_param[0]) 0\nDECLARE ro BIT[0]\nDECLARE __qir_param REAL[1]\n"
    );
}

#[test]
fn distinct_parameters_take_distinct_slots() {
    let block = QirBlock {
        name: b"entry".to_vec(),
        instructions: vec![
            call(10, "__quantum__qis__rx__body", vec![dynamic_double(100), qubit(0)]),
            call(11, "__quantum__qis__ry__body", vec![dynamic_double(200), qubit(0)]),
            call(12, "__quantum__qis__rx__body", vec![dynamic_double(100), qubit(1)]),
            QirInstruction::Ret,
        ],
    };
    let module = module_of(vec![entry_function(vec![block])]);
    let out = transpile_unitary_qir_to_quil(&module).unwrap();
    assert_eq!(
        out.program.to_quil_text(),
        "RX(__qir_param[0]) 0\nRY(__qir_param[1]) 0\nRX(__qir_param[0]) 1\nDECLARE ro BIT[0]\nDECLARE __qir_param REAL[2]\n"
    );
}

#[test]
fn constant_parameter_is_inlined() {
    let block = QirBlock {
        name: b"entry".to_vec(),
        instructions: vec![
            call(10, "__quantum__qis__rx__body", vec![constant_double(7, "3.14159"), qubit(0)]),
            QirInstruction::Ret,
        ],
    };
    let module = module_of(vec![entry_function(vec![block])]);
    let out = transpile_unitary_qir_to_quil(&module).unwrap();
    assert_eq!(out.program.to_quil_text(), "RX(3.14159) 0\nDECLARE ro BIT[0]\n");
}

#[test]
fn adjoint_and_controlled_modifiers() {
    let block = QirBlock {
        name: b"entry".to_vec(),
        instructions: vec![
            call(10, "__quantum__qis__s__adj", vec![qubit(0)]),
            call(11, "__quantum__qis__t__body", vec![qubit(1)]),
            call(12, "__quantum__qis__x__ctl__adj__body", vec![qubit(2)]),
            QirInstruction::Ret,
        ],
    };
    let module = module_of(vec![entry_function(vec![block])]);
    let out = transpile_unitary_qir_to_quil(&module).unwrap();
    assert_eq!(
        out.program.to_quil_text(),
        "DAGGER S 0\nT 1\nDAGGER CONTROLLED X 2\nDECLARE ro BIT[0]\n"
    );
}

#[test]
fn swap_and_toffoli_gates() {
    let block = QirBlock {
        name: b"entry".to_vec(),
        instructions: vec![
            call(10, "__quantum__qis__swap__body", vec![qubit(0), qubit(1)]),
            call(11, "__quantum__qis__toffoli__body", vec![qubit(0), qubit(1), qubit(2)]),
            call(12, "__quantum__qis__cz__body", vec![qubit(0), qubit(1)]),
            QirInstruction::Ret,
        ],
    };
    let module = module_of(vec![entry_function(vec![block])]);
    let out = transpile_unitary_qir_to_quil(&module).unwrap();
    assert_eq!(out.program.to_quil_text(), "SWAP 0 1\nCCNOT 0 1 2\nCZ 0 1\nDECLARE ro BIT[0]\n");
}

#[test]
fn bad_qis_signature_fails_before_matching() {
    let bad_decl = QirFunction {
        name: b"__quantum__qis__foo".to_vec(),
        has_entry_point_attribute: false,
        param_types: vec![ParamType::OtherType],
        return_type: ReturnType::Void,
        is_var_arg: false,
        blocks: vec![],
    };
    let block = QirBlock {
        name: b"body".to_vec(),
        instructions: vec![QirInstruction::Ret],
    };
    let module = module_of(vec![entry_function(vec![block]), bad_decl]);
    match transpile_qir_to_quil(&module) {
        Err(TranspileError::QuantumFnParamBadType(bad)) => {
            assert_eq!(bad.len(), 1);
            assert_eq!(bad[0].function, b"__quantum__qis__foo".to_vec());
            assert_eq!(bad[0].index, 0);
        },
        other => panic!("expected a bad-parameter failure, got {:?}", other.is_ok()),
    }
}

#[test]
fn unitary_rejects_classical_instruction() {
    let block = QirBlock {
        name: b"entry".to_vec(),
        instructions: vec![
            call(10, "__quantum__qis__h__body", vec![qubit(0)]),
            QirInstruction::Add {
                id: 11,
                lhs: IntOperand::Constant(2),
                rhs: IntOperand::Constant(2),
            },
            QirInstruction::Ret,
        ],
    };
    let module = module_of(vec![entry_function(vec![block])]);
    assert!(matches!(
        transpile_unitary_qir_to_quil(&module),
        Err(TranspileError::ForbiddenClassicalInstruction)
    ));
}

#[test]
fn unitary_rejects_unknown_quantum_op() {
    let block = QirBlock {
        name: b"entry".to_vec(),
        instructions: vec![
            call(10, "__quantum__qis__foo__body", vec![qubit(0)]),
            QirInstruction::Ret,
        ],
    };
    let module = module_of(vec![entry_function(vec![block])]);
    assert!(matches!(
        transpile_unitary_qir_to_quil(&module),
        Err(TranspileError::ForbiddenClassicalInstruction)
    ));
}

#[test]
fn unitary_requires_nullary_signature() {
    let mut f = entry_function(vec![QirBlock {
        name: b"entry".to_vec(),
        instructions: vec![QirInstruction::Ret],
    }]);
    f.param_types = vec![ParamType::DoubleParam];
    let module = module_of(vec![f]);
    assert!(matches!(
        transpile_unitary_qir_to_quil(&module),
        Err(TranspileError::BadUnitarySignature)
    ));
}

#[test]
fn unmeasured_read_result_fails() {
    let body = vec![call(12, "__quantum__qis__read_result__body", vec![result_ptr(4)])];
    let module = module_of(vec![entry_function(vec![shot_loop_block(body, 10)])]);
    assert!(matches!(
        transpile_qir_to_quil(&module),
        Err(TranspileError::UnmeasuredResultRead(4))
    ));
}

#[test]
fn negative_shot_count_fails() {
    let body = vec![call(10, "__quantum__qis__h__body", vec![qubit(0)])];
    let module = module_of(vec![entry_function(vec![shot_loop_block(body, -5)])]);
    assert!(matches!(transpile_qir_to_quil(&module), Err(TranspileError::InvalidShotCount(-5))));
}

#[test]
fn malformed_loop_terminator_fails() {
    let instructions = vec![
        QirInstruction::Phi { id: 1 },
        call(10, "__quantum__qis__h__body", vec![qubit(0)]),
        QirInstruction::Add { id: 90, lhs: IntOperand::Defined(1), rhs: IntOperand::Constant(1) },
        QirInstruction::Ret,
    ];
    let block = QirBlock { name: b"body".to_vec(), instructions };
    let module = module_of(vec![entry_function(vec![block])]);
    assert!(matches!(
        transpile_qir_to_quil(&module),
        Err(TranspileError::MalformedLoopTerminator)
    ));
}

#[test]
fn unimplemented_record_type_fails() {
    let body = vec![call(10, "__quantum__rt__bool_record_output", vec![result_ptr(0)])];
    let module = module_of(vec![entry_function(vec![shot_loop_block(body, 10)])]);
    assert!(matches!(
        transpile_qir_to_quil(&module),
        Err(TranspileError::UnimplementedRecordType(k)) if k == b"bool".to_vec()
    ));
}

#[test]
fn malformed_intrinsic_operand_fails() {
    let body = vec![call(
        10,
        "__quantum__qis__h__body",
        vec![RawOperand::StructPointer { struct_name: b"Qubit".to_vec(), address: None }],
    )];
    let module = module_of(vec![entry_function(vec![shot_loop_block(body, 10)])]);
    assert!(matches!(transpile_qir_to_quil(&module), Err(TranspileError::MalformedIntrinsic)));
}

#[test]
fn nested_call_to_defined_function_fails_transpile() {
    let helper = QirFunction {
        name: b"helper".to_vec(),
        has_entry_point_attribute: false,
        param_types: vec![],
        return_type: ReturnType::Void,
        is_var_arg: false,
        blocks: vec![QirBlock {
            name: b"entry".to_vec(),
            instructions: vec![QirInstruction::Ret],
        }],
    };
    let body = vec![call(10, "helper", vec![])];
    let module = module_of(vec![entry_function(vec![shot_loop_block(body, 10)]), helper]);
    assert!(matches!(
        transpile_qir_to_quil(&module),
        Err(TranspileError::NestedFunctionCall(n)) if n == b"helper".to_vec()
    ));
}

#[test]
fn call_to_declared_only_function_is_left_in_place() {
    let decl = QirFunction {
        name: b"__quantum__rt__array_create".to_vec(),
        has_entry_point_attribute: false,
        param_types: vec![],
        return_type: ReturnType::OtherReturn,
        is_var_arg: false,
        blocks: vec![],
    };
    let body = vec![
        call(9, "__quantum__rt__array_create", vec![]),
        call(10, "__quantum__qis__h__body", vec![qubit(0)]),
    ];
    let module = module_of(vec![entry_function(vec![shot_loop_block(body, 3)]), decl]);
    let out = transpile_qir_to_quil(&module).unwrap();
    assert_eq!(out.shot_count, 3);
    assert_eq!(out.program.to_quil_text(), "H 0\nDECLARE ro BIT[0]\n");
}

#[test]
fn missing_entrypoint_fails() {
    let module = module_of(vec![QirFunction {
        name: b"some_function".to_vec(),
        has_entry_point_attribute: false,
        param_types: vec![],
        return_type: ReturnType::Void,
        is_var_arg: false,
        blocks: vec![],
    }]);
    assert!(matches!(transpile_qir_to_quil(&module), Err(TranspileError::EntrypointMissing)));
}

#[test]
fn missing_body_block_fails() {
    let block = QirBlock { name: b"entry".to_vec(), instructions: vec![QirInstruction::Ret] };
    let module = module_of(vec![entry_function(vec![block])]);
    assert!(matches!(transpile_qir_to_quil(&module), Err(TranspileError::BodyBlockMissing)));
}

#[test]
fn entrypoint_found_by_attribute() {
    let named_elsewhere = QirFunction {
        name: b"some_function".to_vec(),
        has_entry_point_attribute: true,
        param_types: vec![],
        return_type: ReturnType::Void,
        is_var_arg: false,
        blocks: vec![shot_loop_block(
            vec![call(10, "__quantum__qis__x__body", vec![qubit(0)])],
            2,
        )],
    };
    let module = module_of(vec![named_elsewhere]);
    let out = transpile_qir_to_quil(&module).unwrap();
    assert_eq!(out.shot_count, 2);
    assert_eq!(out.program.to_quil_text(), "X 0\nDECLARE ro BIT[0]\n");
}

#[test]
fn block_without_leading_phi_is_no_match() {
    let block = QirBlock {
        name: b"body".to_vec(),
        instructions: vec![
            call(10, "__quantum__qis__h__body", vec![qubit(0)]),
            QirInstruction::Ret,
        ],
    };
    let module = module_of(vec![entry_function(vec![block])]);
    assert!(matches!(
        transpile_qir_to_quil(&module),
        Err(TranspileError::ShotCountPatternMissing)
    ));
}

#[test]
fn reset_intrinsic_prepends_reset() {
    let body = vec![
        call(9, "__quantum__qis__reset__body", vec![qubit(0)]),
        call(10, "__quantum__qis__h__body", vec![qubit(0)]),
    ];
    let module = module_of(vec![entry_function(vec![shot_loop_block(body, 10)])]);
    let out = transpile_qir_to_quil(&module).unwrap();
    assert_eq!(out.program.to_quil_text(), "RESET\nH 0\nDECLARE ro BIT[0]\n");
}

#[test]
fn execution_target_parsing() {
    assert!(matches!(ExecutionTarget::from_str("qvm"), ExecutionTarget::Qvm));
    assert!(matches!(ExecutionTarget::from_str("QVM"), ExecutionTarget::Qvm));
    assert!(matches!(ExecutionTarget::from_str("qVm"), ExecutionTarget::Qvm));
    match ExecutionTarget::from_str("Aspen-9") {
        ExecutionTarget::Qpu(id) => assert_eq!(id, "Aspen-9"),
        ExecutionTarget::Qvm => panic!("expected a QPU id"),
    }
    assert!(matches!(ExecutionTarget::default(), ExecutionTarget::Qvm));
}

#[test]
fn decoder_classifies_operands() {
    let args = qis_function_arguments(&vec![
        qubit(4),
        result_ptr(9),
        dynamic_double(3),
        RawOperand::InstructionPointer(77),
    ])
    .unwrap();
    assert!(matches!(args[0], QirOperand::QubitArg(4)));
    assert!(matches!(args[1], QirOperand::ResultArg(9)));
    assert!(matches!(&args[2], QirOperand::ParameterArg(d) if d.key == 3));
    assert!(matches!(args[3], QirOperand::InstructionArg(77)));
    assert!(qis_function_arguments(&vec![RawOperand::OtherOperand]).is_none());
    assert!(
        qis_function_arguments(&vec![RawOperand::StructPointer {
            struct_name: b"Array".to_vec(),
            address: Some(1),
        }])
        .is_none()
    );
}
