use qcs_sdk_qir::patch::{
    patch_qir_with_qcs, patch_unitary_qir_with_qcs, removal_order, retarget_phi_incoming,
    runtime_abi_schema, AbiCall, RemovalCandidate,
};
use qcs_sdk_qir::qir::{
    DoubleWord, IntOperand, QirBlock, QirFunction, QirInstruction, QirModule, RawOperand,
    ReturnType,
};
use qcs_sdk_qir::{ExecutionTarget, PatchOptions, TranspileError};

fn qubit(i: u64) -> RawOperand {
    RawOperand::StructPointer { struct_name: b"Qubit".to_vec(), address: Some(i) }
}

fn result_ptr(i: u64) -> RawOperand {
    RawOperand::StructPointer { struct_name: b"Result".to_vec(), address: Some(i) }
}

fn call(id: u64, name: &str, operands: Vec<RawOperand>) -> QirInstruction {
    QirInstruction::Call { id, callee: Some(name.as_bytes().to_vec()), operands }
}

fn shot_loop_block(body: Vec<QirInstruction>, shots: i64) -> QirBlock {
    let mut instructions = vec![QirInstruction::Phi { id: 1 }];
    instructions.extend(body);
    instructions.push(QirInstruction::Add {
        id: 90,
        lhs: IntOperand::Defined(1),
        rhs: IntOperand::Constant(1),
    });
    instructions.push(QirInstruction::ICmp {
        id: 91,
        lhs: IntOperand::Defined(1),
        rhs: IntOperand::Constant(shots),
    });
    instructions.push(QirInstruction::CondBr {
        condition: IntOperand::Defined(91),
        then_target: b"body".to_vec(),
        else_target: b"exit".to_vec(),
    });
    QirBlock { name: b"body".to_vec(), instructions }
}

fn entry_function(blocks: Vec<QirBlock>) -> QirFunction {
    QirFunction {
        name: b"QuantumApplication__Run__body".to_vec(),
        has_entry_point_attribute: true,
        param_types: vec![],
        return_type: ReturnType::Void,
        is_var_arg: false,
        blocks,
    }
}

fn options(rewiring: Option<&str>, cache: bool) -> PatchOptions {
    PatchOptions {
        add_main_entrypoint: false,
        execution_target: ExecutionTarget::Qvm,
        cache_executables: cache,
        quil_rewiring_pragma: rewiring.map(|s| s.to_string()),
    }
}

#[test]
fn active_reset_and_rewiring_pragma_order() {
    let body = vec![
        call(9, "__quantum__qis__reset__body", vec![qubit(0)]),
        call(10, "__quantum__qis__h__body", vec![qubit(0)]),
        call(11, "__quantum__qis__mz__body", vec![qubit(0), result_ptr(0)]),
    ];
    let module = QirModule { functions: vec![entry_function(vec![shot_loop_block(body, 100)])] };
    let plan = patch_qir_with_qcs(options(Some("PARTIAL"), false), &module).unwrap();
    assert_eq!(plan.block_patches.len(), 1);
    let patch = &plan.block_patches[0];
    match &patch.execution_calls[0] {
        AbiCall::ExecutableFromQuil { program_text } => {
            assert_eq!(
                program_text,
                "PRAGMA INITIAL_REWIRING \"PARTIAL\"\nRESET\nH 0\nMEASURE 0 ro[0]\nDECLARE ro BIT[1]\n"
            );
        },
        _ => panic!("expected the program to be built from its text"),
    }
}

#[test]
fn execution_block_call_order() {
    let body = vec![
        call(
            10,
            "__quantum__qis__rz__body",
            vec![RawOperand::DoubleOperand(DoubleWord { key: 50, constant: None }), qubit(0)],
        ),
        call(11, "__quantum__qis__mz__body", vec![qubit(0), result_ptr(0)]),
        call(12, "__quantum__qis__read_result__body", vec![result_ptr(0)]),
    ];
    let module = QirModule { functions: vec![entry_function(vec![shot_loop_block(body, 77)])] };
    let plan = patch_qir_with_qcs(options(None, false), &module).unwrap();
    let patch = &plan.block_patches[0];
    assert_eq!(patch.block_name, b"body".to_vec());
    assert_eq!(patch.shot_index_value, 1);
    assert_eq!(patch.cleanup_branch_target, b"exit".to_vec());
    assert_eq!(patch.readout_substitutions, vec![(0, 12)]);
    assert_eq!(patch.instructions_to_remove, vec![10, 11, 12]);
    assert_eq!(patch.execution_calls.len(), 5);
    assert!(matches!(patch.execution_calls[0], AbiCall::ExecutableFromQuil { .. }));
    assert!(matches!(patch.execution_calls[1], AbiCall::WrapInShots { shots: 77 }));
    assert!(
        matches!(patch.execution_calls[2], AbiCall::SetParam { slot: 0, value_key: 50 })
    );
    assert!(matches!(patch.execution_calls[3], AbiCall::ExecuteOnQvm));
    assert!(matches!(patch.execution_calls[4], AbiCall::PanicOnFailure));
}

#[test]
fn cached_executables_are_indexed() {
    let body = vec![call(10, "__quantum__qis__h__body", vec![qubit(0)])];
    let module = QirModule { functions: vec![entry_function(vec![shot_loop_block(body, 5)])] };
    let plan = patch_qir_with_qcs(options(None, true), &module).unwrap();
    assert_eq!(plan.cached_programs.len(), 1);
    assert_eq!(plan.cached_programs[0], "H 0\nDECLARE ro BIT[0]\n");
    assert!(matches!(
        plan.block_patches[0].execution_calls[0],
        AbiCall::GetCachedExecutable { cache_index: 0 }
    ));
}

#[test]
fn qpu_target_is_used_for_execution() {
    let body = vec![call(10, "__quantum__qis__h__body", vec![qubit(0)])];
    let module = QirModule { functions: vec![entry_function(vec![shot_loop_block(body, 5)])] };
    let mut opts = options(None, false);
    opts.execution_target = ExecutionTarget::Qpu("Aspen-9".to_string());
    let plan = patch_qir_with_qcs(opts, &module).unwrap();
    match &plan.block_patches[0].execution_calls[2] {
        AbiCall::ExecuteOnQpu { processor_id } => assert_eq!(processor_id, "Aspen-9"),
        _ => panic!("expected a QPU execution call"),
    }
}

#[test]
fn nested_function_blocks_are_patched_once() {
    let helper_body = vec![call(30, "__quantum__qis__x__body", vec![qubit(0)])];
    let mut helper_block = shot_loop_block(helper_body, 4);
    helper_block.name = b"hbody".to_vec();
    helper_block.instructions = helper_block
        .instructions
        .into_iter()
        .map(|i| match i {
            QirInstruction::Phi { .. } => QirInstruction::Phi { id: 2 },
            QirInstruction::Add { id, rhs, .. } => QirInstruction::Add {
                id,
                lhs: IntOperand::Defined(2),
                rhs,
            },
            QirInstruction::ICmp { id, rhs, .. } => QirInstruction::ICmp {
                id,
                lhs: IntOperand::Defined(2),
                rhs,
            },
            other => other,
        })
        .collect();
    let helper = QirFunction {
        name: b"helper".to_vec(),
        has_entry_point_attribute: false,
        param_types: vec![],
        return_type: ReturnType::Void,
        is_var_arg: false,
        blocks: vec![helper_block],
    };
    let body = vec![
        call(20, "helper", vec![]),
        call(10, "__quantum__qis__h__body", vec![qubit(0)]),
        call(21, "helper", vec![]),
    ];
    let module = QirModule {
        functions: vec![entry_function(vec![shot_loop_block(body, 9)]), helper],
    };
    let plan = patch_qir_with_qcs(options(None, true), &module).unwrap();
    // the entry function's block is patched first; the helper, discovered at
    // its call sites, is reached once and patched after
    assert_eq!(plan.block_patches.len(), 2);
    assert_eq!(plan.block_patches[0].block_name, b"body".to_vec());
    assert_eq!(plan.block_patches[1].block_name, b"hbody".to_vec());
    assert_eq!(plan.cached_programs.len(), 2);
    assert_eq!(plan.cached_programs[0], "H 0\nDECLARE ro BIT[0]\n");
    assert_eq!(plan.cached_programs[1], "X 0\nDECLARE ro BIT[0]\n");
    // each patch reads back exactly the cache slot its program text took
    assert!(matches!(
        plan.block_patches[0].execution_calls[0],
        AbiCall::GetCachedExecutable { cache_index: 0 }
    ));
    assert!(matches!(
        plan.block_patches[1].execution_calls[0],
        AbiCall::GetCachedExecutable { cache_index: 1 }
    ));
}

#[test]
fn removal_order_deletes_users_first() {
    // 3 uses 1; 1 uses 2; 2 unused: valid order must be 3, 1, 2
    let candidates = vec![
        RemovalCandidate { id: 1, used_by: vec![3] },
        RemovalCandidate { id: 2, used_by: vec![1] },
        RemovalCandidate { id: 3, used_by: vec![] },
    ];
    let order = removal_order(&candidates).unwrap();
    assert_eq!(order, vec![3, 1, 2]);
}

#[test]
fn removal_order_rejects_a_use_cycle() {
    let candidates = vec![
        RemovalCandidate { id: 1, used_by: vec![2] },
        RemovalCandidate { id: 2, used_by: vec![1] },
    ];
    assert!(matches!(removal_order(&candidates), Err(TranspileError::UseCycle)));
}

#[test]
fn removal_order_rejects_an_outside_user() {
    let candidates = vec![RemovalCandidate { id: 1, used_by: vec![99] }];
    assert!(matches!(removal_order(&candidates), Err(TranspileError::UseCycle)));
}

#[test]
fn phi_edges_are_retargeted() {
    let incoming = vec![b"body".to_vec(), b"head".to_vec(), b"body".to_vec()];
    let direct = retarget_phi_incoming(&incoming, &b"body".to_vec(), &b"body_execution".to_vec(), false);
    assert_eq!(
        direct,
        vec![b"body_execution".to_vec(), b"head".to_vec(), b"body_execution".to_vec()]
    );
    let reversed = retarget_phi_incoming(&incoming, &b"body".to_vec(), &b"body_execution".to_vec(), true);
    assert_eq!(
        reversed,
        vec![b"body".to_vec(), b"body_execution".to_vec(), b"body".to_vec()]
    );
}

#[test]
fn runtime_abi_schema_names_and_arities() {
    let schema = runtime_abi_schema();
    assert_eq!(schema.len(), 13);
    assert_eq!(schema[0].symbol, "executable_from_quil");
    assert_eq!(schema[0].params.len(), 1);
    assert_eq!(schema[1].symbol, "execute_on_qpu");
    assert_eq!(schema[1].params.len(), 2);
    assert_eq!(schema[5].symbol, "set_param");
    assert_eq!(schema[5].params.len(), 4);
    assert_eq!(schema[7].symbol, "get_readout_bit");
    assert_eq!(schema[7].params.len(), 3);
    assert_eq!(schema[12].symbol, "free_executable_cache");
}

#[test]
fn unitary_patch_runs_once_without_shots() {
    let block = QirBlock {
        name: b"entry".to_vec(),
        instructions: vec![
            call(10, "__quantum__qis__h__body", vec![qubit(0)]),
            call(11, "__quantum__qis__mz__body", vec![qubit(0), result_ptr(0)]),
            QirInstruction::Ret,
        ],
    };
    let module = QirModule { functions: vec![entry_function(vec![block])] };
    let plan = patch_unitary_qir_with_qcs(options(None, false), &module).unwrap();
    assert_eq!(plan.block_patches.len(), 1);
    let patch = &plan.block_patches[0];
    assert_eq!(patch.block_name, b"entry".to_vec());
    assert_eq!(patch.instructions_to_remove, vec![10, 11]);
    assert_eq!(patch.execution_calls.len(), 3);
    match &patch.execution_calls[0] {
        AbiCall::ExecutableFromQuil { program_text } => {
            assert_eq!(program_text, "H 0\nMEASURE 0 ro[0]\nDECLARE ro BIT[1]\n");
        },
        _ => panic!("expected the program to be built from its text"),
    }
    assert!(matches!(patch.execution_calls[1], AbiCall::ExecuteOnQvm));
    assert!(matches!(patch.execution_calls[2], AbiCall::PanicOnFailure));
    assert_eq!(plan.cached_programs.len(), 0);
}

#[test]
fn unitary_patch_caches_by_slot() {
    let block = QirBlock {
        name: b"entry".to_vec(),
        instructions: vec![
            call(10, "__quantum__qis__x__body", vec![qubit(0)]),
            QirInstruction::Ret,
        ],
    };
    let module = QirModule { functions: vec![entry_function(vec![block])] };
    let plan = patch_unitary_qir_with_qcs(options(None, true), &module).unwrap();
    assert_eq!(plan.cached_programs, vec!["X 0\nDECLARE ro BIT[0]\n".to_string()]);
    assert!(matches!(
        plan.block_patches[0].execution_calls[0],
        AbiCall::GetCachedExecutable { cache_index: 0 }
    ));
}

#[test]
fn unitary_patch_rejects_classical_blocks() {
    let block = QirBlock {
        name: b"entry".to_vec(),
        instructions: vec![
            QirInstruction::Other { id: 10 },
            QirInstruction::Ret,
        ],
    };
    let module = QirModule { functions: vec![entry_function(vec![block])] };
    assert!(matches!(
        patch_unitary_qir_with_qcs(options(None, false), &module),
        Err(TranspileError::ForbiddenClassicalInstruction)
    ));
}
