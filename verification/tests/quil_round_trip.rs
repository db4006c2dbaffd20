//! The emitted text is valid Quil: the reference parser accepts it, and
//! printing each parsed instruction gives back the emitted line.

use std::str::FromStr;

use quil_rs::program::Program;
use quil_rs::quil::Quil;

use qcs_sdk_qir::qir::{DoubleWord, QirBlock, QirFunction, QirInstruction, QirModule, RawOperand,
    ReturnType};
use qcs_sdk_qir::transpile_unitary_qir_to_quil;

fn qubit(i: u64) -> RawOperand {
    RawOperand::StructPointer { struct_name: b"Qubit".to_vec(), address: Some(i) }
}

fn result_ptr(i: u64) -> RawOperand {
    RawOperand::StructPointer { struct_name: b"Result".to_vec(), address: Some(i) }
}

fn call(id: u64, name: &str, operands: Vec<RawOperand>) -> QirInstruction {
    QirInstruction::Call { id, callee: Some(name.as_bytes().to_vec()), operands }
}

fn emitted_bell_text() -> String {
    let block = QirBlock {
        name: b"entry".to_vec(),
        instructions: vec![
            call(10, "__quantum__qis__h__body", vec![qubit(0)]),
            call(11, "__quantum__qis__cnot__body", vec![qubit(0), qubit(1)]),
            call(
                12,
                "__quantum__qis__rx__body",
                vec![
                    RawOperand::DoubleOperand(DoubleWord {
                        key: 5,
                        constant: Some("3.14159".to_string()),
                    }),
                    qubit(0),
                ],
            ),
            call(
                13,
                "__quantum__qis__rz__body",
                vec![RawOperand::DoubleOperand(DoubleWord { key: 6, constant: None }), qubit(1)],
            ),
            call(14, "__quantum__qis__mz__body", vec![qubit(0), result_ptr(0)]),
            call(15, "__quantum__qis__mz__body", vec![qubit(1), result_ptr(1)]),
            QirInstruction::Ret,
        ],
    };
    let module = QirModule {
        functions: vec![QirFunction {
            name: b"QuantumApplication__Run__body".to_vec(),
            has_entry_point_attribute: true,
            param_types: vec![],
            return_type: ReturnType::I64,
            is_var_arg: false,
            blocks: vec![block],
        }],
    };
    transpile_unitary_qir_to_quil(&module).unwrap().program.to_quil_text()
}

#[test]
fn emitted_program_parses_as_quil() {
    let text = emitted_bell_text();
    let program = Program::from_str(&text).expect("the emitted text must be valid Quil");
    assert_eq!(program.to_instructions().len(), text.lines().count());
}

#[test]
fn each_emitted_line_round_trips_through_the_parser() {
    let text = emitted_bell_text();
    for line in text.lines() {
        let program = Program::from_str(line).expect("each emitted line must be valid Quil");
        let instructions = program.to_instructions();
        assert_eq!(instructions.len(), 1);
        assert_eq!(instructions[0].to_quil().unwrap(), line);
    }
}

#[test]
fn constant_literal_matches_reference_rendering() {
    // The reference library prints the number 3.14159 exactly as the model
    // carries it, so the inlined literal agrees with quil_rs output.
    let expr = quil_rs::expression::Expression::Number(3.14159f64.into());
    assert_eq!(expr.to_quil().unwrap(), "3.14159");
    assert!(emitted_bell_text().contains("RX(3.14159) 0"));
}
