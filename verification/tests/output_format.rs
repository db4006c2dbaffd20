use qcs_sdk_qir::output::{try_format, DebugOutputFormat, Error, RegisterData};
use qcs_sdk_qir::RecordedOutput;

#[test]
fn test_execution_result_debug_output() {
    const EXPECTED_OUTPUT: &str = r"
[shot:1 start]
[shot:1 result 1]
[shot:1 result 2]
[shot:1 result 3]
[shot:1 end]
[shot:2 start]
[shot:2 result 10]
[shot:2 result 20]
[shot:2 result 30]
[shot:2 end]
[shot:3 start]
[shot:3 result 11]
[shot:3 result 22]
[shot:3 result 33]
[shot:3 end]
";

    let execution_result =
        RegisterData::I8(vec![vec![1, 2, 3], vec![10, 20, 30], vec![11, 22, 33]]);
    let mapping = [
        RecordedOutput::ShotStart,
        RecordedOutput::ResultReadoutOffset(0),
        RecordedOutput::ResultReadoutOffset(1),
        RecordedOutput::ResultReadoutOffset(2),
        RecordedOutput::ShotEnd,
    ];

    let output = DebugOutputFormat::try_new(&execution_result, &mapping).unwrap();
    assert_eq!(output.0.len(), 15);

    assert_eq!(
        try_format(&execution_result, &mapping).unwrap(),
        EXPECTED_OUTPUT.trim()
    );
}

#[test]
fn test_out_of_range_debug_output() {
    // use misaligned result data with mapping data to trigger `NoShotDataAtIndex` error
    let execution_result = RegisterData::I8(vec![vec![1, 2, 3], vec![10, 20]]);
    let mapping = [
        RecordedOutput::ShotStart,
        RecordedOutput::ResultReadoutOffset(0),
        RecordedOutput::ResultReadoutOffset(1),
        RecordedOutput::ResultReadoutOffset(2),
        RecordedOutput::ShotEnd,
    ];

    let try_output = DebugOutputFormat::try_new(&execution_result, &mapping);
    if let Some(Error::NoShotDataAtIndex(shot_id, index)) = try_output.err() {
        assert_eq!(shot_id, 2);
        assert_eq!(index, 2);
    } else {
        panic!();
    }
}

#[test]
fn shot_end_cuts_the_schedule_short() {
    let execution_result = RegisterData::I8(vec![vec![1]]);
    let mapping = [
        RecordedOutput::ShotStart,
        RecordedOutput::ShotEnd,
        RecordedOutput::ResultReadoutOffset(9),
    ];
    let text = try_format(&execution_result, &mapping).unwrap();
    assert_eq!(text, "[shot:1 start]\n[shot:1 end]");
}

#[test]
fn grouping_events_are_printed() {
    let execution_result = RegisterData::I8(vec![vec![0, 1]]);
    let mapping = [
        RecordedOutput::TupleStart,
        RecordedOutput::ResultReadoutOffset(1),
        RecordedOutput::TupleEnd,
        RecordedOutput::ArrayStart,
        RecordedOutput::ArrayEnd,
    ];
    let text = try_format(&execution_result, &mapping).unwrap();
    assert_eq!(
        text,
        "[shot:1 tuple_start]\n[shot:1 result 1]\n[shot:1 tuple_end]\n[shot:1 array_start]\n[shot:1 array_end]"
    );
}

#[test]
fn negative_readout_values_are_printed_signed() {
    let execution_result = RegisterData::I8(vec![vec![-128, -1]]);
    let mapping = [
        RecordedOutput::ResultReadoutOffset(0),
        RecordedOutput::ResultReadoutOffset(1),
    ];
    let text = try_format(&execution_result, &mapping).unwrap();
    assert_eq!(text, "[shot:1 result -128]\n[shot:1 result -1]");
}

#[test]
fn unimplemented_record_kind_is_reported() {
    let execution_result = RegisterData::I8(vec![vec![0]]);
    let mapping = [RecordedOutput::BoolReadoutOffset(3)];
    match try_format(&execution_result, &mapping) {
        Err(Error::UnimplementedRecordType(s)) => assert_eq!(s, "BoolReadoutOffset(3)"),
        _ => panic!(),
    }
}

#[test]
fn unsupported_register_kind_is_reported() {
    let execution_result = RegisterData::Unsupported("F64([[1.0]])".to_string());
    let mapping = [RecordedOutput::ShotStart];
    match try_format(&execution_result, &mapping) {
        Err(Error::UnimplementedResultType(s)) => assert_eq!(s, "F64([[1.0]])"),
        _ => panic!(),
    }
}

#[test]
fn empty_results_format_to_nothing() {
    let execution_result = RegisterData::I8(vec![]);
    let mapping = [RecordedOutput::ShotStart];
    assert_eq!(try_format(&execution_result, &mapping).unwrap(), "");
}
