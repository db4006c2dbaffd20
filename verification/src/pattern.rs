//! The accumulating state shared by the two pattern matchers, and the
//! translation of one recognized intrinsic call into it.
//!
//! The state collects the Quil body in encounter order, the output-recording
//! schedule, the calls consumed so far, the readout-buffer assignment of the
//! measured result indices (dense, in first-seen order), and the parameter
//! slots of the non-constant gate parameters (stable: a value's second
//! appearance reuses its slot).

use vstd::prelude::*;
use vstd::string::StringSliceAdditionalSpecFns;

use crate::bytes::bytes_eq_str;
use crate::decode::{decode_operands, qis_function_arguments, QirOperand, QirOperandView};
use crate::error::{TranspileError, TranspileErrorView};
use crate::names::{parse_qis_name, parse_record_name, qis_name_of, record_name_of};
use crate::qir::{DoubleWord, DoubleWordView, RawOperand, RawOperandView};
use crate::quil::{GateName, QuilInstruction, QuilInstructionView, QuilParameter,
    QuilParameterView};
use crate::RecordedOutput;

verus! {

/// State accumulated while a block's instructions are scanned.
pub struct PatternMatchState {
    /// The Quil gates and measurements, in encounter order.
    pub quil_body: Vec<QuilInstruction>,
    /// The output-recording schedule.
    pub recorded_output: Vec<RecordedOutput>,
    /// Ids of the consumed intrinsic calls, for later deletion.
    pub instructions_to_remove: Vec<u64>,
    /// The measured QIR result indices in first-seen order; a result's
    /// position here is its offset in the `ro` region.
    pub read_result_order: Vec<u64>,
    /// Pairings of an `ro` offset with the id of the `read_result` call
    /// that reads it, for later replacement.
    pub readout_instruction_mapping: Vec<(u64, u64)>,
    /// The keys of the non-constant gate parameters in first-seen order; a
    /// key's position here is its slot in the `__qir_param` region.
    pub parameters: Vec<u64>,
    /// Whether a `reset` intrinsic was seen.
    pub use_active_reset: bool,
}

/// Spec-level mirror of [`PatternMatchState`].
#[verifier::ext_equal]
pub ghost struct PatternMatchStateView {
    pub quil_body: Seq<QuilInstructionView>,
    pub recorded_output: Seq<RecordedOutput>,
    pub instructions_to_remove: Seq<u64>,
    pub read_result_order: Seq<u64>,
    pub readout_instruction_mapping: Seq<(u64, u64)>,
    pub parameters: Seq<u64>,
    pub use_active_reset: bool,
}

impl View for PatternMatchState {
    type V = PatternMatchStateView;

    open spec fn view(&self) -> PatternMatchStateView {
        PatternMatchStateView {
            quil_body: self.quil_body.deep_view(),
            recorded_output: self.recorded_output@,
            instructions_to_remove: self.instructions_to_remove@,
            read_result_order: self.read_result_order@,
            readout_instruction_mapping: self.readout_instruction_mapping@,
            parameters: self.parameters@,
            use_active_reset: self.use_active_reset,
        }
    }
}

impl PatternMatchState {
    /// A state with nothing accumulated.
    pub fn new() -> (r: Self)
        ensures
            r@ == empty_state(),
    {
        let r = PatternMatchState {
            quil_body: Vec::new(),
            recorded_output: Vec::new(),
            instructions_to_remove: Vec::new(),
            read_result_order: Vec::new(),
            readout_instruction_mapping: Vec::new(),
            parameters: Vec::new(),
            use_active_reset: false,
        };
        proof {
            assert(r@ =~= empty_state());
        }
        r
    }
}

/// The state in which a scan starts.
pub open spec fn empty_state() -> PatternMatchStateView {
    PatternMatchStateView {
        quil_body: Seq::<QuilInstructionView>::empty(),
        recorded_output: Seq::<RecordedOutput>::empty(),
        instructions_to_remove: Seq::<u64>::empty(),
        read_result_order: Seq::<u64>::empty(),
        readout_instruction_mapping: Seq::<(u64, u64)>::empty(),
        parameters: Seq::<u64>::empty(),
        use_active_reset: false,
    }
}

/// Index of the first occurrence of `v` in `s` (`s.len()` when absent).
pub open spec fn first_index_of(s: Seq<u64>, v: u64) -> int
    decreases s.len(),
{
    if s.len() == 0 {
        0
    } else if s[0] == v {
        0
    } else {
        1 + first_index_of(s.skip(1), v)
    }
}

pub proof fn lemma_first_index_of(s: Seq<u64>, v: u64)
    ensures
        0 <= first_index_of(s, v) <= s.len(),
        first_index_of(s, v) < s.len() ==> s[first_index_of(s, v)] == v,
        forall|j: int| 0 <= j < first_index_of(s, v) ==> s[j] != v,
        s.contains(v) <==> first_index_of(s, v) < s.len(),
    decreases s.len(),
{
    if s.len() == 0 {
    } else if s[0] == v {
        assert(s.contains(v));
    } else {
        lemma_first_index_of(s.skip(1), v);
        let n = first_index_of(s, v);
        assert forall|j: int| 0 <= j < n implies s[j] != v by {
            if j > 0 {
                assert(s.skip(1)[j - 1] != v);
            }
        }
        if n < s.len() {
            assert(s[n] == s.skip(1)[n - 1]);
            assert(s.contains(v));
        } else {
            if s.contains(v) {
                let w = choose|j: int| 0 <= j < s.len() && s[j] == v;
                if w > 0 {
                    assert(s.skip(1)[w - 1] == v);
                    assert(s.skip(1).contains(v));
                }
            }
        }
    }
}

/// Find the first occurrence of `v` in a vector.
pub fn index_of_u64(s: &Vec<u64>, v: u64) -> (r: Option<usize>)
    ensures
        match r {
            Some(i) => s@.contains(v) && i == first_index_of(s@, v),
            None => !s@.contains(v),
        },
{
    proof {
        lemma_first_index_of(s@, v);
    }
    let mut i: usize = 0;
    while i < s.len()
        invariant
            i <= s@.len(),
            forall|j: int| 0 <= j < i ==> s@[j] != v,
            0 <= first_index_of(s@, v) <= s@.len(),
            first_index_of(s@, v) < s@.len() ==> s@[first_index_of(s@, v)] == v,
            forall|j: int| 0 <= j < first_index_of(s@, v) ==> s@[j] != v,
            s@.contains(v) <==> first_index_of(s@, v) < s@.len(),
        decreases s@.len() - i,
    {
        if s[i] == v {
            assert(s@.contains(v));
            return Some(i);
        }
        i += 1;
    }
    assert(!s@.contains(v)) by {
        if s@.contains(v) {
            assert(s@[first_index_of(s@, v)] == v);
        }
    }
    None
}

/// The parameter expression for a gate's double operand, and the parameter
/// slots afterwards: a constant is inlined and consumes no slot; a
/// non-constant value reuses its slot when it has one, else takes the next.
pub open spec fn param_of(params: Seq<u64>, d: DoubleWordView) -> (QuilParameterView, Seq<u64>) {
    match d.constant {
        Some(t) => (QuilParameterView::Literal(t), params),
        None => if params.contains(d.key) {
            (QuilParameterView::Slot(first_index_of(params, d.key) as u64), params)
        } else {
            (QuilParameterView::Slot(params.len() as u64), params.push(d.key))
        },
    }
}

/// The `ro` offset assigned to a result index, and the first-seen order
/// afterwards: a known index keeps its offset, a new one takes the next.
pub open spec fn ro_offset_of(order: Seq<u64>, r: u64) -> (int, Seq<u64>) {
    if order.contains(r) {
        (first_index_of(order, r), order)
    } else {
        (order.len() as int, order.push(r))
    }
}

/// Translate a gate's double operand into its Quil parameter expression,
/// updating the slot assignment.
pub fn quil_parameter_of(params: &mut Vec<u64>, d: &DoubleWord) -> (r: QuilParameter)
    ensures
        (r@, final(params)@) == param_of(old(params)@, d@),
{
    match &d.constant {
        Some(t) => QuilParameter::Literal(t.clone()),
        None => {
            match index_of_u64(params, d.key) {
                Some(i) => QuilParameter::Slot(i as u64),
                None => {
                    let slot = params.len();
                    params.push(d.key);
                    QuilParameter::Slot(slot as u64)
                },
            }
        },
    }
}

/// The `ro` offset for a result index, inserting a fresh one when absent.
pub fn ro_offset_insert(order: &mut Vec<u64>, r: u64) -> (k: u64)
    ensures
        (k as int, final(order)@) == ro_offset_of(old(order)@, r),
{
    match index_of_u64(order, r) {
        Some(i) => i as u64,
        None => {
            let k = order.len();
            order.push(r);
            k as u64
        },
    }
}

/// The dispatch table of gate operations: the Quil gate emitted for an
/// operation name, with how many parameters and qubits it takes.
pub open spec fn gate_table(op: Seq<u8>) -> Option<(GateName, int, int)> {
    if op == "h".spec_bytes() {
        Some((GateName::H, 0int, 1int))
    } else if op == "x".spec_bytes() {
        Some((GateName::X, 0int, 1int))
    } else if op == "y".spec_bytes() {
        Some((GateName::Y, 0int, 1int))
    } else if op == "z".spec_bytes() {
        Some((GateName::Z, 0int, 1int))
    } else if op == "s".spec_bytes() {
        Some((GateName::S, 0int, 1int))
    } else if op == "t".spec_bytes() {
        Some((GateName::T, 0int, 1int))
    } else if op == "rx".spec_bytes() {
        Some((GateName::Rx, 1int, 1int))
    } else if op == "ry".spec_bytes() {
        Some((GateName::Ry, 1int, 1int))
    } else if op == "rz".spec_bytes() {
        Some((GateName::Rz, 1int, 1int))
    } else if op == "cnot".spec_bytes() {
        Some((GateName::Cnot, 0int, 2int))
    } else if op == "cz".spec_bytes() {
        Some((GateName::Cz, 0int, 2int))
    } else if op == "swap".spec_bytes() {
        Some((GateName::Swap, 0int, 2int))
    } else if op == "toffoli".spec_bytes() {
        Some((GateName::Ccnot, 0int, 3int))
    } else {
        None
    }
}

/// Look an operation name up in the dispatch table.
pub fn gate_table_lookup(op: &Vec<u8>) -> (r: Option<(GateName, usize, usize)>)
    ensures
        match r {
            Some((g, pc, qc)) => gate_table(op@) == Some((g, pc as int, qc as int)),
            None => gate_table(op@) is None,
        },
{
    let o = op.as_slice();
    if bytes_eq_str(o, "h") {
        Some((GateName::H, 0, 1))
    } else if bytes_eq_str(o, "x") {
        Some((GateName::X, 0, 1))
    } else if bytes_eq_str(o, "y") {
        Some((GateName::Y, 0, 1))
    } else if bytes_eq_str(o, "z") {
        Some((GateName::Z, 0, 1))
    } else if bytes_eq_str(o, "s") {
        Some((GateName::S, 0, 1))
    } else if bytes_eq_str(o, "t") {
        Some((GateName::T, 0, 1))
    } else if bytes_eq_str(o, "rx") {
        Some((GateName::Rx, 1, 1))
    } else if bytes_eq_str(o, "ry") {
        Some((GateName::Ry, 1, 1))
    } else if bytes_eq_str(o, "rz") {
        Some((GateName::Rz, 1, 1))
    } else if bytes_eq_str(o, "cnot") {
        Some((GateName::Cnot, 0, 2))
    } else if bytes_eq_str(o, "cz") {
        Some((GateName::Cz, 0, 2))
    } else if bytes_eq_str(o, "swap") {
        Some((GateName::Swap, 0, 2))
    } else if bytes_eq_str(o, "toffoli") {
        Some((GateName::Ccnot, 0, 3))
    } else {
        None
    }
}

/// The name of the readout intrinsic, which the recognizer checks on its own.
pub open spec fn read_result_name() -> Seq<u8> {
    "__quantum__qis__read_result__body".spec_bytes()
}

/// Outcome of offering one instruction to a matcher step.
pub ghost enum StepView {
    /// The step does not apply; the instruction is left in place.
    NotMatched,
    /// The instruction was consumed, leaving this state.
    Matched(PatternMatchStateView),
    /// The instruction was recognized but malformed.
    Failed(TranspileErrorView),
}

/// The parameter expressions collected from `args[i..pc]`, with the slot
/// assignment threaded through; `None` when an argument is missing or not a
/// double.
pub open spec fn gate_params_from(
    args: Seq<QirOperandView>,
    i: int,
    pc: int,
    params: Seq<u64>,
    acc: Seq<QuilParameterView>,
) -> Option<(Seq<QuilParameterView>, Seq<u64>)>
    decreases pc - i,
{
    if i >= pc {
        Some((acc, params))
    } else if i >= args.len() {
        None
    } else {
        match args[i] {
            QirOperandView::ParameterArg(d) => {
                let (e, p1) = param_of(params, d);
                gate_params_from(args, i + 1, pc, p1, acc.push(e))
            },
            _ => None,
        }
    }
}

/// The qubit indices collected from `args[i..end]`; `None` when an argument
/// is missing or not a qubit.
pub open spec fn gate_qubits_from(
    args: Seq<QirOperandView>,
    i: int,
    end: int,
    acc: Seq<u64>,
) -> Option<Seq<u64>>
    decreases end - i,
{
    if i >= end {
        Some(acc)
    } else if i >= args.len() {
        None
    } else {
        match args[i] {
            QirOperandView::QubitArg(q) => gate_qubits_from(args, i + 1, end, acc.push(q)),
            _ => None,
        }
    }
}

/// Consume a recognized gate intrinsic: classify its arguments and append
/// the corresponding Quil instruction.
pub open spec fn gate_step(
    st: PatternMatchStateView,
    id: u64,
    g: GateName,
    pc: int,
    qc: int,
    controlled: bool,
    adjoint: bool,
    args: Seq<QirOperandView>,
) -> StepView {
    match gate_params_from(args, 0, pc, st.parameters, Seq::<QuilParameterView>::empty()) {
        None => StepView::Failed(TranspileErrorView::MalformedIntrinsic),
        Some((ps, params2)) => match gate_qubits_from(args, pc, pc + qc, Seq::<u64>::empty()) {
            None => StepView::Failed(TranspileErrorView::MalformedIntrinsic),
            Some(qs) => StepView::Matched(
                PatternMatchStateView {
                    quil_body: st.quil_body.push(
                        QuilInstructionView::Gate {
                            name: g,
                            parameters: ps,
                            qubits: qs,
                            dagger: adjoint,
                            controlled: controlled,
                        },
                    ),
                    recorded_output: st.recorded_output,
                    instructions_to_remove: st.instructions_to_remove.push(id),
                    read_result_order: st.read_result_order,
                    readout_instruction_mapping: st.readout_instruction_mapping,
                    parameters: params2,
                    use_active_reset: st.use_active_reset,
                },
            ),
        },
    }
}

/// Consume a measurement intrinsic: assign the result index its dense `ro`
/// offset (keeping the first-seen order) and append `MEASURE`.
pub open spec fn mz_step(
    st: PatternMatchStateView,
    id: u64,
    args: Seq<QirOperandView>,
) -> StepView {
    if args.len() >= 1 && args[0] is QubitArg {
        if args.len() >= 2 && args[1] is ResultArg {
            let q = args[0]->QubitArg_0;
            let r = args[1]->ResultArg_0;
            let (k, order) = ro_offset_of(st.read_result_order, r);
            StepView::Matched(
                PatternMatchStateView {
                    quil_body: st.quil_body.push(
                        QuilInstructionView::Measure { qubit: q, ro_offset: k as u64 },
                    ),
                    recorded_output: st.recorded_output,
                    instructions_to_remove: st.instructions_to_remove.push(id),
                    read_result_order: order,
                    readout_instruction_mapping: st.readout_instruction_mapping,
                    parameters: st.parameters,
                    use_active_reset: st.use_active_reset,
                },
            )
        } else {
            StepView::Failed(TranspileErrorView::MalformedIntrinsic)
        }
    } else {
        StepView::Failed(TranspileErrorView::MalformedIntrinsic)
    }
}

/// Consume a `read_result` call: pair the result's `ro` offset with the
/// call's id for later replacement. Reading a result that was never
/// measured is an error here.
pub open spec fn read_result_step(
    st: PatternMatchStateView,
    id: u64,
    rawops: Seq<RawOperandView>,
) -> StepView {
    match decode_operands(rawops) {
        None => StepView::Failed(TranspileErrorView::MalformedIntrinsic),
        Some(args) => if args.len() >= 1 && args[0] is ResultArg {
            let r = args[0]->ResultArg_0;
            if st.read_result_order.contains(r) {
                StepView::Matched(
                    PatternMatchStateView {
                        quil_body: st.quil_body,
                        recorded_output: st.recorded_output,
                        instructions_to_remove: st.instructions_to_remove.push(id),
                        read_result_order: st.read_result_order,
                        readout_instruction_mapping: st.readout_instruction_mapping.push(
                            (first_index_of(st.read_result_order, r) as u64, id),
                        ),
                        parameters: st.parameters,
                        use_active_reset: st.use_active_reset,
                    },
                )
            } else {
                StepView::Failed(TranspileErrorView::UnmeasuredResultRead(r))
            }
        } else {
            StepView::Failed(TranspileErrorView::MalformedIntrinsic)
        },
    }
}

/// Consume the state changes of a `reset` intrinsic: request an active
/// reset of all qubits.
pub open spec fn reset_step(st: PatternMatchStateView, id: u64) -> StepView {
    StepView::Matched(
        PatternMatchStateView {
            quil_body: st.quil_body,
            recorded_output: st.recorded_output,
            instructions_to_remove: st.instructions_to_remove.push(id),
            read_result_order: st.read_result_order,
            readout_instruction_mapping: st.readout_instruction_mapping,
            parameters: st.parameters,
            use_active_reset: true,
        },
    )
}

/// Offer a call to the quantum-instruction recognizer: how the state
/// changes when the callee is a QIS intrinsic, or that it is not one.
#[verifier::opaque]
pub open spec fn qis_step(
    st: PatternMatchStateView,
    id: u64,
    callee: Seq<u8>,
    rawops: Seq<RawOperandView>,
) -> StepView {
    match parse_qis_name(callee) {
        Some(q) => match decode_operands(rawops) {
            None => StepView::Failed(TranspileErrorView::MalformedIntrinsic),
            Some(args) => if q.op == "reset".spec_bytes() {
                reset_step(st, id)
            } else if q.op == "mz".spec_bytes() {
                mz_step(st, id, args)
            } else {
                match gate_table(q.op) {
                    Some((g, pc, qc)) => gate_step(
                        st,
                        id,
                        g,
                        pc,
                        qc,
                        q.controlled,
                        q.adjoint,
                        args,
                    ),
                    None => StepView::NotMatched,
                }
            },
        },
        None => if callee == read_result_name() {
            read_result_step(st, id, rawops)
        } else {
            StepView::NotMatched
        },
    }
}

/// Append one recorded-output event and consume the call.
pub open spec fn record_event_step(
    st: PatternMatchStateView,
    id: u64,
    ev: RecordedOutput,
) -> StepView {
    StepView::Matched(
        PatternMatchStateView {
            quil_body: st.quil_body,
            recorded_output: st.recorded_output.push(ev),
            instructions_to_remove: st.instructions_to_remove.push(id),
            read_result_order: st.read_result_order,
            readout_instruction_mapping: st.readout_instruction_mapping,
            parameters: st.parameters,
            use_active_reset: st.use_active_reset,
        },
    )
}

/// Consume a `result` record-output call: the result's `ro` offset (a fresh
/// one when it was never measured — such a readout always records 0) is
/// appended to the schedule.
pub open spec fn record_result_step(
    st: PatternMatchStateView,
    id: u64,
    rawops: Seq<RawOperandView>,
) -> StepView {
    match decode_operands(rawops) {
        None => StepView::Failed(TranspileErrorView::MalformedIntrinsic),
        Some(args) => if args.len() >= 1 && args[0] is ResultArg {
            let r = args[0]->ResultArg_0;
            let (k, order) = ro_offset_of(st.read_result_order, r);
            StepView::Matched(
                PatternMatchStateView {
                    quil_body: st.quil_body,
                    recorded_output: st.recorded_output.push(
                        RecordedOutput::ResultReadoutOffset(k as u64),
                    ),
                    instructions_to_remove: st.instructions_to_remove.push(id),
                    read_result_order: order,
                    readout_instruction_mapping: st.readout_instruction_mapping,
                    parameters: st.parameters,
                    use_active_reset: st.use_active_reset,
                },
            )
        } else {
            StepView::Failed(TranspileErrorView::MalformedIntrinsic)
        },
    }
}

/// Offer a call to the record-output recognizer: how the state changes when
/// the callee is a `__quantum__rt__*_record_output` intrinsic.
#[verifier::opaque]
pub open spec fn rt_record_step(
    st: PatternMatchStateView,
    id: u64,
    callee: Seq<u8>,
    rawops: Seq<RawOperandView>,
) -> StepView {
    match parse_record_name(callee) {
        None => StepView::NotMatched,
        Some(kind) => if kind == "result".spec_bytes() {
            record_result_step(st, id, rawops)
        } else if kind == "bool".spec_bytes() || kind == "integer".spec_bytes() || kind
            == "double".spec_bytes() {
            StepView::Failed(TranspileErrorView::UnimplementedRecordType(kind))
        } else if kind == "tuple_start".spec_bytes() {
            record_event_step(st, id, RecordedOutput::TupleStart)
        } else if kind == "tuple_end".spec_bytes() {
            record_event_step(st, id, RecordedOutput::TupleEnd)
        } else if kind == "array_start".spec_bytes() {
            record_event_step(st, id, RecordedOutput::ArrayStart)
        } else if kind == "array_end".spec_bytes() {
            record_event_step(st, id, RecordedOutput::ArrayEnd)
        } else {
            StepView::NotMatched
        },
    }
}

/// Outcome of offering one instruction to a matcher step.
pub enum MatchOutcome {
    Matched,
    NotMatched,
}

/// Collect the first `pc` arguments as gate parameters, updating the slot
/// assignment in place.
fn collect_gate_params(
    parameters: &mut Vec<u64>,
    args: &Vec<QirOperand>,
    pc: usize,
) -> (r: Option<Vec<QuilParameter>>)
    ensures
        match r {
            Some(ps) => gate_params_from(
                args.deep_view(),
                0,
                pc as int,
                old(parameters)@,
                Seq::<QuilParameterView>::empty(),
            ) == Some((ps.deep_view(), final(parameters)@)),
            None => gate_params_from(
                args.deep_view(),
                0,
                pc as int,
                old(parameters)@,
                Seq::<QuilParameterView>::empty(),
            ) is None,
        },
{
    let mut out: Vec<QuilParameter> = Vec::new();
    let mut i: usize = 0;
    proof {
        assert(out.deep_view() =~= Seq::<QuilParameterView>::empty());
    }
    while i < pc
        invariant
            i <= pc,
            gate_params_from(
                args.deep_view(),
                0,
                pc as int,
                old(parameters)@,
                Seq::<QuilParameterView>::empty(),
            ) == gate_params_from(
                args.deep_view(),
                i as int,
                pc as int,
                parameters@,
                out.deep_view(),
            ),
        decreases pc - i,
    {
        if i >= args.len() {
            return None;
        }
        match &args[i] {
            QirOperand::ParameterArg(d) => {
                let ghost prev = out.deep_view();
                let e = quil_parameter_of(parameters, d);
                let ghost ev = e@;
                out.push(e);
                proof {
                    assert(args.deep_view()[i as int] == args@[i as int]@);
                    assert(out.deep_view() =~= prev.push(ev));
                }
            },
            _ => {
                proof {
                    assert(args.deep_view()[i as int] == args@[i as int]@);
                }
                return None;
            },
        }
        i += 1;
    }
    Some(out)
}

/// Collect the arguments `args[pc..pc+qc]` as qubit indices.
fn collect_gate_qubits(args: &Vec<QirOperand>, pc: usize, qc: usize) -> (r: Option<Vec<u64>>)
    requires
        pc + qc <= usize::MAX,
    ensures
        match r {
            Some(qs) => gate_qubits_from(
                args.deep_view(),
                pc as int,
                pc + qc,
                Seq::<u64>::empty(),
            ) == Some(qs@),
            None => gate_qubits_from(args.deep_view(), pc as int, pc + qc, Seq::<u64>::empty())
                is None,
        },
{
    let mut out: Vec<u64> = Vec::new();
    let mut i: usize = pc;
    let end = pc + qc;
    proof {
        assert(out@ =~= Seq::<u64>::empty());
    }
    while i < end
        invariant
            pc <= i <= end,
            end == pc + qc,
            gate_qubits_from(args.deep_view(), pc as int, end as int, Seq::<u64>::empty())
                == gate_qubits_from(args.deep_view(), i as int, end as int, out@),
        decreases end - i,
    {
        if i >= args.len() {
            return None;
        }
        match &args[i] {
            QirOperand::QubitArg(q) => {
                out.push(*q);
                proof {
                    assert(args.deep_view()[i as int] == args@[i as int]@);
                }
            },
            _ => {
                proof {
                    assert(args.deep_view()[i as int] == args@[i as int]@);
                }
                return None;
            },
        }
        i += 1;
    }
    Some(out)
}

/// Translate a recognized gate intrinsic and append it to the state.
fn add_gate_instruction(
    st: &mut PatternMatchState,
    id: u64,
    g: GateName,
    pc: usize,
    qc: usize,
    controlled: bool,
    adjoint: bool,
    args: &Vec<QirOperand>,
) -> (r: Result<(), TranspileError>)
    requires
        pc + qc <= usize::MAX,
    ensures
        match r {
            Ok(()) => gate_step(
                old(st)@,
                id,
                g,
                pc as int,
                qc as int,
                controlled,
                adjoint,
                args.deep_view(),
            ) == StepView::Matched(final(st)@),
            Err(e) => gate_step(
                old(st)@,
                id,
                g,
                pc as int,
                qc as int,
                controlled,
                adjoint,
                args.deep_view(),
            ) == StepView::Failed(e@) && final(st)@ == old(st)@,
        },
{
    let ghost st0 = st@;
    let mut new_params = crate::bytes::clone_u64s(&st.parameters);
    let ps = match collect_gate_params(&mut new_params, args, pc) {
        Some(ps) => ps,
        None => {
            return Err(TranspileError::MalformedIntrinsic);
        },
    };
    let qs = match collect_gate_qubits(args, pc, qc) {
        Some(qs) => qs,
        None => {
            return Err(TranspileError::MalformedIntrinsic);
        },
    };
    st.parameters = new_params;
    let ghost psv = ps.deep_view();
    let ghost qsv = qs@;
    let ghost body0 = st.quil_body.deep_view();
    st.quil_body.push(
        QuilInstruction::Gate { name: g, parameters: ps, qubits: qs, dagger: adjoint, controlled },
    );
    st.instructions_to_remove.push(id);
    proof {
        assert(st.quil_body.deep_view() =~= body0.push(
            QuilInstructionView::Gate {
                name: g,
                parameters: psv,
                qubits: qsv,
                dagger: adjoint,
                controlled: controlled,
            },
        ));
        assert(gate_step(st0, id, g, pc as int, qc as int, controlled, adjoint, args.deep_view())
            matches StepView::Matched(m) && m =~= st@);
    }
    Ok(())
}

/// Offer a call instruction to the quantum-instruction recognizer. On a
/// match the call is consumed into the state; a recognized but malformed
/// call is an error; anything else is left for the other recognizers.
pub fn quantum_instruction(
    st: &mut PatternMatchState,
    id: u64,
    callee: &Vec<u8>,
    operands: &Vec<RawOperand>,
) -> (r: Result<MatchOutcome, TranspileError>)
    ensures
        match r {
            Ok(MatchOutcome::Matched) => qis_step(old(st)@, id, callee@, operands.deep_view())
                == StepView::Matched(final(st)@),
            Ok(MatchOutcome::NotMatched) => qis_step(old(st)@, id, callee@, operands.deep_view())
                == StepView::NotMatched && final(st)@ == old(st)@,
            Err(e) => qis_step(old(st)@, id, callee@, operands.deep_view()) == StepView::Failed(
                e@,
            ) && final(st)@ == old(st)@,
        },
{
    proof {
        reveal(qis_step);
    }
    let ghost st0 = st@;
    match qis_name_of(callee.as_slice()) {
        Some(q) => {
            let args = match qis_function_arguments(operands) {
                Some(args) => args,
                None => {
                    return Err(TranspileError::MalformedIntrinsic);
                },
            };
            if bytes_eq_str(q.op.as_slice(), "reset") {
                st.use_active_reset = true;
                st.instructions_to_remove.push(id);
                proof {
                    assert(reset_step(st0, id) matches StepView::Matched(m) && m =~= st@);
                }
                Ok(MatchOutcome::Matched)
            } else if bytes_eq_str(q.op.as_slice(), "mz") {
                if args.len() < 1 {
                    return Err(TranspileError::MalformedIntrinsic);
                }
                let qubit = match &args[0] {
                    QirOperand::QubitArg(qb) => *qb,
                    _ => {
                        proof {
                            assert(args.deep_view()[0] == args@[0]@);
                        }
                        return Err(TranspileError::MalformedIntrinsic);
                    },
                };
                if args.len() < 2 {
                    return Err(TranspileError::MalformedIntrinsic);
                }
                let result = match &args[1] {
                    QirOperand::ResultArg(rr) => *rr,
                    _ => {
                        proof {
                            assert(args.deep_view()[1] == args@[1]@);
                        }
                        return Err(TranspileError::MalformedIntrinsic);
                    },
                };
                proof {
                    assert(args.deep_view()[0] == args@[0]@);
                    assert(args.deep_view()[1] == args@[1]@);
                }
                let k = ro_offset_insert(&mut st.read_result_order, result);
                let ghost body0 = st.quil_body.deep_view();
                st.quil_body.push(QuilInstruction::Measure { qubit, ro_offset: k });
                st.instructions_to_remove.push(id);
                proof {
                    assert(st.quil_body.deep_view() =~= body0.push(
                        QuilInstructionView::Measure { qubit: qubit, ro_offset: k },
                    ));
                    assert(mz_step(st0, id, args.deep_view()) matches StepView::Matched(m) && m
                        =~= st@);
                }
                Ok(MatchOutcome::Matched)
            } else {
                match gate_table_lookup(&q.op) {
                    Some((g, pc, qc)) => {
                        add_gate_instruction(st, id, g, pc, qc, q.controlled, q.adjoint, &args)?;
                        Ok(MatchOutcome::Matched)
                    },
                    None => Ok(MatchOutcome::NotMatched),
                }
            }
        },
        None => {
            if bytes_eq_str(callee.as_slice(), "__quantum__qis__read_result__body") {
                let args = match qis_function_arguments(operands) {
                    Some(args) => args,
                    None => {
                        return Err(TranspileError::MalformedIntrinsic);
                    },
                };
                if args.len() < 1 {
                    return Err(TranspileError::MalformedIntrinsic);
                }
                let result = match &args[0] {
                    QirOperand::ResultArg(rr) => *rr,
                    _ => {
                        proof {
                            assert(args.deep_view()[0] == args@[0]@);
                        }
                        return Err(TranspileError::MalformedIntrinsic);
                    },
                };
                proof {
                    assert(args.deep_view()[0] == args@[0]@);
                }
                match index_of_u64(&st.read_result_order, result) {
                    Some(k) => {
                        st.readout_instruction_mapping.push((k as u64, id));
                        st.instructions_to_remove.push(id);
                        proof {
                            assert(read_result_step(st0, id, operands.deep_view())
                                matches StepView::Matched(m) && m =~= st@);
                        }
                        Ok(MatchOutcome::Matched)
                    },
                    None => Err(TranspileError::UnmeasuredResultRead(result)),
                }
            } else {
                Ok(MatchOutcome::NotMatched)
            }
        },
    }
}

/// Offer a call instruction to the record-output recognizer.
pub fn rt_record_instruction(
    st: &mut PatternMatchState,
    id: u64,
    callee: &Vec<u8>,
    operands: &Vec<RawOperand>,
) -> (r: Result<MatchOutcome, TranspileError>)
    ensures
        match r {
            Ok(MatchOutcome::Matched) => rt_record_step(old(st)@, id, callee@, operands.deep_view())
                == StepView::Matched(final(st)@),
            Ok(MatchOutcome::NotMatched) => rt_record_step(
                old(st)@,
                id,
                callee@,
                operands.deep_view(),
            ) == StepView::NotMatched && final(st)@ == old(st)@,
            Err(e) => rt_record_step(old(st)@, id, callee@, operands.deep_view())
                == StepView::Failed(e@) && final(st)@ == old(st)@,
        },
{
    proof {
        reveal(rt_record_step);
    }
    let ghost st0 = st@;
    let kind = match record_name_of(callee.as_slice()) {
        Some(kind) => kind,
        None => {
            return Ok(MatchOutcome::NotMatched);
        },
    };
    proof {
        assert(kind.deep_view() =~= kind@);
    }
    if bytes_eq_str(kind.as_slice(), "result") {
        let args = match qis_function_arguments(operands) {
            Some(args) => args,
            None => {
                return Err(TranspileError::MalformedIntrinsic);
            },
        };
        if args.len() < 1 {
            return Err(TranspileError::MalformedIntrinsic);
        }
        let result = match &args[0] {
            QirOperand::ResultArg(rr) => *rr,
            _ => {
                proof {
                    assert(args.deep_view()[0] == args@[0]@);
                }
                return Err(TranspileError::MalformedIntrinsic);
            },
        };
        proof {
            assert(args.deep_view()[0] == args@[0]@);
        }
        let k = ro_offset_insert(&mut st.read_result_order, result);
        st.recorded_output.push(RecordedOutput::ResultReadoutOffset(k));
        st.instructions_to_remove.push(id);
        proof {
            assert(record_result_step(st0, id, operands.deep_view())
                matches StepView::Matched(m) && m =~= st@);
        }
        Ok(MatchOutcome::Matched)
    } else if bytes_eq_str(kind.as_slice(), "bool") || bytes_eq_str(kind.as_slice(), "integer")
        || bytes_eq_str(kind.as_slice(), "double") {
        Err(TranspileError::UnimplementedRecordType(kind))
    } else if bytes_eq_str(kind.as_slice(), "tuple_start") {
        st.recorded_output.push(RecordedOutput::TupleStart);
        st.instructions_to_remove.push(id);
        proof {
            assert(record_event_step(st0, id, RecordedOutput::TupleStart)
                matches StepView::Matched(m) && m =~= st@);
        }
        Ok(MatchOutcome::Matched)
    } else if bytes_eq_str(kind.as_slice(), "tuple_end") {
        st.recorded_output.push(RecordedOutput::TupleEnd);
        st.instructions_to_remove.push(id);
        proof {
            assert(record_event_step(st0, id, RecordedOutput::TupleEnd)
                matches StepView::Matched(m) && m =~= st@);
        }
        Ok(MatchOutcome::Matched)
    } else if bytes_eq_str(kind.as_slice(), "array_start") {
        st.recorded_output.push(RecordedOutput::ArrayStart);
        st.instructions_to_remove.push(id);
        proof {
            assert(record_event_step(st0, id, RecordedOutput::ArrayStart)
                matches StepView::Matched(m) && m =~= st@);
        }
        Ok(MatchOutcome::Matched)
    } else if bytes_eq_str(kind.as_slice(), "array_end") {
        st.recorded_output.push(RecordedOutput::ArrayEnd);
        st.instructions_to_remove.push(id);
        proof {
            assert(record_event_step(st0, id, RecordedOutput::ArrayEnd)
                matches StepView::Matched(m) && m =~= st@);
        }
        Ok(MatchOutcome::Matched)
    } else {
        Ok(MatchOutcome::NotMatched)
    }
}

} // verus!
