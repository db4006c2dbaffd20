//! Recognition of the unitary pattern: a single basic block of quantum and
//! record-output intrinsics only, terminated by a plain return, in a
//! nullary entry function returning `i64` or (as a legacy form) void.

use vstd::prelude::*;

use crate::error::{TranspileError, TranspileErrorView};
use crate::pattern::{empty_state, qis_step, rt_record_step, quantum_instruction,
    rt_record_instruction, MatchOutcome, PatternMatchState, PatternMatchStateView, StepView};
use crate::qir::{QirBlock, QirFunction, QirFunctionView, QirInstruction, QirInstructionView,
    QirModule, ReturnType};
use crate::quil::QuilInstructionView;
use crate::shot_count::emitted_program;
use crate::RecordedOutput;

verus! {

/// What a scan of a unitary block accumulates.
pub struct UnitaryPatternMatchContext {
    /// The shared accumulating state.
    pub state: PatternMatchState,
}

impl View for UnitaryPatternMatchContext {
    type V = PatternMatchStateView;

    open spec fn view(&self) -> PatternMatchStateView {
        self.state@
    }
}

/// One scan step of a unitary block: only recognized intrinsic calls are
/// allowed before the final return; anything else is a forbidden classical
/// instruction.
pub open spec fn unitary_scan(
    instrs: Seq<QirInstructionView>,
    i: int,
    st: PatternMatchStateView,
) -> Result<PatternMatchStateView, TranspileErrorView>
    decreases instrs.len() - i,
{
    if i >= instrs.len() {
        Ok(st)
    } else {
        match instrs[i] {
            QirInstructionView::Call { id, callee, operands } => match callee {
                Some(name) => match qis_step(st, id, name, operands) {
                    StepView::Matched(st2) => unitary_scan(instrs, i + 1, st2),
                    StepView::Failed(e) => Err(e),
                    StepView::NotMatched => match rt_record_step(st, id, name, operands) {
                        StepView::Matched(st2) => unitary_scan(instrs, i + 1, st2),
                        StepView::Failed(e) => Err(e),
                        StepView::NotMatched => Err(
                            TranspileErrorView::ForbiddenClassicalInstruction,
                        ),
                    },
                },
                None => Err(TranspileErrorView::ForbiddenClassicalInstruction),
            },
            QirInstructionView::Ret => Ok(st),
            _ => Err(TranspileErrorView::ForbiddenClassicalInstruction),
        }
    }
}

impl UnitaryPatternMatchContext {
    /// Build the pattern context by scanning a basic block.
    pub fn from_basic_block(block: &QirBlock) -> (r: Result<
        UnitaryPatternMatchContext,
        TranspileError,
    >)
        ensures
            match r {
                Ok(ctx) => unitary_scan(block@.instructions, 0, empty_state()) == Ok::<
                    PatternMatchStateView,
                    TranspileErrorView,
                >(ctx@),
                Err(e) => unitary_scan(block@.instructions, 0, empty_state()) == Err::<
                    PatternMatchStateView,
                    TranspileErrorView,
                >(e@),
            },
    {
        let mut ctx = UnitaryPatternMatchContext { state: PatternMatchState::new() };
        let n = block.instructions.len();
        let mut i: usize = 0;
        while i < n
            invariant
                i <= n,
                n == block.instructions@.len(),
                block@.instructions.len() == n,
                unitary_scan(block@.instructions, 0, empty_state()) == unitary_scan(
                    block@.instructions,
                    i as int,
                    ctx@,
                ),
            decreases n - i,
        {
            match Self::scan_one(block, i, &mut ctx) {
                Ok(true) => {},
                Ok(false) => {
                    return Ok(ctx);
                },
                Err(e) => {
                    return Err(e);
                },
            }
            i += 1;
        }
        Ok(ctx)
    }

    /// Offer the instruction at `i` to the recognizers. `Ok(true)` scans
    /// on; `Ok(false)` says the final return was reached.
    #[verifier::rlimit(100)]
    fn scan_one(block: &QirBlock, i: usize, ctx: &mut UnitaryPatternMatchContext) -> (r: Result<
        bool,
        TranspileError,
    >)
        requires
            i < block@.instructions.len(),
        ensures
            match r {
                Ok(true) => unitary_scan(block@.instructions, i as int, old(ctx)@) == unitary_scan(
                    block@.instructions,
                    i + 1,
                    final(ctx)@,
                ),
                Ok(false) => unitary_scan(block@.instructions, i as int, old(ctx)@) == Ok::<
                    PatternMatchStateView,
                    TranspileErrorView,
                >(final(ctx)@),
                Err(e) => unitary_scan(block@.instructions, i as int, old(ctx)@) == Err::<
                    PatternMatchStateView,
                    TranspileErrorView,
                >(e@),
            },
    {
        proof {
            assert(block@.instructions[i as int] == block.instructions@[i as int]@);
        }
        match &block.instructions[i] {
            QirInstruction::Call { id, callee, operands } => {
                match callee {
                    Some(name) => {
                        proof {
                            assert(name.deep_view() =~= name@);
                        }
                        match quantum_instruction(&mut ctx.state, *id, name, operands) {
                            Ok(MatchOutcome::Matched) => Ok(true),
                            Err(e) => Err(e),
                            Ok(MatchOutcome::NotMatched) => {
                                match rt_record_instruction(&mut ctx.state, *id, name, operands) {
                                    Ok(MatchOutcome::Matched) => Ok(true),
                                    Err(e) => Err(e),
                                    Ok(MatchOutcome::NotMatched) => Err(
                                        TranspileError::ForbiddenClassicalInstruction,
                                    ),
                                }
                            },
                        }
                    },
                    None => Err(TranspileError::ForbiddenClassicalInstruction),
                }
            },
            QirInstruction::Ret => Ok(false),
            QirInstruction::Phi { .. } => Err(TranspileError::ForbiddenClassicalInstruction),
            QirInstruction::Add { .. } => Err(TranspileError::ForbiddenClassicalInstruction),
            QirInstruction::ICmp { .. } => Err(TranspileError::ForbiddenClassicalInstruction),
            QirInstruction::CondBr { .. } => Err(TranspileError::ForbiddenClassicalInstruction),
            QirInstruction::Other { .. } => Err(TranspileError::ForbiddenClassicalInstruction),
        }
    }
}

/// The result of transpiling a unitary QIR module to a Quil program.
pub struct ProgramOutput {
    /// The Quil program itself.
    pub program: crate::quil::QuilProgram,
    /// Output to be recorded at the end of program execution.
    pub recorded_output: Vec<RecordedOutput>,
}

/// Spec-level mirror of [`ProgramOutput`].
#[verifier::ext_equal]
pub ghost struct UnitaryProgramOutputView {
    pub program: Seq<QuilInstructionView>,
    pub recorded_output: Seq<RecordedOutput>,
}

impl View for ProgramOutput {
    type V = UnitaryProgramOutputView;

    open spec fn view(&self) -> UnitaryProgramOutputView {
        UnitaryProgramOutputView {
            program: self.program@,
            recorded_output: self.recorded_output@,
        }
    }
}

/// An entry function acceptable to the unitary format: no parameters, not
/// variadic, returning `i64` or void.
pub open spec fn unitary_signature_ok(f: QirFunctionView) -> bool {
    f.param_types.len() == 0 && !f.is_var_arg && (f.return_type == ReturnType::Void
        || f.return_type == ReturnType::I64)
}

/// Check the entry function's shape for the unitary format.
pub fn check_unitary_signature(f: &QirFunction) -> (r: bool)
    ensures
        r == unitary_signature_ok(f@),
{
    f.param_types.len() == 0 && !f.is_var_arg && (match f.return_type {
        ReturnType::Void => true,
        ReturnType::I64 => true,
        ReturnType::OtherReturn => false,
    })
}

/// Build the finished Quil program from a scanned unitary context.
pub fn build_quil_program(ctx: UnitaryPatternMatchContext, rewiring: &Option<String>) -> (out:
    ProgramOutput)
    ensures
        out.program@ == emitted_program(ctx@, rewiring.deep_view()),
        out.recorded_output@ == ctx@.recorded_output,
{
    let UnitaryPatternMatchContext { state } = ctx;
    let (instructions, recorded_output) = crate::shot_count::emit_state(state, rewiring);
    ProgramOutput { program: crate::quil::QuilProgram { instructions }, recorded_output }
}

} // verus!
