//! Recognition of the counted-loop (shot-count) pattern in one basic block.
//!
//! The block must open with a `phi` (the shot index); its body may hold
//! quantum and record-output intrinsics, which are consumed, and classical
//! instructions, which are left in place; it ends at an increment-by-one of
//! the shot index, immediately followed by a comparison against the shot
//! count and a conditional branch on that comparison.

use vstd::prelude::*;

use crate::error::{TranspileError, TranspileErrorView};
use crate::pattern::{qis_step, rt_record_step, MatchOutcome, PatternMatchState,
    PatternMatchStateView, quantum_instruction, rt_record_instruction};
use crate::qir::{module_defines, IntOperand, QirBlock, QirInstruction, QirInstructionView,
    QirModule, QirModuleView};
use crate::pattern::StepView;
use crate::quil::QuilInstructionView;
use crate::RecordedOutput;

verus! {

/// What a scan of one basic block accumulates while looking for the
/// counted-loop pattern.
pub struct ShotCountPatternMatchContext {
    /// The shared accumulating state.
    pub state: PatternMatchState,
    /// The id of the loop-initializing `phi` (the shot-index SSA value).
    pub initial_instruction: Option<u64>,
    /// The shot count, set when the loop end is recognized.
    pub shot_count: Option<u64>,
    /// The else-target of the loop-terminating branch.
    pub next_basic_block: Option<Vec<u8>>,
}

/// Spec-level mirror of [`ShotCountPatternMatchContext`].
#[verifier::ext_equal]
pub ghost struct ShotCountContextView {
    pub state: PatternMatchStateView,
    pub initial_instruction: Option<u64>,
    pub shot_count: Option<u64>,
    pub next_basic_block: Option<Seq<u8>>,
}

impl View for ShotCountPatternMatchContext {
    type V = ShotCountContextView;

    open spec fn view(&self) -> ShotCountContextView {
        ShotCountContextView {
            state: self.state@,
            initial_instruction: self.initial_instruction,
            shot_count: self.shot_count,
            next_basic_block: self.next_basic_block.deep_view(),
        }
    }
}

/// The context in which a scan starts.
pub open spec fn initial_context() -> ShotCountContextView {
    ShotCountContextView {
        state: crate::pattern::empty_state(),
        initial_instruction: None,
        shot_count: None,
        next_basic_block: None,
    }
}

/// Entering the loop body: remember the `phi` and open the shot.
pub open spec fn started(ctx: ShotCountContextView, id: u64) -> ShotCountContextView {
    ShotCountContextView {
        state: PatternMatchStateView {
            recorded_output: ctx.state.recorded_output.push(RecordedOutput::ShotStart),
            ..ctx.state
        },
        initial_instruction: Some(id),
        shot_count: ctx.shot_count,
        next_basic_block: ctx.next_basic_block,
    }
}

/// Replace the shared state after a consumed instruction.
pub open spec fn with_state(
    ctx: ShotCountContextView,
    st: PatternMatchStateView,
) -> ShotCountContextView {
    ShotCountContextView {
        state: st,
        initial_instruction: ctx.initial_instruction,
        shot_count: ctx.shot_count,
        next_basic_block: ctx.next_basic_block,
    }
}

/// Closing the loop: record the shot count and the loop's exit block, and
/// close the shot.
pub open spec fn finished(
    ctx: ShotCountContextView,
    c: i64,
    else_target: Seq<u8>,
) -> ShotCountContextView {
    ShotCountContextView {
        state: PatternMatchStateView {
            recorded_output: ctx.state.recorded_output.push(RecordedOutput::ShotEnd),
            ..ctx.state
        },
        initial_instruction: ctx.initial_instruction,
        shot_count: Some(c as u64),
        next_basic_block: Some(else_target),
    }
}

/// The loop end, triggered at `instrs[i]`, an `add` of the constant 1 to
/// the shot index: the next instruction must compare the shot index against
/// a constant — the shot count, which must be non-negative — and the one
/// after must branch on that comparison. Anything else is malformed.
pub open spec fn loop_end_step(
    instrs: Seq<QirInstructionView>,
    i: int,
    phi: u64,
    ctx: ShotCountContextView,
) -> Result<ShotCountContextView, TranspileErrorView> {
    if i + 1 >= instrs.len() {
        Err(TranspileErrorView::MalformedLoopTerminator)
    } else {
        match instrs[i + 1] {
            QirInstructionView::ICmp { id: icmp_id, lhs, rhs } => {
                if lhs != IntOperand::Defined(phi) {
                    Err(TranspileErrorView::MalformedLoopTerminator)
                } else {
                    match rhs {
                        IntOperand::Constant(c) => {
                            if c < 0 {
                                Err(TranspileErrorView::InvalidShotCount(c))
                            } else if i + 2 >= instrs.len() {
                                Err(TranspileErrorView::MalformedLoopTerminator)
                            } else {
                                match instrs[i + 2] {
                                    QirInstructionView::CondBr {
                                        condition,
                                        then_target,
                                        else_target,
                                    } => {
                                        if condition == IntOperand::Defined(icmp_id) {
                                            Ok(finished(ctx, c, else_target))
                                        } else {
                                            Err(TranspileErrorView::MalformedLoopTerminator)
                                        }
                                    },
                                    _ => Err(TranspileErrorView::MalformedLoopTerminator),
                                }
                            }
                        },
                        _ => Err(TranspileErrorView::MalformedLoopTerminator),
                    }
                }
            },
            _ => Err(TranspileErrorView::MalformedLoopTerminator),
        }
    }
}

/// One scan step inside the loop body, from instruction `i` on.
///
/// A call is offered to the quantum recognizer, then to the record-output
/// recognizer; a recognized call is consumed, a malformed one fails the
/// scan, and an unrecognized call to a function defined in the module fails
/// too (Quil has no function calls). The increment of the shot index hands
/// over to [`loop_end_step`] and the scan stops. Everything else is left in
/// place.
pub open spec fn scan_body(
    m: QirModuleView,
    instrs: Seq<QirInstructionView>,
    i: int,
    phi: u64,
    ctx: ShotCountContextView,
) -> Result<ShotCountContextView, TranspileErrorView>
    decreases instrs.len() - i,
{
    if i >= instrs.len() {
        Ok(ctx)
    } else {
        match instrs[i] {
            QirInstructionView::Call { id, callee, operands } => {
                match callee {
                    Some(name) => match qis_step(ctx.state, id, name, operands) {
                        StepView::Matched(st2) => scan_body(m, instrs, i + 1, phi, with_state(ctx, st2)),
                        StepView::Failed(e) => Err(e),
                        StepView::NotMatched => match rt_record_step(ctx.state, id, name, operands) {
                            StepView::Matched(st2) => scan_body(
                                m,
                                instrs,
                                i + 1,
                                phi,
                                with_state(ctx, st2),
                            ),
                            StepView::Failed(e) => Err(e),
                            StepView::NotMatched => {
                                if module_defines(m, name) {
                                    Err(TranspileErrorView::NestedFunctionCall(name))
                                } else {
                                    scan_body(m, instrs, i + 1, phi, ctx)
                                }
                            },
                        },
                    },
                    None => scan_body(m, instrs, i + 1, phi, ctx),
                }
            },
            QirInstructionView::Add { id, lhs, rhs } => {
                if lhs == IntOperand::Defined(phi) && rhs == IntOperand::Constant(1i64) {
                    loop_end_step(instrs, i, phi, ctx)
                } else {
                    scan_body(m, instrs, i + 1, phi, ctx)
                }
            },
            _ => scan_body(m, instrs, i + 1, phi, ctx),
        }
    }
}

/// The scan of one block: the first instruction must be a `phi` for the
/// loop to be recognized at all; otherwise nothing is consumed.
pub open spec fn scan_block(
    m: QirModuleView,
    instrs: Seq<QirInstructionView>,
) -> Result<ShotCountContextView, TranspileErrorView> {
    if instrs.len() == 0 {
        Ok(initial_context())
    } else {
        match instrs[0] {
            QirInstructionView::Phi { id } => scan_body(
                m,
                instrs,
                1,
                id,
                started(initial_context(), id),
            ),
            _ => Ok(initial_context()),
        }
    }
}

/// One scan step inside the loop body when the surrounding driver handles
/// calls to functions defined in the module itself (by rewriting them in
/// turn): such a call is left in place instead of failing the scan;
/// everything else is as in [`scan_body`].
pub open spec fn scan_body_lenient(
    m: QirModuleView,
    instrs: Seq<QirInstructionView>,
    i: int,
    phi: u64,
    ctx: ShotCountContextView,
) -> Result<ShotCountContextView, TranspileErrorView>
    decreases instrs.len() - i,
{
    if i >= instrs.len() {
        Ok(ctx)
    } else {
        match instrs[i] {
            QirInstructionView::Call { id, callee, operands } => {
                match callee {
                    Some(name) => match qis_step(ctx.state, id, name, operands) {
                        StepView::Matched(st2) => scan_body_lenient(
                            m,
                            instrs,
                            i + 1,
                            phi,
                            with_state(ctx, st2),
                        ),
                        StepView::Failed(e) => Err(e),
                        StepView::NotMatched => match rt_record_step(ctx.state, id, name, operands) {
                            StepView::Matched(st2) => scan_body_lenient(
                                m,
                                instrs,
                                i + 1,
                                phi,
                                with_state(ctx, st2),
                            ),
                            StepView::Failed(e) => Err(e),
                            StepView::NotMatched => scan_body_lenient(m, instrs, i + 1, phi, ctx),
                        },
                    },
                    None => scan_body_lenient(m, instrs, i + 1, phi, ctx),
                }
            },
            QirInstructionView::Add { id, lhs, rhs } => {
                if lhs == IntOperand::Defined(phi) && rhs == IntOperand::Constant(1i64) {
                    loop_end_step(instrs, i, phi, ctx)
                } else {
                    scan_body_lenient(m, instrs, i + 1, phi, ctx)
                }
            },
            _ => scan_body_lenient(m, instrs, i + 1, phi, ctx),
        }
    }
}

impl ShotCountPatternMatchContext {
    /// Build the pattern context by scanning a basic block.
    #[verifier::rlimit(100)]
    pub fn from_basic_block(module: &QirModule, block: &QirBlock) -> (r: Result<
        ShotCountPatternMatchContext,
        TranspileError,
    >)
        ensures
            match r {
                Ok(ctx) => scan_block(module@, block@.instructions) == Ok::<
                    ShotCountContextView,
                    TranspileErrorView,
                >(ctx@),
                Err(e) => scan_block(module@, block@.instructions) == Err::<
                    ShotCountContextView,
                    TranspileErrorView,
                >(e@),
            },
    {
        let mut ctx = ShotCountPatternMatchContext {
            state: PatternMatchState::new(),
            initial_instruction: None,
            shot_count: None,
            next_basic_block: None,
        };
        proof {
            assert(ctx@ =~= initial_context());
        }
        let n = block.instructions.len();
        if n == 0 {
            return Ok(ctx);
        }
        let phi: u64 = match &block.instructions[0] {
            QirInstruction::Phi { id } => *id,
            _ => {
                proof {
                    assert(block@.instructions[0] == block.instructions@[0]@);
                }
                return Ok(ctx);
            },
        };
        proof {
            assert(block@.instructions[0] == block.instructions@[0]@);
        }
        ctx.initial_instruction = Some(phi);
        ctx.state.recorded_output.push(RecordedOutput::ShotStart);
        proof {
            assert(ctx@ =~= started(initial_context(), phi));
        }
        let mut i: usize = 1;
        while i < n
            invariant
                1 <= i <= n,
                n == block.instructions@.len(),
                block@.instructions.len() == n,
                scan_block(module@, block@.instructions) == scan_body(
                    module@,
                    block@.instructions,
                    i as int,
                    phi,
                    ctx@,
                ),
            decreases n - i,
        {
            match Self::scan_one(module, block, i, phi, &mut ctx) {
                Ok(true) => {},
                Ok(false) => {
                    return Ok(ctx);
                },
                Err(e) => {
                    return Err(e);
                },
            }
            i += 1;
        }
        Ok(ctx)
    }

    /// Offer the instruction at `i` to the recognizers. `Ok(true)` scans
    /// on; `Ok(false)` says the loop end was recognized and the scan stops.
    #[verifier::rlimit(100)]
    fn scan_one(
        module: &QirModule,
        block: &QirBlock,
        i: usize,
        phi: u64,
        ctx: &mut ShotCountPatternMatchContext,
    ) -> (r: Result<bool, TranspileError>)
        requires
            i < block@.instructions.len(),
        ensures
            match r {
                Ok(true) => scan_body(module@, block@.instructions, i as int, phi, old(ctx)@)
                    == scan_body(module@, block@.instructions, i + 1, phi, final(ctx)@),
                Ok(false) => scan_body(module@, block@.instructions, i as int, phi, old(ctx)@)
                    == Ok::<ShotCountContextView, TranspileErrorView>(final(ctx)@),
                Err(e) => scan_body(module@, block@.instructions, i as int, phi, old(ctx)@)
                    == Err::<ShotCountContextView, TranspileErrorView>(e@),
            },
    {
        proof {
            assert(block@.instructions[i as int] == block.instructions@[i as int]@);
        }
        match &block.instructions[i] {
            QirInstruction::Call { id, callee, operands } => {
                match callee {
                    Some(name) => {
                        let ghost c0 = ctx@;
                        proof {
                            assert(name.deep_view() =~= name@);
                        }
                        match quantum_instruction(&mut ctx.state, *id, name, operands) {
                            Ok(MatchOutcome::Matched) => {
                                proof {
                                    assert(ctx@ =~= with_state(c0, ctx@.state));
                                }
                                Ok(true)
                            },
                            Err(e) => Err(e),
                            Ok(MatchOutcome::NotMatched) => {
                                match rt_record_instruction(&mut ctx.state, *id, name, operands) {
                                    Ok(MatchOutcome::Matched) => {
                                        proof {
                                            assert(ctx@ =~= with_state(c0, ctx@.state));
                                        }
                                        Ok(true)
                                    },
                                    Err(e) => Err(e),
                                    Ok(MatchOutcome::NotMatched) => {
                                        proof {
                                            assert(ctx@ =~= c0);
                                        }
                                        if module.defines_function(name) {
                                            Err(
                                                TranspileError::NestedFunctionCall(
                                                    crate::bytes::clone_bytes(name),
                                                ),
                                            )
                                        } else {
                                            Ok(true)
                                        }
                                    },
                                }
                            },
                        }
                    },
                    None => Ok(true),
                }
            },
            QirInstruction::Add { id: _, lhs, rhs } => {
                if *lhs == IntOperand::Defined(phi) && *rhs == IntOperand::Constant(1i64) {
                    Self::loop_end(block, i, phi, ctx)?;
                    Ok(false)
                } else {
                    Ok(true)
                }
            },
            QirInstruction::Phi { .. } => Ok(true),
            QirInstruction::ICmp { .. } => Ok(true),
            QirInstruction::CondBr { .. } => Ok(true),
            QirInstruction::Ret => Ok(true),
            QirInstruction::Other { .. } => Ok(true),
        }
    }

    /// Handle the recognized loop end at instruction `i`.
    pub(crate) fn loop_end(block: &QirBlock, i: usize, phi: u64, ctx: &mut ShotCountPatternMatchContext) -> (r:
        Result<(), TranspileError>)
        requires
            i < block@.instructions.len(),
        ensures
            match r {
                Ok(()) => loop_end_step(block@.instructions, i as int, phi, old(ctx)@) == Ok::<
                    ShotCountContextView,
                    TranspileErrorView,
                >(final(ctx)@),
                Err(e) => loop_end_step(block@.instructions, i as int, phi, old(ctx)@) == Err::<
                    ShotCountContextView,
                    TranspileErrorView,
                >(e@),
            },
    {
        let ghost ctx0 = ctx@;
        let n = block.instructions.len();
        if i + 1 >= n {
            return Err(TranspileError::MalformedLoopTerminator);
        }
        proof {
            assert(block@.instructions[i + 1] == block.instructions@[i + 1]@);
        }
        let (icmp_id, shots) = match &block.instructions[i + 1] {
            QirInstruction::ICmp { id, lhs, rhs } => {
                if *lhs != IntOperand::Defined(phi) {
                    return Err(TranspileError::MalformedLoopTerminator);
                }
                match rhs {
                    IntOperand::Constant(c) => {
                        if *c < 0 {
                            return Err(TranspileError::InvalidShotCount(*c));
                        }
                        (*id, *c as u64)
                    },
                    _ => {
                        return Err(TranspileError::MalformedLoopTerminator);
                    },
                }
            },
            _ => {
                return Err(TranspileError::MalformedLoopTerminator);
            },
        };
        if i + 2 >= n {
            return Err(TranspileError::MalformedLoopTerminator);
        }
        proof {
            assert(block@.instructions[i + 2] == block.instructions@[i + 2]@);
        }
        match &block.instructions[i + 2] {
            QirInstruction::CondBr { condition, then_target: _, else_target } => {
                if *condition == IntOperand::Defined(icmp_id) {
                    ctx.shot_count = Some(shots);
                    ctx.next_basic_block = Some(crate::bytes::clone_bytes(else_target));
                    ctx.state.recorded_output.push(RecordedOutput::ShotEnd);
                    proof {
                        assert(ctx@ =~= finished(ctx0, shots as i64, else_target@));
                    }
                    Ok(())
                } else {
                    Err(TranspileError::MalformedLoopTerminator)
                }
            },
            _ => Err(TranspileError::MalformedLoopTerminator),
        }
    }
}

/// The result of transpiling a QIR module to a Quil program.
pub struct ProgramOutput {
    /// The Quil program itself.
    pub program: crate::quil::QuilProgram,
    /// The number of shots, extracted from the primary execution loop.
    pub shot_count: u64,
    /// Output to be recorded at the end of program execution.
    pub recorded_output: Vec<RecordedOutput>,
}

/// Spec-level mirror of [`ProgramOutput`].
#[verifier::ext_equal]
pub ghost struct ProgramOutputView {
    pub program: Seq<QuilInstructionView>,
    pub shot_count: u64,
    pub recorded_output: Seq<RecordedOutput>,
}

impl View for ProgramOutput {
    type V = ProgramOutputView;

    open spec fn view(&self) -> ProgramOutputView {
        ProgramOutputView {
            program: self.program@,
            shot_count: self.shot_count,
            recorded_output: self.recorded_output@,
        }
    }
}

/// Whether a scanned context matched: a shot count was inferred and at
/// least one Quil instruction was accumulated.
pub open spec fn context_matched(ctx: ShotCountContextView) -> bool {
    ctx.shot_count is Some && ctx.state.quil_body.len() > 0
}

/// The finished program for an accumulated state: the body in encounter
/// order, then `DECLARE ro BIT[n]` for the `n` distinct measured results,
/// then `DECLARE __qir_param REAL[m]` when there are `m > 0` parameter
/// slots; `RESET` is prepended when active reset was requested, and the
/// rewiring pragma is prepended last, so that it precedes the `RESET`.
pub open spec fn emitted_program(
    st: PatternMatchStateView,
    rewiring: Option<Seq<char>>,
) -> Seq<QuilInstructionView> {
    let declares = seq![
        QuilInstructionView::Declare {
            region: crate::quil::RegionName::Ro,
            length: st.read_result_order.len() as u64,
        },
    ] + if st.parameters.len() > 0 {
        seq![
            QuilInstructionView::Declare {
                region: crate::quil::RegionName::QirParam,
                length: st.parameters.len() as u64,
            },
        ]
    } else {
        Seq::<QuilInstructionView>::empty()
    };
    let reset = if st.use_active_reset {
        seq![QuilInstructionView::ResetAll]
    } else {
        Seq::<QuilInstructionView>::empty()
    };
    let pragma = match rewiring {
        Some(d) => seq![QuilInstructionView::InitialRewiring { directive: d }],
        None => Seq::<QuilInstructionView>::empty(),
    };
    pragma + reset + st.quil_body + declares
}

/// Build the finished Quil program from a matched context. A context
/// without a shot count or without any quantum instruction is not a match.
pub fn build_quil_program(
    ctx: ShotCountPatternMatchContext,
    rewiring: &Option<String>,
) -> (r: Result<ProgramOutput, TranspileError>)
    ensures
        match r {
            Ok(out) => context_matched(ctx@) && Some(out.shot_count) == ctx@.shot_count
                && out.program@ == emitted_program(ctx@.state, rewiring.deep_view())
                && out.recorded_output@ == ctx@.state.recorded_output,
            Err(e) => !context_matched(ctx@) && e@ == TranspileErrorView::ShotCountPatternMissing,
        },
{
    let ShotCountPatternMatchContext { state, initial_instruction: _, shot_count, next_basic_block: _ }
        = ctx;
    let shots = match shot_count {
        Some(shots) => shots,
        None => {
            return Err(TranspileError::ShotCountPatternMissing);
        },
    };
    if state.quil_body.len() == 0 {
        return Err(TranspileError::ShotCountPatternMissing);
    }
    let (instructions, recorded_output) = emit_state(state, rewiring);
    Ok(
        ProgramOutput {
            program: crate::quil::QuilProgram { instructions },
            shot_count: shots,
            recorded_output,
        },
    )
}

/// Emit the finished instruction list for an accumulated state, together
/// with its recorded-output schedule.
pub fn emit_state(state: PatternMatchState, rewiring: &Option<String>) -> (r: (
    Vec<crate::quil::QuilInstruction>,
    Vec<RecordedOutput>,
))
    ensures
        r.0.deep_view() == emitted_program(state@, rewiring.deep_view()),
        r.1@ == state@.recorded_output,
{
    let ghost stv = state@;
    let PatternMatchState {
        quil_body: mut body,
        recorded_output,
        instructions_to_remove: _,
        read_result_order,
        readout_instruction_mapping: _,
        parameters,
        use_active_reset,
    } = state;
    let ghost bodyv = body.deep_view();
    let mut instructions: Vec<crate::quil::QuilInstruction> = Vec::new();
    match rewiring {
        Some(directive) => {
            let d: String = directive.clone();
            instructions.push(crate::quil::QuilInstruction::InitialRewiring { directive: d });
        },
        None => {},
    }
    if use_active_reset {
        instructions.push(crate::quil::QuilInstruction::ResetAll);
    }
    let ghost headv = instructions.deep_view();
    let ghost head_shallow = instructions@;
    let ghost body_shallow = body@;
    instructions.append(&mut body);
    proof {
        assert forall|j: int| 0 <= j < instructions@.len() implies instructions.deep_view()[j]
            == (headv + bodyv)[j] by {
            assert(instructions.deep_view()[j] == instructions@[j]@);
            if j < head_shallow.len() {
                assert(instructions@[j] == head_shallow[j]);
                assert(headv[j] == head_shallow[j]@);
            } else {
                assert(instructions@[j] == body_shallow[j - head_shallow.len()]);
                assert(bodyv[j - head_shallow.len()] == body_shallow[j - head_shallow.len()]@);
            }
        }
        assert(instructions.deep_view() =~= headv + bodyv);
    }
    instructions.push(
        crate::quil::QuilInstruction::Declare {
            region: crate::quil::RegionName::Ro,
            length: read_result_order.len() as u64,
        },
    );
    if parameters.len() > 0 {
        instructions.push(
            crate::quil::QuilInstruction::Declare {
                region: crate::quil::RegionName::QirParam,
                length: parameters.len() as u64,
            },
        );
    }
    proof {
        assert(instructions.deep_view() =~= emitted_program(stv, rewiring.deep_view()));
    }
    (instructions, recorded_output)
}

} // verus!
