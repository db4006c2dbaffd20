//! Laws of the recognition engine, stated and proved once and for all.

use vstd::prelude::*;
use vstd::string::StringSliceAdditionalSpecFns;

use crate::decode::{decode_operands, QirOperandView};
use crate::error::TranspileErrorView;
use crate::pattern::{first_index_of, gate_params_from, gate_table, lemma_first_index_of,
    param_of, qis_step, ro_offset_of, rt_record_step, PatternMatchStateView, StepView};
use crate::qir::{QirInstructionView, QirModuleView};
use crate::quil::{QuilInstructionView, QuilParameterView, RegionName};
use crate::shot_count::{emitted_program, loop_end_step, scan_block, scan_body,
    ShotCountContextView};
use crate::unitary::unitary_scan;

verus! {

/// The bookkeeping a scan keeps sound: the first-seen list of measured
/// result indices has no duplicates (so the `ro` offsets, which are the
/// positions in that list, are exactly `0..N-1` for the `N` distinct
/// measured indices), every emitted measurement writes inside that region,
/// and the parameter-slot list has no duplicates (so a value's slot is well
/// defined).
pub open spec fn state_wf(st: PatternMatchStateView) -> bool {
    &&& st.read_result_order.no_duplicates()
    &&& st.parameters.no_duplicates()
    &&& forall|j: int|
        0 <= j < st.quil_body.len() && (#[trigger] st.quil_body[j]) is Measure
            ==> st.quil_body[j]->Measure_ro_offset < st.read_result_order.len()
}

/// Assigning a readout offset keeps the first-seen list duplicate-free, and
/// hands out the position of the result index in that list.
pub proof fn lemma_ro_offset_wf(order: Seq<u64>, r: u64)
    requires
        order.no_duplicates(),
    ensures
        ro_offset_of(order, r).1.no_duplicates(),
        ro_offset_of(order, r).0 == first_index_of(ro_offset_of(order, r).1, r),
{
    lemma_first_index_of(order, r);
    if order.contains(r) {
    } else {
        let order2 = order.push(r);
        assert(order2.no_duplicates()) by {
            assert(forall|p: int| 0 <= p < order.len() ==> order[p] != r);
        }
        crate::patch::lemma_first_index_push(order, r, r);
    }
}

/// Translating one gate parameter keeps the slot list duplicate-free; a
/// constant never consumes a slot; a known value reuses its slot, and a new
/// one takes the next.
pub proof fn lemma_parameter_slot_stability(params: Seq<u64>, d: crate::qir::DoubleWordView)
    requires
        params.no_duplicates(),
    ensures
        param_of(params, d).1.no_duplicates(),
        d.constant is Some ==> param_of(params, d) == (
            QuilParameterView::Literal(d.constant->0),
            params,
        ),
        d.constant is None && params.contains(d.key) ==> param_of(params, d) == (
            QuilParameterView::Slot(first_index_of(params, d.key) as u64),
            params,
        ),
        d.constant is None && !params.contains(d.key) ==> param_of(params, d) == (
            QuilParameterView::Slot(params.len() as u64),
            params.push(d.key),
        ),
{
    match d.constant {
        Some(_) => {},
        None => {
            if !params.contains(d.key) {
                assert(params.push(d.key).no_duplicates()) by {
                    assert(forall|p: int| 0 <= p < params.len() ==> params[p] != d.key);
                }
            }
        },
    }
}

/// Collecting gate parameters keeps the slot list duplicate-free.
pub proof fn lemma_gate_params_wf(
    args: Seq<QirOperandView>,
    i: int,
    pc: int,
    params: Seq<u64>,
    acc: Seq<QuilParameterView>,
)
    requires
        params.no_duplicates(),
    ensures
        gate_params_from(args, i, pc, params, acc) matches Some((ps, p2))
            ==> p2.no_duplicates(),
    decreases pc - i,
{
    if i >= pc || i >= args.len() {
    } else {
        match args[i] {
            QirOperandView::ParameterArg(d) => {
                lemma_parameter_slot_stability(params, d);
                let (e, p1) = param_of(params, d);
                lemma_gate_params_wf(args, i + 1, pc, p1, acc.push(e));
            },
            _ => {},
        }
    }
}

/// A consumed quantum instruction keeps the bookkeeping sound.
pub proof fn lemma_qis_step_wf(
    st: PatternMatchStateView,
    id: u64,
    callee: Seq<u8>,
    rawops: Seq<crate::qir::RawOperandView>,
)
    requires
        state_wf(st),
    ensures
        qis_step(st, id, callee, rawops) matches StepView::Matched(st2) ==> state_wf(st2),
{
    reveal(qis_step);
    match crate::names::parse_qis_name(callee) {
        Some(q) => match decode_operands(rawops) {
            None => {},
            Some(args) => {
                if q.op == "reset".spec_bytes() {
                } else if q.op == "mz".spec_bytes() {
                    if args.len() >= 2 && args[0] is QubitArg && args[1] is ResultArg {
                        let r = args[1]->ResultArg_0;
                        lemma_ro_offset_wf(st.read_result_order, r);
                        let (k, order) = ro_offset_of(st.read_result_order, r);
                        lemma_first_index_of(order, r);
                        assert(order.contains(r)) by {
                            if !st.read_result_order.contains(r) {
                                assert(order[order.len() - 1] == r);
                            }
                        }
                        assert(k < order.len());
                        assert(order.len() >= st.read_result_order.len());
                    }
                } else {
                    match gate_table(q.op) {
                        Some((g, pc, qc)) => {
                            lemma_gate_params_wf(
                                args,
                                0,
                                pc,
                                st.parameters,
                                Seq::<QuilParameterView>::empty(),
                            );
                        },
                        None => {},
                    }
                }
            },
        },
        None => {},
    }
}

/// A consumed record-output instruction keeps the bookkeeping sound.
pub proof fn lemma_rt_step_wf(
    st: PatternMatchStateView,
    id: u64,
    callee: Seq<u8>,
    rawops: Seq<crate::qir::RawOperandView>,
)
    requires
        state_wf(st),
    ensures
        rt_record_step(st, id, callee, rawops) matches StepView::Matched(st2) ==> state_wf(st2),
{
    reveal(rt_record_step);
    match crate::names::parse_record_name(callee) {
        Some(kind) => {
            if kind == "result".spec_bytes() {
                match decode_operands(rawops) {
                    Some(args) => {
                        if args.len() >= 1 && args[0] is ResultArg {
                            let r = args[0]->ResultArg_0;
                            lemma_ro_offset_wf(st.read_result_order, r);
                            let (k, order) = ro_offset_of(st.read_result_order, r);
                            assert(order.len() >= st.read_result_order.len());
                        }
                    },
                    None => {},
                }
            }
        },
        None => {},
    }
}

/// A whole scan of a counted-loop body keeps the bookkeeping sound.
pub proof fn lemma_scan_body_wf(
    m: QirModuleView,
    instrs: Seq<QirInstructionView>,
    i: int,
    phi: u64,
    ctx: ShotCountContextView,
)
    requires
        state_wf(ctx.state),
    ensures
        scan_body(m, instrs, i, phi, ctx) matches Ok(c2) ==> state_wf(c2.state),
    decreases instrs.len() - i,
{
    if i >= instrs.len() {
    } else {
        match instrs[i] {
            QirInstructionView::Call { id, callee, operands } => {
                match callee {
                    Some(name) => {
                        lemma_qis_step_wf(ctx.state, id, name, operands);
                        match qis_step(ctx.state, id, name, operands) {
                            StepView::Matched(st2) => {
                                lemma_scan_body_wf(
                                    m,
                                    instrs,
                                    i + 1,
                                    phi,
                                    crate::shot_count::with_state(ctx, st2),
                                );
                            },
                            StepView::Failed(_) => {},
                            StepView::NotMatched => {
                                lemma_rt_step_wf(ctx.state, id, name, operands);
                                match rt_record_step(ctx.state, id, name, operands) {
                                    StepView::Matched(st2) => {
                                        lemma_scan_body_wf(
                                            m,
                                            instrs,
                                            i + 1,
                                            phi,
                                            crate::shot_count::with_state(ctx, st2),
                                        );
                                    },
                                    StepView::Failed(_) => {},
                                    StepView::NotMatched => {
                                        lemma_scan_body_wf(m, instrs, i + 1, phi, ctx);
                                    },
                                }
                            },
                        }
                    },
                    None => {
                        lemma_scan_body_wf(m, instrs, i + 1, phi, ctx);
                    },
                }
            },
            QirInstructionView::Add { id, lhs, rhs } => {
                if lhs == crate::qir::IntOperand::Defined(phi) && rhs
                    == crate::qir::IntOperand::Constant(1i64) {
                } else {
                    lemma_scan_body_wf(m, instrs, i + 1, phi, ctx);
                }
            },
            _ => {
                lemma_scan_body_wf(m, instrs, i + 1, phi, ctx);
            },
        }
    }
}

/// Result-index densification: after a successful scan, the measured QIR
/// result indices are recorded once each, in first-seen order; the `ro`
/// offset of a result is its position in that list, so the offsets are
/// exactly `0..N-1` for the `N` distinct measured indices, however sparse
/// the input; and the emitted `DECLARE ro BIT[n]` has `n == N`.
pub proof fn lemma_result_index_densification(
    m: QirModuleView,
    instrs: Seq<QirInstructionView>,
    rewiring: Option<Seq<char>>,
)
    requires
        scan_block(m, instrs) is Ok,
    ensures
        ({
            let ctx = scan_block(m, instrs)->Ok_0;
            let ep = emitted_program(ctx.state, rewiring);
            let declare_at = (if rewiring is Some {
                1int
            } else {
                0int
            }) + (if ctx.state.use_active_reset {
                1int
            } else {
                0int
            }) + ctx.state.quil_body.len();
            &&& ctx.state.read_result_order.no_duplicates()
            &&& ep[declare_at] == QuilInstructionView::Declare {
                region: RegionName::Ro,
                length: ctx.state.read_result_order.len() as u64,
            }
            &&& forall|j: int|
                0 <= j < ctx.state.quil_body.len() && (#[trigger] ctx.state.quil_body[j]) is Measure
                    ==> ctx.state.quil_body[j]->Measure_ro_offset
                    < ctx.state.read_result_order.len()
        }),
{
    if instrs.len() == 0 {
    } else {
        match instrs[0] {
            QirInstructionView::Phi { id } => {
                lemma_scan_body_wf(
                    m,
                    instrs,
                    1,
                    id,
                    crate::shot_count::started(crate::shot_count::initial_context(), id),
                );
            },
            _ => {},
        }
    }
}

/// A whole scan of a unitary block keeps the bookkeeping sound, so the
/// densification holds of the unitary format too.
pub proof fn lemma_unitary_scan_wf(
    instrs: Seq<QirInstructionView>,
    i: int,
    st: PatternMatchStateView,
)
    requires
        state_wf(st),
    ensures
        unitary_scan(instrs, i, st) matches Ok(st2) ==> state_wf(st2),
    decreases instrs.len() - i,
{
    if i >= instrs.len() {
    } else {
        match instrs[i] {
            QirInstructionView::Call { id, callee, operands } => {
                match callee {
                    Some(name) => {
                        lemma_qis_step_wf(st, id, name, operands);
                        match qis_step(st, id, name, operands) {
                            StepView::Matched(st2) => {
                                lemma_unitary_scan_wf(instrs, i + 1, st2);
                            },
                            StepView::Failed(_) => {},
                            StepView::NotMatched => {
                                lemma_rt_step_wf(st, id, name, operands);
                                match rt_record_step(st, id, name, operands) {
                                    StepView::Matched(st2) => {
                                        lemma_unitary_scan_wf(instrs, i + 1, st2);
                                    },
                                    StepView::Failed(_) => {},
                                    StepView::NotMatched => {},
                                }
                            },
                        }
                    },
                    None => {},
                }
            },
            _ => {},
        }
    }
}

/// Result-index densification under the unitary format: as for the counted
/// loop, the measured indices are recorded once each, every measurement
/// writes inside the `ro` region, and the emitted declaration sizes the
/// region to the number of distinct measured indices.
pub proof fn lemma_result_index_densification_unitary(
    instrs: Seq<QirInstructionView>,
    rewiring: Option<Seq<char>>,
)
    requires
        unitary_scan(instrs, 0, crate::pattern::empty_state()) is Ok,
    ensures
        ({
            let st = unitary_scan(instrs, 0, crate::pattern::empty_state())->Ok_0;
            let ep = emitted_program(st, rewiring);
            let declare_at = (if rewiring is Some {
                1int
            } else {
                0int
            }) + (if st.use_active_reset {
                1int
            } else {
                0int
            }) + st.quil_body.len();
            &&& st.read_result_order.no_duplicates()
            &&& ep[declare_at] == QuilInstructionView::Declare {
                region: RegionName::Ro,
                length: st.read_result_order.len() as u64,
            }
            &&& forall|j: int|
                0 <= j < st.quil_body.len() && (#[trigger] st.quil_body[j]) is Measure
                    ==> st.quil_body[j]->Measure_ro_offset < st.read_result_order.len()
        }),
{
    lemma_unitary_scan_wf(instrs, 0, crate::pattern::empty_state());
}

/// Quil prologue ordering: when both an active reset and a rewiring pragma
/// are requested, the pragma is prepended last, so it precedes the `RESET`,
/// which precedes the program body.
pub proof fn lemma_prologue_ordering(st: PatternMatchStateView, directive: Seq<char>)
    requires
        st.use_active_reset,
    ensures
        emitted_program(st, Some(directive))[0] == (QuilInstructionView::InitialRewiring {
            directive,
        }),
        emitted_program(st, Some(directive))[1] == QuilInstructionView::ResetAll,
{
}

/// Shot-count extraction: a recognized loop end takes its shot count from
/// the integer constant compared against the shot index — never from
/// anywhere else — and only a non-negative constant is accepted; the scan
/// stops at a branch conditioned on that very comparison, whose else-target
/// becomes the loop's recorded exit.
pub proof fn lemma_shot_count_extraction(
    instrs: Seq<QirInstructionView>,
    i: int,
    phi: u64,
    ctx: ShotCountContextView,
)
    requires
        loop_end_step(instrs, i, phi, ctx) is Ok,
    ensures
        ({
            let c2 = loop_end_step(instrs, i, phi, ctx)->Ok_0;
            instrs[i + 1] matches QirInstructionView::ICmp { id: icmp_id, lhs, rhs } && (lhs
                == crate::qir::IntOperand::Defined(phi) && (rhs
                matches crate::qir::IntOperand::Constant(c) && (c >= 0 && c2.shot_count == Some(
                c as u64,
            ) && (instrs[i + 2] matches QirInstructionView::CondBr {
                condition,
                then_target,
                else_target,
            } && (condition == crate::qir::IntOperand::Defined(icmp_id) && c2.next_basic_block
                == Some(else_target))))))
        }),
{
}

/// A unitary block rejects classical instructions: when an instruction that
/// is neither a call nor the return stands anywhere before the first
/// return, the scan fails.
pub proof fn lemma_unitary_rejects_classical(
    instrs: Seq<QirInstructionView>,
    i: int,
    st: PatternMatchStateView,
    j: int,
)
    requires
        i <= j < instrs.len(),
        !(instrs[j] is Call),
        !(instrs[j] is Ret),
        forall|k: int| i <= k < j ==> !((#[trigger] instrs[k]) is Ret),
    ensures
        unitary_scan(instrs, i, st) is Err,
    decreases j - i,
{
    if i == j {
    } else {
        match instrs[i] {
            QirInstructionView::Call { id, callee, operands } => {
                match callee {
                    Some(name) => {
                        match qis_step(st, id, name, operands) {
                            StepView::Matched(st2) => {
                                lemma_unitary_rejects_classical(instrs, i + 1, st2, j);
                            },
                            StepView::Failed(_) => {},
                            StepView::NotMatched => {
                                match rt_record_step(st, id, name, operands) {
                                    StepView::Matched(st2) => {
                                        lemma_unitary_rejects_classical(instrs, i + 1, st2, j);
                                    },
                                    StepView::Failed(_) => {},
                                    StepView::NotMatched => {},
                                }
                            },
                        }
                    },
                    None => {},
                }
            },
            _ => {},
        }
    }
}

/// The driver's block scan computes exactly the lenient scan's context:
/// discovering callees into the worklist never changes what the block
/// itself matches, so every law of the lenient scan holds of the contexts
/// the patch driver builds its patches from.
pub proof fn lemma_drive_scan_ctx(
    m: QirModuleView,
    instrs: Seq<QirInstructionView>,
    i: int,
    phi: u64,
    ctx: ShotCountContextView,
    d: crate::patch::DriveView,
)
    ensures
        match crate::patch::drive_scan(m, instrs, i, phi, ctx, d) {
            Ok((c2, _)) => crate::shot_count::scan_body_lenient(m, instrs, i, phi, ctx) == Ok::<
                ShotCountContextView,
                TranspileErrorView,
            >(c2),
            Err(e) => crate::shot_count::scan_body_lenient(m, instrs, i, phi, ctx) == Err::<
                ShotCountContextView,
                TranspileErrorView,
            >(e),
        },
    decreases instrs.len() - i,
{
    if i >= instrs.len() {
    } else {
        match instrs[i] {
            QirInstructionView::Call { id, callee, operands } => {
                match callee {
                    Some(name) => {
                        match qis_step(ctx.state, id, name, operands) {
                            StepView::Matched(st2) => {
                                lemma_drive_scan_ctx(
                                    m,
                                    instrs,
                                    i + 1,
                                    phi,
                                    crate::shot_count::with_state(ctx, st2),
                                    d,
                                );
                            },
                            StepView::Failed(_) => {},
                            StepView::NotMatched => {
                                match rt_record_step(ctx.state, id, name, operands) {
                                    StepView::Matched(st2) => {
                                        lemma_drive_scan_ctx(
                                            m,
                                            instrs,
                                            i + 1,
                                            phi,
                                            crate::shot_count::with_state(ctx, st2),
                                            d,
                                        );
                                    },
                                    StepView::Failed(_) => {},
                                    StepView::NotMatched => {
                                        lemma_drive_scan_ctx(
                                            m,
                                            instrs,
                                            i + 1,
                                            phi,
                                            ctx,
                                            crate::patch::drive_discover(m, d, name),
                                        );
                                    },
                                }
                            },
                        }
                    },
                    None => {
                        lemma_drive_scan_ctx(m, instrs, i + 1, phi, ctx, d);
                    },
                }
            },
            QirInstructionView::Add { id, lhs, rhs } => {
                if lhs == crate::qir::IntOperand::Defined(phi) && rhs
                    == crate::qir::IntOperand::Constant(1i64) {
                } else {
                    lemma_drive_scan_ctx(m, instrs, i + 1, phi, ctx, d);
                }
            },
            _ => {
                lemma_drive_scan_ctx(m, instrs, i + 1, phi, ctx, d);
            },
        }
    }
}

/// Patch preserves control-flow exits: a block patch built from a matched
/// scan sends its cleanup block to the matched loop's original else-target,
/// the target recorded when the terminating branch was recognized.
pub proof fn lemma_patch_preserves_exit(
    m: QirModuleView,
    instrs: Seq<QirInstructionView>,
    i: int,
    phi: u64,
    ctx: ShotCountContextView,
)
    requires
        ctx.next_basic_block is None,
        crate::shot_count::scan_body_lenient(m, instrs, i, phi, ctx) matches Ok(c2)
            && c2.next_basic_block is Some,
    ensures
        ({
            let c2 = crate::shot_count::scan_body_lenient(m, instrs, i, phi, ctx)->Ok_0;
            exists|j: int|
                {
                    &&& i <= j
                    &&& j + 2 < instrs.len()
                    &&& (#[trigger] instrs[j + 2]) matches QirInstructionView::CondBr {
                        condition,
                        then_target,
                        else_target,
                    } && c2.next_basic_block == Some(else_target)
                }
        }),
    decreases instrs.len() - i,
{
    let c2 = crate::shot_count::scan_body_lenient(m, instrs, i, phi, ctx)->Ok_0;
    if i >= instrs.len() {
    } else {
        match instrs[i] {
            QirInstructionView::Call { id, callee, operands } => {
                match callee {
                    Some(name) => {
                        match qis_step(ctx.state, id, name, operands) {
                            StepView::Matched(st2) => {
                                lemma_patch_preserves_exit(
                                    m,
                                    instrs,
                                    i + 1,
                                    phi,
                                    crate::shot_count::with_state(ctx, st2),
                                );
                            },
                            StepView::Failed(_) => {},
                            StepView::NotMatched => {
                                match rt_record_step(ctx.state, id, name, operands) {
                                    StepView::Matched(st2) => {
                                        lemma_patch_preserves_exit(
                                            m,
                                            instrs,
                                            i + 1,
                                            phi,
                                            crate::shot_count::with_state(ctx, st2),
                                        );
                                    },
                                    StepView::Failed(_) => {},
                                    StepView::NotMatched => {
                                        lemma_patch_preserves_exit(m, instrs, i + 1, phi, ctx);
                                    },
                                }
                            },
                        }
                    },
                    None => {
                        lemma_patch_preserves_exit(m, instrs, i + 1, phi, ctx);
                    },
                }
            },
            QirInstructionView::Add { id, lhs, rhs } => {
                if lhs == crate::qir::IntOperand::Defined(phi) && rhs
                    == crate::qir::IntOperand::Constant(1i64) {
                    match instrs[i + 1] {
                        QirInstructionView::ICmp { id: icmp_id, lhs: clhs, rhs: crhs } => {
                            match instrs[i + 2] {
                                QirInstructionView::CondBr {
                                    condition,
                                    then_target,
                                    else_target,
                                } => {
                                    assert({
                                        &&& i <= i
                                        &&& i + 2 < instrs.len()
                                        &&& instrs[i + 2] matches QirInstructionView::CondBr {
                                            condition,
                                            then_target,
                                            else_target,
                                        } && c2.next_basic_block == Some(else_target)
                                    });
                                },
                                _ => {},
                            }
                        },
                        _ => {},
                    }
                } else {
                    lemma_patch_preserves_exit(m, instrs, i + 1, phi, ctx);
                }
            },
            _ => {
                lemma_patch_preserves_exit(m, instrs, i + 1, phi, ctx);
            },
        }
    }
}

} // verus!
