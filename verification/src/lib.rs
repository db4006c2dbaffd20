//! A specialization pass over QIR, the LLVM dialect in which quantum
//! operations appear as calls to `__quantum__qis__*` and `__quantum__rt__*`
//! intrinsics. The engine recognizes two shapes of quantum subroutine in a
//! module — a counted shot loop and a single unitary block — translates the
//! recognized intrinsics to a Quil program, and computes the in-place
//! rewrite that replaces them with calls into a runtime ABI.

use vstd::prelude::*;
use vstd::string::StringSliceAdditionalSpecFns;

pub mod bytes;
pub mod decode;
pub mod entrypoint;
pub mod error;
pub mod laws;
pub mod names;
pub mod output;
pub mod patch;
pub mod pattern;
pub mod qir;
pub mod quil;
pub mod shot_count;
pub mod target;
pub mod text;
pub mod unitary;
pub mod validate;

pub use error::TranspileError;
pub use shot_count::ProgramOutput;
pub use target::ExecutionTarget;

verus! {

/// What transpiling a module yields: the declared quantum functions are
/// validated, the entry function and its `body` block are located, the
/// block is scanned for the counted-loop pattern, and the finished program
/// is emitted (with no rewiring pragma and no caching).
pub open spec fn transpile_spec(m: qir::QirModuleView) -> Result<
    shot_count::ProgramOutputView,
    error::TranspileErrorView,
> {
    if validate::module_invalid_params(m).len() > 0 {
        Err(error::TranspileErrorView::QuantumFnParamBadType(validate::module_invalid_params(m)))
    } else {
        match entrypoint::entry_function_index(m) {
            None => Err(error::TranspileErrorView::EntrypointMissing),
            Some(fi) => match qir::first_block_named(
                m.functions[fi].blocks,
                "body".spec_bytes(),
                0,
            ) {
                None => Err(error::TranspileErrorView::BodyBlockMissing),
                Some(bi) => match shot_count::scan_block(
                    m,
                    m.functions[fi].blocks[bi].instructions,
                ) {
                    Err(e) => Err(e),
                    Ok(ctx) => match ctx.shot_count {
                        Some(shots) => if ctx.state.quil_body.len() > 0 {
                            Ok(
                                shot_count::ProgramOutputView {
                                    program: shot_count::emitted_program(ctx.state, None),
                                    shot_count: shots,
                                    recorded_output: ctx.state.recorded_output,
                                },
                            )
                        } else {
                            Err(error::TranspileErrorView::ShotCountPatternMissing)
                        },
                        None => Err(error::TranspileErrorView::ShotCountPatternMissing),
                    },
                },
            },
        }
    }
}

/// Transpile a QIR module into the equivalent Quil program, extracting the
/// shot count from the main program loop.
pub fn transpile_qir_to_quil(module: &qir::QirModule) -> (r: Result<
    ProgramOutput,
    TranspileError,
>)
    ensures
        match r {
            Ok(out) => transpile_spec(module@) == Ok::<
                shot_count::ProgramOutputView,
                error::TranspileErrorView,
            >(out@),
            Err(e) => transpile_spec(module@) == Err::<
                shot_count::ProgramOutputView,
                error::TranspileErrorView,
            >(e@),
        },
{
    validate::validate_quantum_fn_params(module)?;
    let fi = match entrypoint::get_entry_function(module) {
        Some(fi) => fi,
        None => {
            return Err(TranspileError::EntrypointMissing);
        },
    };
    let function = &module.functions[fi];
    let bi = match function.find_block("body") {
        Some(bi) => bi,
        None => {
            return Err(TranspileError::BodyBlockMissing);
        },
    };
    proof {
        assert(module@.functions[fi as int] == module.functions@[fi as int]@);
        assert(function@.blocks[bi as int] == function.blocks@[bi as int]@);
    }
    let ctx = shot_count::ShotCountPatternMatchContext::from_basic_block(
        module,
        &function.blocks[bi],
    )?;
    let no_rewiring: Option<String> = None;
    let out = shot_count::build_quil_program(ctx, &no_rewiring)?;
    proof {
        assert(transpile_spec(module@) matches Ok(o) && o =~= out@);
    }
    Ok(out)
}

/// What transpiling a module under the unitary format yields: after the
/// same validation and entry lookup, the entry function must be nullary,
/// non-variadic, return `i64` or void, and consist of a single basic
/// block, which is scanned for quantum instructions only.
pub open spec fn transpile_unitary_spec(m: qir::QirModuleView) -> Result<
    unitary::UnitaryProgramOutputView,
    error::TranspileErrorView,
> {
    if validate::module_invalid_params(m).len() > 0 {
        Err(error::TranspileErrorView::QuantumFnParamBadType(validate::module_invalid_params(m)))
    } else {
        match entrypoint::entry_function_index(m) {
            None => Err(error::TranspileErrorView::EntrypointMissing),
            Some(fi) => if !unitary::unitary_signature_ok(m.functions[fi]) {
                Err(error::TranspileErrorView::BadUnitarySignature)
            } else if m.functions[fi].blocks.len() != 1 {
                Err(error::TranspileErrorView::BadUnitarySignature)
            } else {
                match unitary::unitary_scan(
                    m.functions[fi].blocks[0].instructions,
                    0,
                    pattern::empty_state(),
                ) {
                    Err(e) => Err(e),
                    Ok(st) => Ok(
                        unitary::UnitaryProgramOutputView {
                            program: shot_count::emitted_program(st, None),
                            recorded_output: st.recorded_output,
                        },
                    ),
                }
            },
        }
    }
}

/// Transpile a QIR module in the unitary format into the equivalent Quil
/// program; there is no shot count.
pub fn transpile_unitary_qir_to_quil(module: &qir::QirModule) -> (r: Result<
    unitary::ProgramOutput,
    TranspileError,
>)
    ensures
        match r {
            Ok(out) => transpile_unitary_spec(module@) == Ok::<
                unitary::UnitaryProgramOutputView,
                error::TranspileErrorView,
            >(out@),
            Err(e) => transpile_unitary_spec(module@) == Err::<
                unitary::UnitaryProgramOutputView,
                error::TranspileErrorView,
            >(e@),
        },
{
    validate::validate_quantum_fn_params(module)?;
    let fi = match entrypoint::get_entry_function(module) {
        Some(fi) => fi,
        None => {
            return Err(TranspileError::EntrypointMissing);
        },
    };
    let function = &module.functions[fi];
    proof {
        assert(module@.functions[fi as int] == module.functions@[fi as int]@);
    }
    if !unitary::check_unitary_signature(function) {
        return Err(TranspileError::BadUnitarySignature);
    }
    if function.blocks.len() != 1 {
        return Err(TranspileError::BadUnitarySignature);
    }
    proof {
        assert(function@.blocks[0] == function.blocks@[0]@);
    }
    let ctx = unitary::UnitaryPatternMatchContext::from_basic_block(&function.blocks[0])?;
    let no_rewiring: Option<String> = None;
    let out = unitary::build_quil_program(ctx, &no_rewiring);
    proof {
        assert(transpile_unitary_spec(module@) matches Ok(o) && o =~= out@);
    }
    Ok(out)
}

/// Signifies output to be recorded at the end of program execution.
#[derive(Clone, Copy, Debug, PartialEq, Eq, Structural)]
pub enum RecordedOutput {
    ShotStart,
    ShotEnd,
    ResultReadoutOffset(u64),
    BoolReadoutOffset(u64),
    IntegerReadoutOffset(u64),
    DoubleReadoutOffset(u64),
    TupleStart,
    TupleEnd,
    ArrayStart,
    ArrayEnd,
}

/// How a module is to be patched.
pub struct PatchOptions {
    /// Add a `main` that calls the entrypoint and returns 0.
    pub add_main_entrypoint: bool,
    /// Where the emitted runtime calls execute the program.
    pub execution_target: ExecutionTarget,
    /// Build every executable once, up front, into a module-wide cache.
    pub cache_executables: bool,
    /// The directive of a `PRAGMA INITIAL_REWIRING` to prepend, if any.
    pub quil_rewiring_pragma: Option<String>,
}

} // verus!
