//! Errors of the recognition and rewriting engine.

use vstd::prelude::*;

verus! {

/// A parameter of a declared `__quantum__qis__*` function that is neither a
/// `double` nor a pointer to the opaque structs `Qubit` or `Result`.
#[derive(Debug)]
pub struct InvalidParameter {
    /// The declared function's name.
    pub function: Vec<u8>,
    /// The position of the offending parameter.
    pub index: u64,
}

/// Spec-level mirror of [`InvalidParameter`].
pub ghost struct InvalidParameterView {
    pub function: Seq<u8>,
    pub index: u64,
}

impl View for InvalidParameter {
    type V = InvalidParameterView;

    open spec fn view(&self) -> InvalidParameterView {
        InvalidParameterView { function: self.function@, index: self.index }
    }
}

impl DeepView for InvalidParameter {
    type V = InvalidParameterView;

    open spec fn deep_view(&self) -> InvalidParameterView {
        self.view()
    }
}

/// Why recognition or rewriting of a module failed.
#[derive(Debug)]
pub enum TranspileError {
    /// No function carries the `EntryPoint` attribute or the fallback name.
    EntrypointMissing,
    /// The entry function has no basic block named `body`.
    BodyBlockMissing,
    /// A declared quantum function has parameters of unexpected types.
    QuantumFnParamBadType(Vec<InvalidParameter>),
    /// A call's operands did not match any decoder case.
    MalformedIntrinsic,
    /// `read_result` on a result index never targeted by a measurement.
    UnmeasuredResultRead(u64),
    /// The add/icmp/br triple ending a counted loop was incoherent.
    MalformedLoopTerminator,
    /// The shot-count literal is negative.
    InvalidShotCount(i64),
    /// A record-output kind that is recognized but not implemented.
    UnimplementedRecordType(Vec<u8>),
    /// A unitary block holds an instruction that is neither a recognized
    /// intrinsic call nor the final return.
    ForbiddenClassicalInstruction,
    /// A call to another function defined in the module, which Quil cannot
    /// express.
    NestedFunctionCall(Vec<u8>),
    /// The counted-loop pattern was not detected in the block.
    ShotCountPatternMissing,
    /// A unitary entry function must take no arguments and return `i64` or
    /// void, in a single basic block.
    BadUnitarySignature,
    /// The consumed instructions cannot be deleted without leaving a
    /// dangling use.
    UseCycle,
}

/// Spec-level mirror of [`TranspileError`].
pub ghost enum TranspileErrorView {
    EntrypointMissing,
    BodyBlockMissing,
    QuantumFnParamBadType(Seq<InvalidParameterView>),
    MalformedIntrinsic,
    UnmeasuredResultRead(u64),
    MalformedLoopTerminator,
    InvalidShotCount(i64),
    UnimplementedRecordType(Seq<u8>),
    ForbiddenClassicalInstruction,
    NestedFunctionCall(Seq<u8>),
    ShotCountPatternMissing,
    BadUnitarySignature,
    UseCycle,
}

impl View for TranspileError {
    type V = TranspileErrorView;

    open spec fn view(&self) -> TranspileErrorView {
        match self {
            TranspileError::EntrypointMissing => TranspileErrorView::EntrypointMissing,
            TranspileError::BodyBlockMissing => TranspileErrorView::BodyBlockMissing,
            TranspileError::QuantumFnParamBadType(ps) => TranspileErrorView::QuantumFnParamBadType(
                ps.deep_view(),
            ),
            TranspileError::MalformedIntrinsic => TranspileErrorView::MalformedIntrinsic,
            TranspileError::UnmeasuredResultRead(r) => TranspileErrorView::UnmeasuredResultRead(*r),
            TranspileError::MalformedLoopTerminator => TranspileErrorView::MalformedLoopTerminator,
            TranspileError::InvalidShotCount(c) => TranspileErrorView::InvalidShotCount(*c),
            TranspileError::UnimplementedRecordType(k) => TranspileErrorView::UnimplementedRecordType(
                k@,
            ),
            TranspileError::ForbiddenClassicalInstruction => {
                TranspileErrorView::ForbiddenClassicalInstruction
            },
            TranspileError::NestedFunctionCall(n) => TranspileErrorView::NestedFunctionCall(n@),
            TranspileError::ShotCountPatternMissing => TranspileErrorView::ShotCountPatternMissing,
            TranspileError::BadUnitarySignature => TranspileErrorView::BadUnitarySignature,
            TranspileError::UseCycle => TranspileErrorView::UseCycle,
        }
    }
}

impl DeepView for TranspileError {
    type V = TranspileErrorView;

    open spec fn deep_view(&self) -> TranspileErrorView {
        self.view()
    }
}

} // verus!
