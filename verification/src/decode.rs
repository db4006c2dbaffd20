//! The intrinsic decoder: classify the operands of a quantum intrinsic call.
//!
//! A pointer to the opaque struct `Qubit` or `Result` stands for the index
//! encoded in the pointer's value; a `double` operand is a gate parameter; a
//! pointer defined by another instruction is passed through. Anything else
//! is malformed.

use vstd::prelude::*;
use vstd::string::StringSliceAdditionalSpecFns;

use crate::bytes::bytes_eq_str;
use crate::qir::{DoubleWord, DoubleWordView, RawOperand, RawOperandView};

verus! {

/// A classified argument of a quantum intrinsic call.
pub enum QirOperand {
    /// A qubit index.
    QubitArg(u64),
    /// A measurement-result index.
    ResultArg(u64),
    /// A gate parameter of type `double`.
    ParameterArg(DoubleWord),
    /// A pointer that is the result of the instruction with this id.
    InstructionArg(u64),
}

/// Spec-level mirror of [`QirOperand`].
pub ghost enum QirOperandView {
    QubitArg(u64),
    ResultArg(u64),
    ParameterArg(DoubleWordView),
    InstructionArg(u64),
}

impl View for QirOperand {
    type V = QirOperandView;

    open spec fn view(&self) -> QirOperandView {
        match self {
            QirOperand::QubitArg(q) => QirOperandView::QubitArg(*q),
            QirOperand::ResultArg(r) => QirOperandView::ResultArg(*r),
            QirOperand::ParameterArg(d) => QirOperandView::ParameterArg(d@),
            QirOperand::InstructionArg(id) => QirOperandView::InstructionArg(*id),
        }
    }
}

impl DeepView for QirOperand {
    type V = QirOperandView;

    open spec fn deep_view(&self) -> QirOperandView {
        self.view()
    }
}

/// Classification of one raw operand, or `None` when it has none of the
/// accepted shapes (which makes the whole call malformed).
pub open spec fn decode_operand(raw: RawOperandView) -> Option<QirOperandView> {
    match raw {
        RawOperandView::StructPointer { struct_name, address } => {
            if struct_name == "Qubit".spec_bytes() {
                match address {
                    Some(a) => Some(QirOperandView::QubitArg(a)),
                    None => None,
                }
            } else if struct_name == "Result".spec_bytes() {
                match address {
                    Some(a) => Some(QirOperandView::ResultArg(a)),
                    None => None,
                }
            } else {
                None
            }
        },
        RawOperandView::DoubleOperand(d) => Some(QirOperandView::ParameterArg(d)),
        RawOperandView::InstructionPointer(id) => Some(QirOperandView::InstructionArg(id)),
        RawOperandView::OtherPointer => None,
        RawOperandView::OtherOperand => None,
    }
}

/// Classification of the operands from index `i` on, given the already
/// classified prefix `acc`.
pub open spec fn decode_operands_from(
    ops: Seq<RawOperandView>,
    i: int,
    acc: Seq<QirOperandView>,
) -> Option<Seq<QirOperandView>>
    decreases ops.len() - i,
{
    if i >= ops.len() {
        Some(acc)
    } else {
        match decode_operand(ops[i]) {
            Some(a) => decode_operands_from(ops, i + 1, acc.push(a)),
            None => None,
        }
    }
}

/// Classification of all operands of a call, or `None` when any operand is
/// malformed.
pub open spec fn decode_operands(ops: Seq<RawOperandView>) -> Option<Seq<QirOperandView>> {
    decode_operands_from(ops, 0, Seq::<QirOperandView>::empty())
}

/// Classify one raw operand.
fn decode_one(raw: &RawOperand) -> (r: Option<QirOperand>)
    ensures
        r.deep_view() == decode_operand(raw@),
{
    match raw {
        RawOperand::StructPointer { struct_name, address } => {
            if bytes_eq_str(struct_name.as_slice(), "Qubit") {
                match address {
                    Some(a) => Some(QirOperand::QubitArg(*a)),
                    None => None,
                }
            } else if bytes_eq_str(struct_name.as_slice(), "Result") {
                match address {
                    Some(a) => Some(QirOperand::ResultArg(*a)),
                    None => None,
                }
            } else {
                None
            }
        },
        RawOperand::DoubleOperand(d) => Some(
            QirOperand::ParameterArg(DoubleWord { key: d.key, constant: d.constant.clone() }),
        ),
        RawOperand::InstructionPointer(id) => Some(QirOperand::InstructionArg(*id)),
        RawOperand::OtherPointer => None,
        RawOperand::OtherOperand => None,
    }
}

/// Classify the arguments of a quantum intrinsic call, in order; `None`
/// when an operand has none of the accepted shapes.
pub fn qis_function_arguments(ops: &Vec<RawOperand>) -> (r: Option<Vec<QirOperand>>)
    ensures
        r.deep_view() == decode_operands(ops.deep_view()),
{
    let mut out: Vec<QirOperand> = Vec::new();
    let mut i: usize = 0;
    proof {
        assert(out.deep_view() =~= Seq::<QirOperandView>::empty());
    }
    while i < ops.len()
        invariant
            i <= ops@.len(),
            decode_operands(ops.deep_view()) == decode_operands_from(
                ops.deep_view(),
                i as int,
                out.deep_view(),
            ),
        decreases ops@.len() - i,
    {
        let ghost prev = out.deep_view();
        match decode_one(&ops[i]) {
            Some(a) => {
                let ghost av = a@;
                out.push(a);
                proof {
                    assert(out.deep_view() =~= prev.push(av));
                    assert(ops.deep_view()[i as int] == ops@[i as int]@);
                }
            },
            None => {
                proof {
                    assert(ops.deep_view()[i as int] == ops@[i as int]@);
                }
                return None;
            },
        }
        i += 1;
    }
    Some(out)
}

} // verus!
