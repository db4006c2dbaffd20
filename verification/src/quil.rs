//! The Quil program model and its textual rendering.
//!
//! The engine emits only gates, measurements, the two declarations, `RESET`
//! and the rewiring pragma, so the model carries exactly those forms, and
//! the text of every instruction is specified character by character. A
//! numeric gate parameter is carried as the literal text it was rendered to
//! where the constant double was read out of the module, since this crate
//! holds no floating point.

use vstd::prelude::*;
use vstd::string::StringExecFns;

use crate::text::{dec_digits, push_u64_decimal};

verus! {

/// The Quil gates the translator can emit.
#[derive(Clone, Copy, PartialEq, Eq, Structural)]
pub enum GateName {
    H,
    X,
    Y,
    Z,
    S,
    T,
    Rx,
    Ry,
    Rz,
    Cnot,
    Cz,
    Swap,
    Ccnot,
}

/// A gate parameter: either a numeric literal (carried as its Quil text,
/// rendered where the constant double is read out of the module) or a slot
/// of the `__qir_param` memory region.
pub enum QuilParameter {
    Literal(String),
    Slot(u64),
}

/// Spec-level mirror of [`QuilParameter`].
pub ghost enum QuilParameterView {
    Literal(Seq<char>),
    Slot(u64),
}

impl View for QuilParameter {
    type V = QuilParameterView;

    open spec fn view(&self) -> QuilParameterView {
        match self {
            QuilParameter::Literal(t) => QuilParameterView::Literal(t@),
            QuilParameter::Slot(i) => QuilParameterView::Slot(*i),
        }
    }
}

impl DeepView for QuilParameter {
    type V = QuilParameterView;

    open spec fn deep_view(&self) -> QuilParameterView {
        self.view()
    }
}

/// A declared memory region: `ro` is of Quil type `BIT`, `__qir_param` of
/// Quil type `REAL`.
#[derive(Clone, Copy, PartialEq, Eq, Structural)]
pub enum RegionName {
    Ro,
    QirParam,
}

/// One instruction of the emitted Quil program.
pub enum QuilInstruction {
    Gate {
        name: GateName,
        parameters: Vec<QuilParameter>,
        qubits: Vec<u64>,
        dagger: bool,
        controlled: bool,
    },
    Measure { qubit: u64, ro_offset: u64 },
    Declare { region: RegionName, length: u64 },
    ResetAll,
    InitialRewiring { directive: String },
}

/// Spec-level mirror of [`QuilInstruction`].
pub ghost enum QuilInstructionView {
    Gate {
        name: GateName,
        parameters: Seq<QuilParameterView>,
        qubits: Seq<u64>,
        dagger: bool,
        controlled: bool,
    },
    Measure { qubit: u64, ro_offset: u64 },
    Declare { region: RegionName, length: u64 },
    ResetAll,
    InitialRewiring { directive: Seq<char> },
}

impl View for QuilInstruction {
    type V = QuilInstructionView;

    open spec fn view(&self) -> QuilInstructionView {
        match self {
            QuilInstruction::Gate { name, parameters, qubits, dagger, controlled } => {
                QuilInstructionView::Gate {
                    name: *name,
                    parameters: parameters.deep_view(),
                    qubits: qubits@,
                    dagger: *dagger,
                    controlled: *controlled,
                }
            },
            QuilInstruction::Measure { qubit, ro_offset } => QuilInstructionView::Measure {
                qubit: *qubit,
                ro_offset: *ro_offset,
            },
            QuilInstruction::Declare { region, length } => QuilInstructionView::Declare {
                region: *region,
                length: *length,
            },
            QuilInstruction::ResetAll => QuilInstructionView::ResetAll,
            QuilInstruction::InitialRewiring { directive } => {
                QuilInstructionView::InitialRewiring { directive: directive@ }
            },
        }
    }
}

impl DeepView for QuilInstruction {
    type V = QuilInstructionView;

    open spec fn deep_view(&self) -> QuilInstructionView {
        self.view()
    }
}

/// The name under which a gate is printed.
pub open spec fn gate_name_text(g: GateName) -> Seq<char> {
    match g {
        GateName::H => "H"@,
        GateName::X => "X"@,
        GateName::Y => "Y"@,
        GateName::Z => "Z"@,
        GateName::S => "S"@,
        GateName::T => "T"@,
        GateName::Rx => "RX"@,
        GateName::Ry => "RY"@,
        GateName::Rz => "RZ"@,
        GateName::Cnot => "CNOT"@,
        GateName::Cz => "CZ"@,
        GateName::Swap => "SWAP"@,
        GateName::Ccnot => "CCNOT"@,
    }
}

/// The text of one gate parameter.
pub open spec fn param_text(p: QuilParameterView) -> Seq<char> {
    match p {
        QuilParameterView::Literal(t) => t,
        QuilParameterView::Slot(i) => "__qir_param["@ + dec_digits(i as nat) + "]"@,
    }
}

/// Comma-joined parameter texts.
pub open spec fn params_join(ps: Seq<QuilParameterView>) -> Seq<char>
    decreases ps.len(),
{
    if ps.len() == 0 {
        Seq::<char>::empty()
    } else if ps.len() == 1 {
        param_text(ps[0])
    } else {
        param_text(ps[0]) + ", "@ + params_join(ps.skip(1))
    }
}

/// The parenthesized parameter list, empty when there are no parameters.
pub open spec fn params_text(ps: Seq<QuilParameterView>) -> Seq<char> {
    if ps.len() == 0 {
        Seq::<char>::empty()
    } else {
        "("@ + params_join(ps) + ")"@
    }
}

/// The qubit list: each qubit prefixed by one space.
pub open spec fn qubits_text(qs: Seq<u64>) -> Seq<char>
    decreases qs.len(),
{
    if qs.len() == 0 {
        Seq::<char>::empty()
    } else {
        " "@ + dec_digits(qs[0] as nat) + qubits_text(qs.skip(1))
    }
}

/// The printed name of a declared region.
pub open spec fn region_name_text(r: RegionName) -> Seq<char> {
    match r {
        RegionName::Ro => "ro"@,
        RegionName::QirParam => "__qir_param"@,
    }
}

/// The Quil scalar type of a declared region.
pub open spec fn region_kind_text(r: RegionName) -> Seq<char> {
    match r {
        RegionName::Ro => "BIT"@,
        RegionName::QirParam => "REAL"@,
    }
}

/// The text of one gate application: optional modifiers, then the printed
/// name, the parameter list and the qubits.
pub open spec fn gate_text(
    name: GateName,
    parameters: Seq<QuilParameterView>,
    qubits: Seq<u64>,
    dagger: bool,
    controlled: bool,
) -> Seq<char> {
    (if dagger {
        "DAGGER "@
    } else {
        Seq::<char>::empty()
    }) + (if controlled {
        "CONTROLLED "@
    } else {
        Seq::<char>::empty()
    }) + gate_name_text(name) + params_text(parameters) + qubits_text(qubits)
}

/// The full text of one instruction, without a line terminator.
pub open spec fn instruction_text(v: QuilInstructionView) -> Seq<char> {
    match v {
        QuilInstructionView::Gate { name, parameters, qubits, dagger, controlled } => gate_text(
            name,
            parameters,
            qubits,
            dagger,
            controlled,
        ),
        QuilInstructionView::Measure { qubit, ro_offset } => "MEASURE "@ + dec_digits(
            qubit as nat,
        ) + " ro["@ + dec_digits(ro_offset as nat) + "]"@,
        QuilInstructionView::Declare { region, length } => "DECLARE "@ + region_name_text(region)
            + " "@ + region_kind_text(region) + "["@ + dec_digits(length as nat) + "]"@,
        QuilInstructionView::ResetAll => "RESET"@,
        QuilInstructionView::InitialRewiring { directive } => "PRAGMA INITIAL_REWIRING \""@
            + directive + "\""@,
    }
}

/// The text of a whole program: each instruction on its own line.
pub open spec fn program_text(instrs: Seq<QuilInstructionView>) -> Seq<char>
    decreases instrs.len(),
{
    if instrs.len() == 0 {
        Seq::<char>::empty()
    } else {
        instruction_text(instrs[0]) + "\n"@ + program_text(instrs.skip(1))
    }
}

/// Append the texts of the parameters from index `i` on, comma-joined.
fn push_params_join(s: &mut String, ps: &Vec<QuilParameter>, i: usize)
    requires
        i < ps@.len(),
    ensures
        final(s)@ == old(s)@ + params_join(ps.deep_view().skip(i as int)),
    decreases ps@.len() - i,
{
    let n = ps.len();
    match &ps[i] {
        QuilParameter::Literal(t) => {
            s.append(t.as_str());
        },
        QuilParameter::Slot(slot) => {
            s.append("__qir_param[");
            push_u64_decimal(s, *slot);
            s.append("]");
        },
    }
    if i + 1 < n {
        s.append(", ");
        push_params_join(s, ps, i + 1);
        proof {
            assert(ps.deep_view().skip(i as int).skip(1) =~= ps.deep_view().skip(i + 1));
            assert(ps.deep_view().skip(i as int)[0] == ps@[i as int]@);
            assert(final(s)@ =~= old(s)@ + params_join(ps.deep_view().skip(i as int)));
        }
    } else {
        proof {
            assert(ps.deep_view().skip(i as int).len() == 1);
            assert(ps.deep_view().skip(i as int)[0] == ps@[i as int]@);
            assert(final(s)@ =~= old(s)@ + params_join(ps.deep_view().skip(i as int)));
        }
    }
}

/// Append the qubit list from index `i` on.
fn push_qubits(s: &mut String, qs: &Vec<u64>, i: usize)
    requires
        i <= qs@.len(),
    ensures
        final(s)@ == old(s)@ + qubits_text(qs@.skip(i as int)),
    decreases qs@.len() - i,
{
    if i < qs.len() {
        s.append(" ");
        push_u64_decimal(s, qs[i]);
        push_qubits(s, qs, i + 1);
        proof {
            assert(qs@.skip(i as int).skip(1) =~= qs@.skip(i + 1));
            assert(qs@.skip(i as int)[0] == qs@[i as int]);
            assert(final(s)@ =~= old(s)@ + qubits_text(qs@.skip(i as int)));
        }
    } else {
        proof {
            assert(qs@.skip(i as int) =~= Seq::<u64>::empty());
            assert(final(s)@ =~= old(s)@ + qubits_text(qs@.skip(i as int)));
        }
    }
}

/// Append a gate's printed name.
fn push_gate_name(s: &mut String, name: &GateName)
    ensures
        final(s)@ == old(s)@ + gate_name_text(*name),
{
    match name {
        GateName::H => s.append("H"),
        GateName::X => s.append("X"),
        GateName::Y => s.append("Y"),
        GateName::Z => s.append("Z"),
        GateName::S => s.append("S"),
        GateName::T => s.append("T"),
        GateName::Rx => s.append("RX"),
        GateName::Ry => s.append("RY"),
        GateName::Rz => s.append("RZ"),
        GateName::Cnot => s.append("CNOT"),
        GateName::Cz => s.append("CZ"),
        GateName::Swap => s.append("SWAP"),
        GateName::Ccnot => s.append("CCNOT"),
    }
}

/// Append the text of a gate application.
fn push_gate_text(
    s: &mut String,
    name: &GateName,
    parameters: &Vec<QuilParameter>,
    qubits: &Vec<u64>,
    dagger: bool,
    controlled: bool,
)
    ensures
        final(s)@ == old(s)@ + gate_text(
            *name,
            parameters.deep_view(),
            qubits@,
            dagger,
            controlled,
        ),
{
    if dagger {
        s.append("DAGGER ");
    }
    if controlled {
        s.append("CONTROLLED ");
    }
    push_gate_name(s, name);
    if parameters.len() > 0 {
        s.append("(");
        push_params_join(s, parameters, 0);
        s.append(")");
        proof {
            assert(parameters.deep_view().skip(0) =~= parameters.deep_view());
        }
    }
    push_qubits(s, qubits, 0);
    proof {
        assert(qubits@.skip(0) =~= qubits@);
        assert(final(s)@ =~= old(s)@ + gate_text(
            *name,
            parameters.deep_view(),
            qubits@,
            dagger,
            controlled,
        ));
    }
}

/// Append the text of one instruction, without a line terminator.
pub fn push_instruction_text(s: &mut String, instr: &QuilInstruction)
    ensures
        final(s)@ == old(s)@ + instruction_text(instr@),
{
    match instr {
        QuilInstruction::Gate { name, parameters, qubits, dagger, controlled } => {
            push_gate_text(s, name, parameters, qubits, *dagger, *controlled);
        },
        QuilInstruction::Measure { qubit, ro_offset } => {
            s.append("MEASURE ");
            push_u64_decimal(s, *qubit);
            s.append(" ro[");
            push_u64_decimal(s, *ro_offset);
            s.append("]");
            proof {
                assert(final(s)@ =~= old(s)@ + instruction_text(instr@));
            }
        },
        QuilInstruction::Declare { region, length } => {
            s.append("DECLARE ");
            match region {
                RegionName::Ro => s.append("ro"),
                RegionName::QirParam => s.append("__qir_param"),
            }
            s.append(" ");
            match region {
                RegionName::Ro => s.append("BIT"),
                RegionName::QirParam => s.append("REAL"),
            }
            s.append("[");
            push_u64_decimal(s, *length);
            s.append("]");
            proof {
                assert(final(s)@ =~= old(s)@ + instruction_text(instr@));
            }
        },
        QuilInstruction::ResetAll => {
            s.append("RESET");
        },
        QuilInstruction::InitialRewiring { directive } => {
            s.append("PRAGMA INITIAL_REWIRING \"");
            s.append(directive.as_str());
            s.append("\"");
            proof {
                assert(final(s)@ =~= old(s)@ + instruction_text(instr@));
            }
        },
    }
}

/// A Quil program: its instructions in order.
pub struct QuilProgram {
    pub instructions: Vec<QuilInstruction>,
}

impl View for QuilProgram {
    type V = Seq<QuilInstructionView>;

    open spec fn view(&self) -> Seq<QuilInstructionView> {
        self.instructions.deep_view()
    }
}

impl QuilProgram {
    /// The program's full text: one line per instruction.
    pub fn to_quil_text(&self) -> (r: String)
        ensures
            r@ == program_text(self@),
    {
        let mut s = String::new();
        let mut i: usize = 0;
        proof {
            assert(self@.skip(0) =~= self@);
            assert(s@ + program_text(self@) =~= program_text(self@));
        }
        while i < self.instructions.len()
            invariant
                i <= self.instructions@.len(),
                s@ + program_text(self@.skip(i as int)) == program_text(self@),
                self@.len() == self.instructions@.len(),
            decreases self.instructions@.len() - i,
        {
            push_instruction_text(&mut s, &self.instructions[i]);
            s.append("\n");
            proof {
                assert(self@.skip(i as int)[0] == self.instructions@[i as int]@);
                assert(self@.skip(i as int).skip(1) =~= self@.skip(i + 1));
                assert(s@ + program_text(self@.skip(i + 1)) =~= program_text(self@));
            }
            i += 1;
        }
        proof {
            assert(self@.skip(i as int) =~= Seq::<QuilInstructionView>::empty());
            assert(s@ =~= program_text(self@));
        }
        s
    }

    /// The number of instructions.
    pub fn len(&self) -> (n: usize)
        ensures
            n == self@.len(),
    {
        self.instructions.len()
    }
}

} // verus!
