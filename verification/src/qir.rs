//! A plain-data model of the slice of LLVM IR that the matchers read.
//!
//! LLVM values are opaque handles owned by the surrounding program; the
//! engine never needs more of an instruction than is modelled here. Each
//! SSA value is identified by a caller-chosen `u64` id (distinct values get
//! distinct ids), names are the raw bytes of the C strings LLVM stores, and
//! a double operand carries its constant bits when LLVM knows them.

use vstd::prelude::*;
use vstd::string::StringSliceAdditionalSpecFns;

verus! {

/// An integer operand of an `add`, `icmp` or `br` instruction.
#[derive(Clone, Copy, PartialEq, Eq, Structural)]
pub enum IntOperand {
    /// An SSA integer value defined by the instruction with this id.
    Defined(u64),
    /// A constant integer, sign-extended to 64 bits.
    Constant(i64),
    /// Anything else (an argument, a constant expression, ...).
    OtherInt,
}

/// An SSA value of LLVM type `double`. `key` identifies the value (two
/// operands carry the same key exactly when they are the same LLVM value);
/// `constant` holds the value's rendering as a Quil numeric literal when
/// the value is a constant.
pub struct DoubleWord {
    pub key: u64,
    pub constant: Option<String>,
}

/// Spec-level mirror of [`DoubleWord`].
pub ghost struct DoubleWordView {
    pub key: u64,
    pub constant: Option<Seq<char>>,
}

impl View for DoubleWord {
    type V = DoubleWordView;

    open spec fn view(&self) -> DoubleWordView {
        DoubleWordView { key: self.key, constant: self.constant.deep_view() }
    }
}

impl DeepView for DoubleWord {
    type V = DoubleWordView;

    open spec fn deep_view(&self) -> DoubleWordView {
        self.view()
    }
}

/// A call operand as the decoder receives it.
pub enum RawOperand {
    /// A pointer whose pointee is a named struct; `address` is the pointer's
    /// integer value when it is a non-negative constant.
    StructPointer { struct_name: Vec<u8>, address: Option<u64> },
    /// An operand of type `double`.
    DoubleOperand(DoubleWord),
    /// A pointer that is itself the result of the instruction with this id.
    InstructionPointer(u64),
    /// A pointer of any other shape.
    OtherPointer,
    /// An operand that is neither a pointer nor a double.
    OtherOperand,
}

/// Spec-level mirror of [`RawOperand`].
pub ghost enum RawOperandView {
    StructPointer { struct_name: Seq<u8>, address: Option<u64> },
    DoubleOperand(DoubleWordView),
    InstructionPointer(u64),
    OtherPointer,
    OtherOperand,
}

impl View for RawOperand {
    type V = RawOperandView;

    open spec fn view(&self) -> RawOperandView {
        match self {
            RawOperand::StructPointer { struct_name, address } => RawOperandView::StructPointer {
                struct_name: struct_name@,
                address: *address,
            },
            RawOperand::DoubleOperand(d) => RawOperandView::DoubleOperand(d@),
            RawOperand::InstructionPointer(id) => RawOperandView::InstructionPointer(*id),
            RawOperand::OtherPointer => RawOperandView::OtherPointer,
            RawOperand::OtherOperand => RawOperandView::OtherOperand,
        }
    }
}

impl DeepView for RawOperand {
    type V = RawOperandView;

    open spec fn deep_view(&self) -> RawOperandView {
        self.view()
    }
}

/// One instruction of a basic block, reduced to what the matchers inspect.
pub enum QirInstruction {
    /// A `phi` defining the SSA value with this id.
    Phi { id: u64 },
    /// A direct or indirect call. `callee` is the called symbol's name when
    /// the call is direct; `operands` are the arguments, in order.
    Call { id: u64, callee: Option<Vec<u8>>, operands: Vec<RawOperand> },
    /// An integer `add` defining `id`.
    Add { id: u64, lhs: IntOperand, rhs: IntOperand },
    /// An integer comparison defining `id`.
    ICmp { id: u64, lhs: IntOperand, rhs: IntOperand },
    /// A conditional branch; the targets are block names.
    CondBr { condition: IntOperand, then_target: Vec<u8>, else_target: Vec<u8> },
    /// A return (void or of an integer).
    Ret,
    /// Any other instruction, identified by the value it defines.
    Other { id: u64 },
}

/// Spec-level mirror of [`QirInstruction`].
pub ghost enum QirInstructionView {
    Phi { id: u64 },
    Call { id: u64, callee: Option<Seq<u8>>, operands: Seq<RawOperandView> },
    Add { id: u64, lhs: IntOperand, rhs: IntOperand },
    ICmp { id: u64, lhs: IntOperand, rhs: IntOperand },
    CondBr { condition: IntOperand, then_target: Seq<u8>, else_target: Seq<u8> },
    Ret,
    Other { id: u64 },
}

impl View for QirInstruction {
    type V = QirInstructionView;

    open spec fn view(&self) -> QirInstructionView {
        match self {
            QirInstruction::Phi { id } => QirInstructionView::Phi { id: *id },
            QirInstruction::Call { id, callee, operands } => QirInstructionView::Call {
                id: *id,
                callee: callee.deep_view(),
                operands: operands.deep_view(),
            },
            QirInstruction::Add { id, lhs, rhs } => QirInstructionView::Add {
                id: *id,
                lhs: *lhs,
                rhs: *rhs,
            },
            QirInstruction::ICmp { id, lhs, rhs } => QirInstructionView::ICmp {
                id: *id,
                lhs: *lhs,
                rhs: *rhs,
            },
            QirInstruction::CondBr { condition, then_target, else_target } => {
                QirInstructionView::CondBr {
                    condition: *condition,
                    then_target: then_target@,
                    else_target: else_target@,
                }
            },
            QirInstruction::Ret => QirInstructionView::Ret,
            QirInstruction::Other { id } => QirInstructionView::Other { id: *id },
        }
    }
}

impl DeepView for QirInstruction {
    type V = QirInstructionView;

    open spec fn deep_view(&self) -> QirInstructionView {
        self.view()
    }
}

/// The declared type of one parameter of a function.
pub enum ParamType {
    /// LLVM `double`.
    DoubleParam,
    /// A pointer to the named opaque struct.
    PointerTo(Vec<u8>),
    /// Any other type.
    OtherType,
}

/// Spec-level mirror of [`ParamType`].
pub ghost enum ParamTypeView {
    DoubleParam,
    PointerTo(Seq<u8>),
    OtherType,
}

impl View for ParamType {
    type V = ParamTypeView;

    open spec fn view(&self) -> ParamTypeView {
        match self {
            ParamType::DoubleParam => ParamTypeView::DoubleParam,
            ParamType::PointerTo(name) => ParamTypeView::PointerTo(name@),
            ParamType::OtherType => ParamTypeView::OtherType,
        }
    }
}

impl DeepView for ParamType {
    type V = ParamTypeView;

    open spec fn deep_view(&self) -> ParamTypeView {
        self.view()
    }
}

/// A function's return type, reduced to what the engine distinguishes.
#[derive(Clone, Copy, PartialEq, Eq, Structural)]
pub enum ReturnType {
    Void,
    I64,
    OtherReturn,
}

/// One basic block: its name and its instructions, in order.
pub struct QirBlock {
    pub name: Vec<u8>,
    pub instructions: Vec<QirInstruction>,
}

/// Spec-level mirror of [`QirBlock`].
pub ghost struct QirBlockView {
    pub name: Seq<u8>,
    pub instructions: Seq<QirInstructionView>,
}

impl View for QirBlock {
    type V = QirBlockView;

    open spec fn view(&self) -> QirBlockView {
        QirBlockView { name: self.name@, instructions: self.instructions.deep_view() }
    }
}

impl DeepView for QirBlock {
    type V = QirBlockView;

    open spec fn deep_view(&self) -> QirBlockView {
        self.view()
    }
}

/// One function of the module. A declaration has no blocks; a definition
/// has at least one, the first being its entry block.
pub struct QirFunction {
    pub name: Vec<u8>,
    /// Whether the function carries the string attribute `EntryPoint`.
    pub has_entry_point_attribute: bool,
    pub param_types: Vec<ParamType>,
    pub return_type: ReturnType,
    pub is_var_arg: bool,
    pub blocks: Vec<QirBlock>,
}

/// Spec-level mirror of [`QirFunction`].
pub ghost struct QirFunctionView {
    pub name: Seq<u8>,
    pub has_entry_point_attribute: bool,
    pub param_types: Seq<ParamTypeView>,
    pub return_type: ReturnType,
    pub is_var_arg: bool,
    pub blocks: Seq<QirBlockView>,
}

impl View for QirFunction {
    type V = QirFunctionView;

    open spec fn view(&self) -> QirFunctionView {
        QirFunctionView {
            name: self.name@,
            has_entry_point_attribute: self.has_entry_point_attribute,
            param_types: self.param_types.deep_view(),
            return_type: self.return_type,
            is_var_arg: self.is_var_arg,
            blocks: self.blocks.deep_view(),
        }
    }
}

impl DeepView for QirFunction {
    type V = QirFunctionView;

    open spec fn deep_view(&self) -> QirFunctionView {
        self.view()
    }
}

/// The functions of a module, in module order.
pub struct QirModule {
    pub functions: Vec<QirFunction>,
}

/// Spec-level mirror of [`QirModule`].
pub ghost struct QirModuleView {
    pub functions: Seq<QirFunctionView>,
}

impl View for QirModule {
    type V = QirModuleView;

    open spec fn view(&self) -> QirModuleView {
        QirModuleView { functions: self.functions.deep_view() }
    }
}

/// The module holds a definition (a function with at least one block) of
/// this name.
pub open spec fn module_defines(m: QirModuleView, name: Seq<u8>) -> bool {
    exists|j: int|
        0 <= j < m.functions.len() && m.functions[j].name == name && m.functions[j].blocks.len()
            > 0
}

/// Index of the first block from `i` on with the given name.
pub open spec fn first_block_named(blocks: Seq<QirBlockView>, name: Seq<u8>, i: int) -> Option<
    int,
>
    decreases blocks.len() - i,
{
    if i >= blocks.len() {
        None
    } else if blocks[i].name == name {
        Some(i)
    } else {
        first_block_named(blocks, name, i + 1)
    }
}

impl QirFunction {
    /// Find the first basic block with the given name.
    pub fn find_block(&self, name: &str) -> (r: Option<usize>)
        ensures
            match r {
                Some(i) => first_block_named(self@.blocks, name.spec_bytes(), 0) == Some(i as int)
                    && (i as int) < self@.blocks.len(),
                None => first_block_named(self@.blocks, name.spec_bytes(), 0) is None,
            },
    {
        let n = self.blocks.len();
        let mut i: usize = 0;
        while i < n
            invariant
                i <= n,
                n == self.blocks@.len(),
                self@.blocks.len() == n,
                first_block_named(self@.blocks, name.spec_bytes(), 0) == first_block_named(
                    self@.blocks,
                    name.spec_bytes(),
                    i as int,
                ),
            decreases n - i,
        {
            proof {
                assert(self@.blocks[i as int] == self.blocks@[i as int]@);
            }
            if crate::bytes::bytes_eq_str(self.blocks[i].name.as_slice(), name) {
                return Some(i);
            }
            i += 1;
        }
        None
    }
}

/// Index of the first definition of this name.
pub open spec fn first_definition_index(m: QirModuleView, name: Seq<u8>, i: int) -> Option<int>
    decreases m.functions.len() - i,
{
    if i >= m.functions.len() {
        None
    } else if m.functions[i].name == name && m.functions[i].blocks.len() > 0 {
        Some(i)
    } else {
        first_definition_index(m, name, i + 1)
    }
}

impl QirModule {
    /// Find the first definition (a function with blocks) of this name.
    pub fn find_definition(&self, name: &Vec<u8>) -> (r: Option<usize>)
        ensures
            match r {
                Some(i) => first_definition_index(self@, name@, 0) == Some(i as int) && (i as int)
                    < self@.functions.len(),
                None => first_definition_index(self@, name@, 0) is None,
            },
    {
        let n = self.functions.len();
        let mut i: usize = 0;
        while i < n
            invariant
                i <= n,
                n == self.functions@.len(),
                self@.functions.len() == n,
                first_definition_index(self@, name@, 0) == first_definition_index(
                    self@,
                    name@,
                    i as int,
                ),
            decreases n - i,
        {
            proof {
                assert(self@.functions[i as int] == self.functions@[i as int]@);
            }
            let f = &self.functions[i];
            if f.blocks.len() > 0 && crate::bytes::bytes_eq(f.name.as_slice(), name.as_slice()) {
                return Some(i);
            }
            i += 1;
        }
        None
    }
}

/// A definition index exists exactly when the module defines the name.
pub proof fn lemma_definition_index_defines(m: QirModuleView, name: Seq<u8>, i: int)
    requires
        0 <= i <= m.functions.len(),
    ensures
        first_definition_index(m, name, i) matches Some(j) ==> i <= j < m.functions.len()
            && m.functions[j].name == name && m.functions[j].blocks.len() > 0,
        first_definition_index(m, name, i) is None ==> forall|j: int|
            i <= j < m.functions.len() ==> !(m.functions[j].name == name
                && #[trigger] m.functions[j].blocks.len() > 0),
    decreases m.functions.len() - i,
{
    if i < m.functions.len() {
        lemma_definition_index_defines(m, name, i + 1);
    }
}

impl QirModule {
    /// Whether the module holds a definition of this name.
    pub fn defines_function(&self, name: &Vec<u8>) -> (r: bool)
        ensures
            r == module_defines(self@, name@),
    {
        let mut i: usize = 0;
        while i < self.functions.len()
            invariant
                i <= self.functions@.len(),
                forall|j: int|
                    0 <= j < i ==> !(#[trigger] self@.functions[j].name == name@
                        && self@.functions[j].blocks.len() > 0),
                self@.functions.len() == self.functions@.len(),
            decreases self.functions@.len() - i,
        {
            let f = &self.functions[i];
            if f.blocks.len() > 0 && crate::bytes::bytes_eq(f.name.as_slice(), name.as_slice()) {
                assert(self@.functions[i as int].name == name@);
                return true;
            }
            proof {
                assert(self@.functions[i as int] == self.functions@[i as int]@);
            }
            i += 1;
        }
        false
    }
}

} // verus!
