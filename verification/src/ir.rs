//! The data model of a module: operands, instructions and sections, each with
//! the mathematical view that the contracts of the passes are stated over.

use rspirv::spirv;
use vstd::prelude::*;

verus! {

// The opcodes that the passes and the type model know, by their SPIR-V numbers.
/// No operation; also the marker that a deleted instruction is overwritten with.
pub const OP_NOP: u32 = 0;
/// The invocation of an instruction of an extended instruction set.
pub const OP_EXT_INST: u32 = 12;
pub const OP_TYPE_VOID: u32 = 19;
pub const OP_TYPE_BOOL: u32 = 20;
pub const OP_TYPE_INT: u32 = 21;
pub const OP_TYPE_FLOAT: u32 = 22;
pub const OP_TYPE_VECTOR: u32 = 23;
pub const OP_TYPE_MATRIX: u32 = 24;
pub const OP_TYPE_IMAGE: u32 = 25;
pub const OP_TYPE_SAMPLER: u32 = 26;
pub const OP_TYPE_SAMPLED_IMAGE: u32 = 27;
pub const OP_TYPE_ARRAY: u32 = 28;
pub const OP_TYPE_RUNTIME_ARRAY: u32 = 29;
pub const OP_TYPE_STRUCT: u32 = 30;
pub const OP_TYPE_OPAQUE: u32 = 31;
pub const OP_TYPE_POINTER: u32 = 32;
pub const OP_TYPE_FUNCTION: u32 = 33;
pub const OP_TYPE_EVENT: u32 = 34;
pub const OP_TYPE_DEVICE_EVENT: u32 = 35;
pub const OP_TYPE_RESERVE_ID: u32 = 36;
pub const OP_TYPE_QUEUE: u32 = 37;
pub const OP_TYPE_PIPE: u32 = 38;
pub const OP_TYPE_FORWARD_POINTER: u32 = 39;
pub const OP_CONSTANT: u32 = 43;
pub const OP_TYPE_PIPE_STORAGE: u32 = 322;
pub const OP_TYPE_NAMED_BARRIER: u32 = 327;

/// One operand of an instruction. The kinds that the passes and the type model
/// read are spelled out, with the names that `rspirv` gives them. An operand
/// of any other kind is carried as `Other`; one of a kind that is spelled out
/// is not to be wrapped in `Other`, where the passes would not look for it.
#[derive(Debug, PartialEq)]
pub enum Argument {
    IdRef(u32),
    IdScope(u32),
    IdMemorySemantics(u32),
    LiteralInt32(u32),
    LiteralInt64(u64),
    LiteralString(String),
    Capability(spirv::Capability),
    StorageClass(spirv::StorageClass),
    Dim(spirv::Dim),
    ImageFormat(spirv::ImageFormat),
    AccessQualifier(spirv::AccessQualifier),
    Other(rspirv::dr::Operand),
}

/// An operand as a mathematical value.
pub enum ArgumentView {
    IdRef(u32),
    IdScope(u32),
    IdMemorySemantics(u32),
    LiteralInt32(u32),
    LiteralInt64(u64),
    LiteralString(Seq<char>),
    Capability(spirv::Capability),
    StorageClass(spirv::StorageClass),
    Dim(spirv::Dim),
    ImageFormat(spirv::ImageFormat),
    AccessQualifier(spirv::AccessQualifier),
    Other(rspirv::dr::Operand),
}

impl View for Argument {
    type V = ArgumentView;

    open spec fn view(&self) -> ArgumentView {
        match *self {
            Argument::IdRef(w) => ArgumentView::IdRef(w),
            Argument::IdScope(w) => ArgumentView::IdScope(w),
            Argument::IdMemorySemantics(w) => ArgumentView::IdMemorySemantics(w),
            Argument::LiteralInt32(w) => ArgumentView::LiteralInt32(w),
            Argument::LiteralInt64(w) => ArgumentView::LiteralInt64(w),
            Argument::LiteralString(s) => ArgumentView::LiteralString(s@),
            Argument::Capability(c) => ArgumentView::Capability(c),
            Argument::StorageClass(c) => ArgumentView::StorageClass(c),
            Argument::Dim(d) => ArgumentView::Dim(d),
            Argument::ImageFormat(f) => ArgumentView::ImageFormat(f),
            Argument::AccessQualifier(a) => ArgumentView::AccessQualifier(a),
            Argument::Other(o) => ArgumentView::Other(o),
        }
    }
}

impl DeepView for Argument {
    type V = ArgumentView;

    open spec fn deep_view(&self) -> ArgumentView {
        self@
    }
}

impl Clone for Argument {
    fn clone(&self) -> (copy: Argument)
        ensures
            copy@ == self@,
    {
        match self {
            Argument::IdRef(w) => Argument::IdRef(*w),
            Argument::IdScope(w) => Argument::IdScope(*w),
            Argument::IdMemorySemantics(w) => Argument::IdMemorySemantics(*w),
            Argument::LiteralInt32(w) => Argument::LiteralInt32(*w),
            Argument::LiteralInt64(w) => Argument::LiteralInt64(*w),
            Argument::LiteralString(s) => Argument::LiteralString(s.clone()),
            Argument::Capability(c) => Argument::Capability(*c),
            Argument::StorageClass(c) => Argument::StorageClass(*c),
            Argument::Dim(d) => Argument::Dim(*d),
            Argument::ImageFormat(f) => Argument::ImageFormat(*f),
            Argument::AccessQualifier(a) => Argument::AccessQualifier(*a),
            Argument::Other(o) => Argument::Other(o.clone()),
        }
    }
}

/// An instruction: an opcode, the identifier of its result type and of its
/// result where it has them, and its operands in order.
#[derive(Debug, PartialEq)]
pub struct Instruction {
    pub opcode: u32,
    pub result_type: Option<u32>,
    pub result_id: Option<u32>,
    pub operands: Vec<Argument>,
}

/// An instruction as a mathematical value.
pub struct InstructionView {
    pub opcode: u32,
    pub result_type: Option<u32>,
    pub result_id: Option<u32>,
    pub operands: Seq<ArgumentView>,
}

impl View for Instruction {
    type V = InstructionView;

    open spec fn view(&self) -> InstructionView {
        InstructionView {
            opcode: self.opcode,
            result_type: self.result_type,
            result_id: self.result_id,
            operands: self.operands.deep_view(),
        }
    }
}

impl DeepView for Instruction {
    type V = InstructionView;

    open spec fn deep_view(&self) -> InstructionView {
        self@
    }
}

/// The marker that takes the place of a deleted instruction.
pub open spec fn nop() -> InstructionView {
    InstructionView { opcode: OP_NOP, result_type: None, result_id: None, operands: Seq::empty() }
}

impl Instruction {
    /// An instruction of the given parts.
    pub fn new(
        opcode: u32,
        result_type: Option<u32>,
        result_id: Option<u32>,
        operands: Vec<Argument>,
    ) -> (inst: Instruction)
        ensures
            inst.opcode == opcode,
            inst.result_type == result_type,
            inst.result_id == result_id,
            inst.operands == operands,
    {
        Instruction { opcode, result_type, result_id, operands }
    }

    /// A fresh deletion marker.
    pub fn nop() -> (inst: Instruction)
        ensures
            inst@ == nop(),
    {
        let inst = Instruction { opcode: OP_NOP, result_type: None, result_id: None, operands: Vec::new() };
        assert(inst@.operands =~= Seq::empty());
        inst
    }
}

impl Clone for Instruction {
    fn clone(&self) -> (copy: Instruction)
        ensures
            copy@ == self@,
    {
        let mut operands: Vec<Argument> = Vec::new();
        let mut i: usize = 0;
        while i < self.operands.len()
            invariant
                i <= self.operands.len(),
                operands.len() == i,
                forall|j: int| 0 <= j < i ==> operands[j]@ == self.operands[j]@,
            decreases self.operands.len() - i,
        {
            operands.push(self.operands[i].clone());
            i += 1;
        }
        assert(operands.deep_view() =~= self.operands.deep_view());
        Instruction {
            opcode: self.opcode,
            result_type: self.result_type,
            result_id: self.result_id,
            operands,
        }
    }
}

/// A module, as far as the passes are concerned: the three sections that they
/// deduplicate and, in `others`, every remaining instruction of the module.
#[derive(Debug, PartialEq)]
pub struct Module {
    pub capabilities: Vec<Instruction>,
    pub ext_inst_imports: Vec<Instruction>,
    pub types_global_values: Vec<Instruction>,
    pub others: Vec<Instruction>,
}

/// A module as a mathematical value.
pub struct ModuleView {
    pub capabilities: Seq<InstructionView>,
    pub ext_inst_imports: Seq<InstructionView>,
    pub types_global_values: Seq<InstructionView>,
    pub others: Seq<InstructionView>,
}

impl Module {
    /// A module without instructions.
    pub fn new() -> (module: Module)
        ensures
            module@ == (ModuleView {
                capabilities: Seq::empty(),
                ext_inst_imports: Seq::empty(),
                types_global_values: Seq::empty(),
                others: Seq::empty(),
            }),
    {
        let module = Module {
            capabilities: Vec::new(),
            ext_inst_imports: Vec::new(),
            types_global_values: Vec::new(),
            others: Vec::new(),
        };
        assert(module.capabilities.deep_view() =~= Seq::empty());
        assert(module.ext_inst_imports.deep_view() =~= Seq::empty());
        assert(module.types_global_values.deep_view() =~= Seq::empty());
        assert(module.others.deep_view() =~= Seq::empty());
        module
    }
}

impl View for Module {
    type V = ModuleView;

    open spec fn view(&self) -> ModuleView {
        ModuleView {
            capabilities: self.capabilities.deep_view(),
            ext_inst_imports: self.ext_inst_imports.deep_view(),
            types_global_values: self.types_global_values.deep_view(),
            others: self.others.deep_view(),
        }
    }
}

} // verus!
