//! Translation of a type-declaring instruction into the type model.

use crate::def::{definition_of, DefAnalyzer};
use crate::ir::{
    Argument, ArgumentView, Instruction, InstructionView, OP_CONSTANT, OP_TYPE_ARRAY,
    OP_TYPE_BOOL, OP_TYPE_DEVICE_EVENT, OP_TYPE_EVENT, OP_TYPE_FLOAT, OP_TYPE_FORWARD_POINTER,
    OP_TYPE_FUNCTION, OP_TYPE_IMAGE, OP_TYPE_INT, OP_TYPE_MATRIX, OP_TYPE_NAMED_BARRIER,
    OP_TYPE_OPAQUE, OP_TYPE_PIPE, OP_TYPE_PIPE_STORAGE, OP_TYPE_POINTER, OP_TYPE_QUEUE,
    OP_TYPE_RESERVE_ID, OP_TYPE_RUNTIME_ARRAY, OP_TYPE_SAMPLED_IMAGE, OP_TYPE_SAMPLER,
    OP_TYPE_STRUCT, OP_TYPE_VECTOR, OP_TYPE_VOID,
};
use crate::ty::{models, AggregateModel, AggregateType, ScalarModel, ScalarType};
use rspirv::spirv;
use vstd::prelude::*;

verus! {

broadcast use vstd::std_specs::vec::axiom_vec_index_decreases;

/// Why an instruction has no translation.
#[derive(Clone, Copy, Debug, PartialEq, Eq, Structural)]
pub enum TypeError {
    /// An operand that the opcode calls for is missing or of another kind, a
    /// reference has no definition, or what must be a type is none.
    Malformed,
    /// The length of an array is not given by a plain constant.
    Unsupported,
    /// The type is nested more deeply than the translation was allowed to go.
    TooDeep,
}

/// The operand at `index`, if there is one.
pub open spec fn at(operands: Seq<ArgumentView>, index: int) -> Option<ArgumentView> {
    if 0 <= index < operands.len() {
        Some(operands[index])
    } else {
        None
    }
}

/// The operand as a 32-bit literal.
pub open spec fn literal_u32(operand: Option<ArgumentView>) -> Result<u32, TypeError> {
    match operand {
        Some(ArgumentView::LiteralInt32(value)) => Ok(value),
        _ => Err(TypeError::Malformed),
    }
}

/// The operand as an integer literal of either width.
pub open spec fn literal_u64(operand: Option<ArgumentView>) -> Result<u64, TypeError> {
    match operand {
        Some(ArgumentView::LiteralInt32(value)) => Ok(value as u64),
        Some(ArgumentView::LiteralInt64(value)) => Ok(value),
        _ => Err(TypeError::Malformed),
    }
}

/// The operand as a storage class.
pub open spec fn storage_class_of(operand: Option<ArgumentView>) -> Result<
    spirv::StorageClass,
    TypeError,
> {
    match operand {
        Some(ArgumentView::StorageClass(class)) => Ok(class),
        _ => Err(TypeError::Malformed),
    }
}

/// What the instruction translates to as a scalar type: `Ok(None)` where its
/// opcode declares no scalar type, an error where the opcode does and the
/// operands are not those that it calls for.
pub open spec fn scalar_translation(inst: InstructionView) -> Result<Option<ScalarModel>, TypeError> {
    let operands = inst.operands;
    if inst.opcode == OP_TYPE_VOID {
        Ok(Some(ScalarModel::Void))
    } else if inst.opcode == OP_TYPE_BOOL {
        Ok(Some(ScalarModel::Bool))
    } else if inst.opcode == OP_TYPE_EVENT {
        Ok(Some(ScalarModel::Event))
    } else if inst.opcode == OP_TYPE_DEVICE_EVENT {
        Ok(Some(ScalarModel::DeviceEvent))
    } else if inst.opcode == OP_TYPE_RESERVE_ID {
        Ok(Some(ScalarModel::ReserveId))
    } else if inst.opcode == OP_TYPE_QUEUE {
        Ok(Some(ScalarModel::Queue))
    } else if inst.opcode == OP_TYPE_PIPE {
        Ok(Some(ScalarModel::Pipe))
    } else if inst.opcode == OP_TYPE_PIPE_STORAGE {
        Ok(Some(ScalarModel::PipeStorage))
    } else if inst.opcode == OP_TYPE_NAMED_BARRIER {
        Ok(Some(ScalarModel::NamedBarrier))
    } else if inst.opcode == OP_TYPE_SAMPLER {
        Ok(Some(ScalarModel::Sampler))
    } else if inst.opcode == OP_TYPE_FORWARD_POINTER {
        match storage_class_of(at(operands, 0)) {
            Ok(storage_class) => Ok(Some(ScalarModel::ForwardPointer { storage_class })),
            Err(e) => Err(e),
        }
    } else if inst.opcode == OP_TYPE_INT {
        match literal_u32(at(operands, 0)) {
            Ok(width) => match literal_u32(at(operands, 1)) {
                Ok(sign) => Ok(Some(ScalarModel::Int { width, signed: sign != 0 })),
                Err(e) => Err(e),
            },
            Err(e) => Err(e),
        }
    } else if inst.opcode == OP_TYPE_FLOAT {
        match literal_u32(at(operands, 0)) {
            Ok(width) => Ok(Some(ScalarModel::Float { width })),
            Err(e) => Err(e),
        }
    } else if inst.opcode == OP_TYPE_OPAQUE {
        match at(operands, 0) {
            Some(ArgumentView::LiteralString(name)) => Ok(Some(ScalarModel::Opaque { name })),
            _ => Err(TypeError::Malformed),
        }
    } else {
        Ok(None)
    }
}

/// The model of what a scalar translation returned.
pub open spec fn scalar_outcome(result: Result<Option<ScalarType>, TypeError>) -> Result<
    Option<ScalarModel>,
    TypeError,
> {
    match result {
        Ok(Some(ty)) => Ok(Some(ty@)),
        Ok(None) => Ok(None),
        Err(e) => Err(e),
    }
}

/// The model of what a translation returned.
pub open spec fn outcome(result: Result<Option<AggregateType>, TypeError>) -> Result<
    Option<AggregateModel>,
    TypeError,
> {
    match result {
        Ok(Some(ty)) => Ok(Some(ty@)),
        Ok(None) => Ok(None),
        Err(e) => Err(e),
    }
}

/// What the instruction translates to, going at most `depth` levels deep:
/// `Ok(Some(..))` for a type, `Ok(None)` where the instruction declares no
/// type, and an error where it declares one that cannot be translated.
pub open spec fn translation(
    defs: Map<u32, InstructionView>,
    inst: InstructionView,
    depth: nat,
) -> Result<Option<AggregateModel>, TypeError>
    decreases depth, 0nat, 0nat,
{
    if depth == 0 {
        Err(TypeError::TooDeep)
    } else {
        let inner = (depth - 1) as nat;
        if inst.opcode == OP_TYPE_ARRAY {
            array_type(defs, inst.operands, inner)
        } else if inst.opcode == OP_TYPE_POINTER {
            pointer_type(defs, inst.operands, inner)
        } else if inst.opcode == OP_TYPE_RUNTIME_ARRAY || inst.opcode == OP_TYPE_VECTOR
            || inst.opcode == OP_TYPE_MATRIX || inst.opcode == OP_TYPE_SAMPLED_IMAGE {
            wrapper_type(defs, inst.operands, inner)
        } else if inst.opcode == OP_TYPE_STRUCT {
            struct_type(defs, inst.operands, inner)
        } else if inst.opcode == OP_TYPE_FUNCTION {
            function_type(defs, inst.operands, inner)
        } else if inst.opcode == OP_TYPE_IMAGE {
            image_type(defs, inst.operands, inner)
        } else {
            match scalar_translation(inst) {
                Err(e) => Err(e),
                Ok(Some(scalar)) => Ok(Some(AggregateModel::Scalar(scalar))),
                Ok(None) => Ok(None),
            }
        }
    }
}

/// An array: the element type is the first operand, and the second refers
/// to the constant that gives the length. A length that is given in another
/// way is not supported.
pub open spec fn array_type(
    defs: Map<u32, InstructionView>,
    operands: Seq<ArgumentView>,
    depth: nat,
) -> Result<Option<AggregateModel>, TypeError>
    decreases depth, 3nat, 0nat,
{
    match at(operands, 1) {
        None => Err(TypeError::Malformed),
        Some(length) => match definition_of(defs, length) {
            None => Err(TypeError::Malformed),
            Some(constant) => if constant.opcode != OP_CONSTANT {
                Err(TypeError::Unsupported)
            } else {
                match literal_u64(at(constant.operands, 0)) {
                    Err(e) => Err(e),
                    Ok(len) => match required_type(defs, at(operands, 0), depth) {
                        Err(e) => Err(e),
                        Ok(ty) => Ok(Some(AggregateModel::Array { ty: Box::new(ty), len })),
                    },
                }
            },
        },
    }
}

/// A pointer: a storage class and the type pointed to.
pub open spec fn pointer_type(
    defs: Map<u32, InstructionView>,
    operands: Seq<ArgumentView>,
    depth: nat,
) -> Result<Option<AggregateModel>, TypeError>
    decreases depth, 3nat, 0nat,
{
    match storage_class_of(at(operands, 0)) {
        Err(e) => Err(e),
        Ok(storage_class) => match required_type(defs, at(operands, 1), depth) {
            Err(e) => Err(e),
            Ok(ty) => Ok(Some(AggregateModel::Pointer { ty: Box::new(ty), storage_class })),
        },
    }
}

/// A vector, a matrix, a runtime array or a sampled image: an aggregate of
/// the one type that the first operand refers to, and an empty aggregate
/// where that is no type. Counts and dimensions are not kept.
pub open spec fn wrapper_type(
    defs: Map<u32, InstructionView>,
    operands: Seq<ArgumentView>,
    depth: nat,
) -> Result<Option<AggregateModel>, TypeError>
    decreases depth, 3nat, 0nat,
{
    match referenced_type(defs, at(operands, 0), depth) {
        Err(e) => Err(e),
        Ok(Some(ty)) => Ok(Some(AggregateModel::Aggregate(seq![ty]))),
        Ok(None) => Ok(Some(AggregateModel::Aggregate(Seq::empty()))),
    }
}

/// A structure: the aggregate of its member types.
pub open spec fn struct_type(
    defs: Map<u32, InstructionView>,
    operands: Seq<ArgumentView>,
    depth: nat,
) -> Result<Option<AggregateModel>, TypeError>
    decreases depth, 3nat, 0nat,
{
    match member_types(defs, operands, depth) {
        Err(e) => Err(e),
        Ok(members) => Ok(Some(AggregateModel::Aggregate(members))),
    }
}

/// A function type: the first operand is the type returned, the others are
/// the types of the parameters.
pub open spec fn function_type(
    defs: Map<u32, InstructionView>,
    operands: Seq<ArgumentView>,
    depth: nat,
) -> Result<Option<AggregateModel>, TypeError>
    decreases depth, 3nat, 0nat,
{
    match required_type(defs, at(operands, 0), depth) {
        Err(e) => Err(e),
        Ok(result) => match member_types(defs, operands.skip(1), depth) {
            Err(e) => Err(e),
            Ok(parameters) => Ok(Some(AggregateModel::Function(parameters, Box::new(result)))),
        },
    }
}

/// An image: the sampled type and the details.
pub open spec fn image_type(
    defs: Map<u32, InstructionView>,
    operands: Seq<ArgumentView>,
    depth: nat,
) -> Result<Option<AggregateModel>, TypeError>
    decreases depth, 3nat, 0nat,
{
    match required_type(defs, at(operands, 0), depth) {
        Err(e) => Err(e),
        Ok(ty) => match image_details(operands) {
            Err(e) => Err(e),
            Ok(details) => Ok(
                Some(
                    AggregateModel::Image {
                        ty: Box::new(ty),
                        dim: details.dim,
                        depth: details.depth,
                        arrayed: details.arrayed,
                        multi_sampled: details.multi_sampled,
                        sampled: details.sampled,
                        format: details.format,
                        access: details.access,
                    },
                ),
            ),
        },
    }
}

/// What the instruction that an operand refers to translates to. The
/// operand must be there, be a reference and have a definition.
pub open spec fn referenced_type(
    defs: Map<u32, InstructionView>,
    operand: Option<ArgumentView>,
    depth: nat,
) -> Result<Option<AggregateModel>, TypeError>
    decreases depth, 1nat, 0nat,
{
    match operand {
        None => Err(TypeError::Malformed),
        Some(operand) => match definition_of(defs, operand) {
            None => Err(TypeError::Malformed),
            Some(inst) => translation(defs, inst, depth),
        },
    }
}

/// The type that an operand refers to. What it refers to must be a type.
pub open spec fn required_type(
    defs: Map<u32, InstructionView>,
    operand: Option<ArgumentView>,
    depth: nat,
) -> Result<AggregateModel, TypeError>
    decreases depth, 1nat, 1nat,
{
    match referenced_type(defs, operand, depth) {
        Err(e) => Err(e),
        Ok(Some(ty)) => Ok(ty),
        Ok(None) => Err(TypeError::Malformed),
    }
}

/// The types that the operands refer to, in order. Each must be a type; the
/// first that is none decides the error.
pub open spec fn member_types(
    defs: Map<u32, InstructionView>,
    operands: Seq<ArgumentView>,
    depth: nat,
) -> Result<Seq<AggregateModel>, TypeError>
    decreases depth, 2nat, operands.len(),
{
    if operands.len() == 0 {
        Ok(Seq::empty())
    } else {
        match member_types(defs, operands.drop_last(), depth) {
            Err(e) => Err(e),
            Ok(members) => match required_type(defs, Some(operands.last()), depth) {
                Err(e) => Err(e),
                Ok(ty) => Ok(members.push(ty)),
            },
        }
    }
}

/// What an image declaration says besides its sampled type.
pub struct ImageDetails {
    pub dim: spirv::Dim,
    pub depth: u32,
    pub arrayed: u32,
    pub multi_sampled: u32,
    pub sampled: u32,
    pub format: spirv::ImageFormat,
    pub access: Option<spirv::AccessQualifier>,
}

/// The details of an image declaration, read from its operands. The access
/// qualifier is optional: an eighth operand of another kind counts as none.
pub open spec fn image_details(operands: Seq<ArgumentView>) -> Result<ImageDetails, TypeError> {
    match at(operands, 1) {
        Some(ArgumentView::Dim(dim)) => match literal_u32(at(operands, 2)) {
            Err(e) => Err(e),
            Ok(depth) => match literal_u32(at(operands, 3)) {
                Err(e) => Err(e),
                Ok(arrayed) => match literal_u32(at(operands, 4)) {
                    Err(e) => Err(e),
                    Ok(multi_sampled) => match literal_u32(at(operands, 5)) {
                        Err(e) => Err(e),
                        Ok(sampled) => match at(operands, 6) {
                            Some(ArgumentView::ImageFormat(format)) => Ok(
                                ImageDetails {
                                    dim,
                                    depth,
                                    arrayed,
                                    multi_sampled,
                                    sampled,
                                    format,
                                    access: match at(operands, 7) {
                                        Some(ArgumentView::AccessQualifier(access)) => Some(access),
                                        _ => None,
                                    },
                                },
                            ),
                            _ => Err(TypeError::Malformed),
                        },
                    },
                },
            },
        },
        _ => Err(TypeError::Malformed),
    }
}

/// The operand that a lookup found, as a mathematical value.
pub open spec fn found_view(operand: Option<&Argument>) -> Option<ArgumentView> {
    match operand {
        Some(operand) => Some(operand@),
        None => None,
    }
}

/// The operand at `index`, if there is one.
pub fn operand_at(operands: &Vec<Argument>, index: usize) -> (found: Option<&Argument>)
    ensures
        found_view(found) == at(operands.deep_view(), index as int),
{
    if index < operands.len() {
        Some(&operands[index])
    } else {
        None
    }
}

/// Reads an operand as a 32-bit literal.
pub fn extract_literal_u32(operand: Option<&Argument>) -> (value: Result<u32, TypeError>)
    ensures
        value == literal_u32(found_view(operand)),
{
    match operand {
        Some(Argument::LiteralInt32(value)) => Ok(*value),
        _ => Err(TypeError::Malformed),
    }
}

/// Reads an operand as an integer literal of either width.
pub fn extract_literal_int_as_u64(operand: Option<&Argument>) -> (value: Result<u64, TypeError>)
    ensures
        value == literal_u64(found_view(operand)),
{
    match operand {
        Some(Argument::LiteralInt32(value)) => Ok(*value as u64),
        Some(Argument::LiteralInt64(value)) => Ok(*value),
        _ => Err(TypeError::Malformed),
    }
}

/// Reads an operand as a storage class.
pub fn extract_storage_class(operand: Option<&Argument>) -> (class: Result<
    spirv::StorageClass,
    TypeError,
>)
    ensures
        class == storage_class_of(found_view(operand)),
{
    match operand {
        Some(Argument::StorageClass(class)) => Ok(*class),
        _ => Err(TypeError::Malformed),
    }
}

/// Translates an instruction that declares a scalar type. Answers `Ok(None)`
/// for an instruction of any other opcode, and an error where the operands
/// are not those that the opcode calls for.
pub fn try_trans_scalar_type(inst: &Instruction) -> (result: Result<Option<ScalarType>, TypeError>)
    ensures
        scalar_outcome(result) == scalar_translation(inst@),
{
    let opcode = inst.opcode;
    if opcode == OP_TYPE_VOID {
        Ok(Some(ScalarType::Void))
    } else if opcode == OP_TYPE_BOOL {
        Ok(Some(ScalarType::Bool))
    } else if opcode == OP_TYPE_EVENT {
        Ok(Some(ScalarType::Event))
    } else if opcode == OP_TYPE_DEVICE_EVENT {
        Ok(Some(ScalarType::DeviceEvent))
    } else if opcode == OP_TYPE_RESERVE_ID {
        Ok(Some(ScalarType::ReserveId))
    } else if opcode == OP_TYPE_QUEUE {
        Ok(Some(ScalarType::Queue))
    } else if opcode == OP_TYPE_PIPE {
        Ok(Some(ScalarType::Pipe))
    } else if opcode == OP_TYPE_PIPE_STORAGE {
        Ok(Some(ScalarType::PipeStorage))
    } else if opcode == OP_TYPE_NAMED_BARRIER {
        Ok(Some(ScalarType::NamedBarrier))
    } else if opcode == OP_TYPE_SAMPLER {
        Ok(Some(ScalarType::Sampler))
    } else if opcode == OP_TYPE_FORWARD_POINTER {
        match extract_storage_class(operand_at(&inst.operands, 0)) {
            Ok(storage_class) => Ok(Some(ScalarType::ForwardPointer { storage_class })),
            Err(e) => Err(e),
        }
    } else if opcode == OP_TYPE_INT {
        match extract_literal_u32(operand_at(&inst.operands, 0)) {
            Ok(width) => match extract_literal_u32(operand_at(&inst.operands, 1)) {
                Ok(sign) => Ok(Some(ScalarType::Int { width, signed: sign != 0 })),
                Err(e) => Err(e),
            },
            Err(e) => Err(e),
        }
    } else if opcode == OP_TYPE_FLOAT {
        match extract_literal_u32(operand_at(&inst.operands, 0)) {
            Ok(width) => Ok(Some(ScalarType::Float { width })),
            Err(e) => Err(e),
        }
    } else if opcode == OP_TYPE_OPAQUE {
        match operand_at(&inst.operands, 0) {
            Some(Argument::LiteralString(name)) => Ok(Some(ScalarType::Opaque { name: name.clone() })),
            _ => Err(TypeError::Malformed),
        }
    } else {
        Ok(None)
    }
}

/// Translates an instruction that declares a scalar type. Answers `None` for
/// an instruction of any other opcode.
pub fn trans_scalar_type(inst: &Instruction) -> (result: Option<ScalarType>)
    requires
        scalar_translation(inst@) is Ok,
    ensures
        scalar_outcome(Ok(result)) == scalar_translation(inst@),
{
    match try_trans_scalar_type(inst) {
        Ok(result) => result,
        Err(_) => None,
    }
}

/// Reads the details of an image declaration.
pub fn read_image_details(operands: &Vec<Argument>) -> (details: Result<ImageDetails, TypeError>)
    ensures
        details == image_details(operands.deep_view()),
{
    let dim = match operand_at(operands, 1) {
        Some(Argument::Dim(dim)) => *dim,
        _ => {
            return Err(TypeError::Malformed);
        },
    };
    let depth = match extract_literal_u32(operand_at(operands, 2)) {
        Ok(depth) => depth,
        Err(e) => {
            return Err(e);
        },
    };
    let arrayed = match extract_literal_u32(operand_at(operands, 3)) {
        Ok(arrayed) => arrayed,
        Err(e) => {
            return Err(e);
        },
    };
    let multi_sampled = match extract_literal_u32(operand_at(operands, 4)) {
        Ok(multi_sampled) => multi_sampled,
        Err(e) => {
            return Err(e);
        },
    };
    let sampled = match extract_literal_u32(operand_at(operands, 5)) {
        Ok(sampled) => sampled,
        Err(e) => {
            return Err(e);
        },
    };
    let format = match operand_at(operands, 6) {
        Some(Argument::ImageFormat(format)) => *format,
        _ => {
            return Err(TypeError::Malformed);
        },
    };
    let access = match operand_at(operands, 7) {
        Some(Argument::AccessQualifier(access)) => Some(*access),
        _ => None,
    };
    Ok(ImageDetails { dim, depth, arrayed, multi_sampled, sampled, format, access })
}

/// Translates an instruction that declares a type, going at most `depth`
/// levels deep. Answers `Ok(None)` for an instruction that declares no type.
pub fn try_trans_aggregate_type(def: &DefAnalyzer, inst: &Instruction, depth: usize) -> (result:
    Result<Option<AggregateType>, TypeError>)
    ensures
        outcome(result) == translation(def@, inst@, depth as nat),
    decreases depth, 0nat, 0nat,
{
    if depth == 0 {
        return Err(TypeError::TooDeep);
    }
    let inner = depth - 1;
    let opcode = inst.opcode;
    if opcode == OP_TYPE_ARRAY {
        trans_array(def, &inst.operands, inner)
    } else if opcode == OP_TYPE_POINTER {
        trans_pointer(def, &inst.operands, inner)
    } else if opcode == OP_TYPE_RUNTIME_ARRAY || opcode == OP_TYPE_VECTOR || opcode
        == OP_TYPE_MATRIX || opcode == OP_TYPE_SAMPLED_IMAGE {
        trans_wrapper(def, &inst.operands, inner)
    } else if opcode == OP_TYPE_STRUCT {
        trans_struct(def, &inst.operands, inner)
    } else if opcode == OP_TYPE_FUNCTION {
        trans_function(def, &inst.operands, inner)
    } else if opcode == OP_TYPE_IMAGE {
        trans_image(def, &inst.operands, inner)
    } else {
        match try_trans_scalar_type(inst) {
            Ok(Some(scalar)) => Ok(Some(AggregateType::Scalar(scalar))),
            Ok(None) => Ok(None),
            Err(e) => Err(e),
        }
    }
}

/// Translates an array declaration.
fn trans_array(def: &DefAnalyzer, operands: &Vec<Argument>, depth: usize) -> (result: Result<
    Option<AggregateType>,
    TypeError,
>)
    ensures
        outcome(result) == array_type(def@, operands.deep_view(), depth as nat),
    decreases depth, 3nat, 0nat,
{
    let length = match operand_at(operands, 1) {
        Some(length) => length,
        None => {
            return Err(TypeError::Malformed);
        },
    };
    let constant = match def.op_def(length) {
        Some(constant) => constant,
        None => {
            return Err(TypeError::Malformed);
        },
    };
    if constant.opcode != OP_CONSTANT {
        return Err(TypeError::Unsupported);
    }
    let len = match extract_literal_int_as_u64(operand_at(&constant.operands, 0)) {
        Ok(len) => len,
        Err(e) => {
            return Err(e);
        },
    };
    match required_type_of(def, operand_at(operands, 0), depth) {
        Ok(ty) => Ok(Some(AggregateType::Array { ty: Box::new(ty), len })),
        Err(e) => Err(e),
    }
}

/// Translates a pointer declaration.
fn trans_pointer(def: &DefAnalyzer, operands: &Vec<Argument>, depth: usize) -> (result: Result<
    Option<AggregateType>,
    TypeError,
>)
    ensures
        outcome(result) == pointer_type(def@, operands.deep_view(), depth as nat),
    decreases depth, 3nat, 0nat,
{
    let storage_class = match extract_storage_class(operand_at(operands, 0)) {
        Ok(storage_class) => storage_class,
        Err(e) => {
            return Err(e);
        },
    };
    match required_type_of(def, operand_at(operands, 1), depth) {
        Ok(ty) => Ok(Some(AggregateType::Pointer { ty: Box::new(ty), storage_class })),
        Err(e) => Err(e),
    }
}

/// Translates a vector, a matrix, a runtime array or a sampled image.
fn trans_wrapper(def: &DefAnalyzer, operands: &Vec<Argument>, depth: usize) -> (result: Result<
    Option<AggregateType>,
    TypeError,
>)
    ensures
        outcome(result) == wrapper_type(def@, operands.deep_view(), depth as nat),
    decreases depth, 3nat, 0nat,
{
    match referenced_type_of(def, operand_at(operands, 0), depth) {
        Ok(Some(ty)) => {
            let ghost model = ty@;
            let mut members: Vec<AggregateType> = Vec::new();
            members.push(ty);
            let result = AggregateType::Aggregate(members);
            assert(result@->Aggregate_0 =~= seq![model]);
            Ok(Some(result))
        },
        Ok(None) => {
            let result = AggregateType::Aggregate(Vec::new());
            assert(result@->Aggregate_0 =~= Seq::empty());
            Ok(Some(result))
        },
        Err(e) => Err(e),
    }
}

/// Translates a structure declaration.
fn trans_struct(def: &DefAnalyzer, operands: &Vec<Argument>, depth: usize) -> (result: Result<
    Option<AggregateType>,
    TypeError,
>)
    ensures
        outcome(result) == struct_type(def@, operands.deep_view(), depth as nat),
    decreases depth, 3nat, 0nat,
{
    assert(operands.deep_view().skip(0) =~= operands.deep_view());
    match member_types_of(def, operands, 0, depth) {
        Ok(members) => {
            let ghost listed = models(members@);
            let result = AggregateType::Aggregate(members);
            assert(result@->Aggregate_0 =~= listed);
            Ok(Some(result))
        },
        Err(e) => Err(e),
    }
}

/// Translates a function type declaration.
fn trans_function(def: &DefAnalyzer, operands: &Vec<Argument>, depth: usize) -> (result: Result<
    Option<AggregateType>,
    TypeError,
>)
    ensures
        outcome(result) == function_type(def@, operands.deep_view(), depth as nat),
    decreases depth, 3nat, 0nat,
{
    let returned = match required_type_of(def, operand_at(operands, 0), depth) {
        Ok(returned) => returned,
        Err(e) => {
            return Err(e);
        },
    };
    assert(operands.len() > 0);
    match member_types_of(def, operands, 1, depth) {
        Ok(parameters) => {
            let ghost listed = models(parameters@);
            let result = AggregateType::Function(parameters, Box::new(returned));
            assert(result@->Function_0 =~= listed);
            Ok(Some(result))
        },
        Err(e) => Err(e),
    }
}

/// Translates an image declaration.
fn trans_image(def: &DefAnalyzer, operands: &Vec<Argument>, depth: usize) -> (result: Result<
    Option<AggregateType>,
    TypeError,
>)
    ensures
        outcome(result) == image_type(def@, operands.deep_view(), depth as nat),
    decreases depth, 3nat, 0nat,
{
    let ty = match required_type_of(def, operand_at(operands, 0), depth) {
        Ok(ty) => ty,
        Err(e) => {
            return Err(e);
        },
    };
    match read_image_details(operands) {
        Ok(details) => Ok(
            Some(
                AggregateType::Image {
                    ty: Box::new(ty),
                    dim: details.dim,
                    depth: details.depth,
                    arrayed: details.arrayed,
                    multi_sampled: details.multi_sampled,
                    sampled: details.sampled,
                    format: details.format,
                    access: details.access,
                },
            ),
        ),
        Err(e) => Err(e),
    }
}

/// Translates the instruction that an operand refers to.
fn referenced_type_of(def: &DefAnalyzer, operand: Option<&Argument>, depth: usize) -> (result:
    Result<Option<AggregateType>, TypeError>)
    ensures
        outcome(result) == referenced_type(def@, found_view(operand), depth as nat),
    decreases depth, 1nat, 0nat,
{
    match operand {
        None => Err(TypeError::Malformed),
        Some(operand) => match def.op_def(operand) {
            None => Err(TypeError::Malformed),
            Some(inst) => try_trans_aggregate_type(def, inst, depth),
        },
    }
}

/// Translates the type that an operand refers to.
fn required_type_of(def: &DefAnalyzer, operand: Option<&Argument>, depth: usize) -> (result:
    Result<AggregateType, TypeError>)
    ensures
        match result {
            Ok(ty) => required_type(def@, found_view(operand), depth as nat) == Ok::<
                AggregateModel,
                TypeError,
            >(ty@),
            Err(e) => required_type(def@, found_view(operand), depth as nat) == Err::<
                AggregateModel,
                TypeError,
            >(e),
        },
    decreases depth, 1nat, 1nat,
{
    match referenced_type_of(def, operand, depth) {
        Ok(Some(ty)) => Ok(ty),
        Ok(None) => Err(TypeError::Malformed),
        Err(e) => Err(e),
    }
}

/// Where the members up to `failed` translate and the one at `failed` does
/// not, the list fails with the error of that member, however long it is.
proof fn lemma_first_failure(
    defs: Map<u32, InstructionView>,
    operands: Seq<ArgumentView>,
    failed: int,
    depth: nat,
)
    requires
        0 <= failed < operands.len(),
        member_types(defs, operands.take(failed), depth) is Ok,
        required_type(defs, Some(operands[failed]), depth) is Err,
    ensures
        member_types(defs, operands, depth) == Err::<Seq<AggregateModel>, TypeError>(
            required_type(defs, Some(operands[failed]), depth)->Err_0,
        ),
    decreases operands.len(),
{
    let front = operands.drop_last();
    if failed == operands.len() - 1 {
        assert(operands.take(failed) =~= front);
    } else {
        assert(front.take(failed) =~= operands.take(failed));
        lemma_first_failure(defs, front, failed, depth);
    }
}

/// Translates the types that the operands from `from` on refer to.
fn member_types_of(def: &DefAnalyzer, operands: &Vec<Argument>, from: usize, depth: usize) -> (result:
    Result<Vec<AggregateType>, TypeError>)
    requires
        from <= operands.len(),
    ensures
        match result {
            Ok(types) => member_types(def@, operands.deep_view().skip(from as int), depth as nat)
                == Ok::<Seq<AggregateModel>, TypeError>(models(types@)),
            Err(e) => member_types(def@, operands.deep_view().skip(from as int), depth as nat)
                == Err::<Seq<AggregateModel>, TypeError>(e),
        },
    decreases depth, 2nat, 0nat,
{
    let mut types: Vec<AggregateType> = Vec::new();
    let ghost members = operands.deep_view().skip(from as int);
    let mut i: usize = from;
    assert(members.take(0) =~= Seq::empty());
    assert(models(types@) =~= Seq::empty());
    while i < operands.len()
        invariant
            from <= i <= operands.len(),
            members == operands.deep_view().skip(from as int),
            member_types(def@, members.take(i - from), depth as nat) == Ok::<
                Seq<AggregateModel>,
                TypeError,
            >(models(types@)),
        decreases operands.len() - i,
    {
        let ghost done = models(types@);
        proof {
            assert(members.take(i - from + 1).drop_last() =~= members.take(i - from));
            assert(members.take(i - from + 1).last() == operands[i as int]@);
            assert(members[i - from] == operands[i as int]@);
        }
        match required_type_of(def, operand_at(operands, i), depth) {
            Ok(ty) => {
                types.push(ty);
                assert(models(types@) =~= done.push(ty@));
            },
            Err(e) => {
                proof {
                    lemma_first_failure(def@, members, i - from, depth as nat);
                }
                return Err(e);
            },
        }
        i += 1;
    }
    assert(members.take(operands.len() - from) =~= members);
    Ok(types)
}

/// Translates an instruction that declares a type. Answers `None` for an
/// instruction that declares no type.
pub fn trans_aggregate_type(def: &DefAnalyzer, inst: &Instruction) -> (result: Option<AggregateType>)
    requires
        translation(def@, inst@, usize::MAX as nat) is Ok,
    ensures
        outcome(Ok(result)) == translation(def@, inst@, usize::MAX as nat),
{
    match try_trans_aggregate_type(def, inst, usize::MAX) {
        Ok(result) => result,
        Err(_) => None,
    }
}

} // verus!
