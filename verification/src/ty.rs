//! A structural model of the types that a module declares.

use rspirv::spirv;
use vstd::prelude::*;

verus! {

broadcast use vstd::std_specs::vec::axiom_vec_index_decreases;

/// A type that is not composed of other types.
#[derive(PartialEq, Debug)]
pub enum ScalarType {
    Void,
    Bool,
    Int { width: u32, signed: bool },
    Float { width: u32 },
    Opaque { name: String },
    Event,
    DeviceEvent,
    ReserveId,
    Queue,
    Pipe,
    ForwardPointer { storage_class: spirv::StorageClass },
    PipeStorage,
    NamedBarrier,
    Sampler,
}

/// A scalar type as a mathematical value.
pub enum ScalarModel {
    Void,
    Bool,
    Int { width: u32, signed: bool },
    Float { width: u32 },
    Opaque { name: Seq<char> },
    Event,
    DeviceEvent,
    ReserveId,
    Queue,
    Pipe,
    ForwardPointer { storage_class: spirv::StorageClass },
    PipeStorage,
    NamedBarrier,
    Sampler,
}

impl View for ScalarType {
    type V = ScalarModel;

    open spec fn view(&self) -> ScalarModel {
        match *self {
            ScalarType::Void => ScalarModel::Void,
            ScalarType::Bool => ScalarModel::Bool,
            ScalarType::Int { width, signed } => ScalarModel::Int { width, signed },
            ScalarType::Float { width } => ScalarModel::Float { width },
            ScalarType::Opaque { name } => ScalarModel::Opaque { name: name@ },
            ScalarType::Event => ScalarModel::Event,
            ScalarType::DeviceEvent => ScalarModel::DeviceEvent,
            ScalarType::ReserveId => ScalarModel::ReserveId,
            ScalarType::Queue => ScalarModel::Queue,
            ScalarType::Pipe => ScalarModel::Pipe,
            ScalarType::ForwardPointer { storage_class } => ScalarModel::ForwardPointer {
                storage_class,
            },
            ScalarType::PipeStorage => ScalarModel::PipeStorage,
            ScalarType::NamedBarrier => ScalarModel::NamedBarrier,
            ScalarType::Sampler => ScalarModel::Sampler,
        }
    }
}

/// A type, possibly composed of other types.
#[derive(PartialEq, Debug)]
pub enum AggregateType {
    Scalar(ScalarType),
    Array { ty: Box<AggregateType>, len: u64 },
    Pointer { ty: Box<AggregateType>, storage_class: spirv::StorageClass },
    Image {
        ty: Box<AggregateType>,
        dim: spirv::Dim,
        depth: u32,
        arrayed: u32,
        multi_sampled: u32,
        sampled: u32,
        format: spirv::ImageFormat,
        access: Option<spirv::AccessQualifier>,
    },
    SampledImage { ty: Box<AggregateType> },
    Aggregate(Vec<AggregateType>),
    Function(Vec<AggregateType>, Box<AggregateType>),
}

/// A type as a mathematical value.
pub enum AggregateModel {
    Scalar(ScalarModel),
    Array { ty: Box<AggregateModel>, len: u64 },
    Pointer { ty: Box<AggregateModel>, storage_class: spirv::StorageClass },
    Image {
        ty: Box<AggregateModel>,
        dim: spirv::Dim,
        depth: u32,
        arrayed: u32,
        multi_sampled: u32,
        sampled: u32,
        format: spirv::ImageFormat,
        access: Option<spirv::AccessQualifier>,
    },
    SampledImage { ty: Box<AggregateModel> },
    Aggregate(Seq<AggregateModel>),
    Function(Seq<AggregateModel>, Box<AggregateModel>),
}

impl AggregateType {
    /// The type as a mathematical value.
    pub open spec fn model(&self) -> AggregateModel
        decreases self,
    {
        match self {
            AggregateType::Scalar(scalar) => AggregateModel::Scalar(scalar@),
            AggregateType::Array { ty, len } => AggregateModel::Array { ty: Box::new(ty.model()), len: *len },
            AggregateType::Pointer { ty, storage_class } => AggregateModel::Pointer {
                ty: Box::new(ty.model()),
                storage_class: *storage_class,
            },
            AggregateType::Image {
                ty,
                dim,
                depth,
                arrayed,
                multi_sampled,
                sampled,
                format,
                access,
            } => AggregateModel::Image {
                ty: Box::new(ty.model()),
                dim: *dim,
                depth: *depth,
                arrayed: *arrayed,
                multi_sampled: *multi_sampled,
                sampled: *sampled,
                format: *format,
                access: *access,
            },
            AggregateType::SampledImage { ty } => AggregateModel::SampledImage { ty: Box::new(ty.model()) },
            AggregateType::Aggregate(members) => AggregateModel::Aggregate(
                Seq::new(
                    members.len() as nat,
                    |i: int|
                        if 0 <= i < members.len() {
                            members[i].model()
                        } else {
                            AggregateModel::Aggregate(Seq::empty())
                        },
                ),
            ),
            AggregateType::Function(parameters, result) => AggregateModel::Function(
                Seq::new(
                    parameters.len() as nat,
                    |i: int|
                        if 0 <= i < parameters.len() {
                            parameters[i].model()
                        } else {
                            AggregateModel::Aggregate(Seq::empty())
                        },
                ),
                Box::new(result.model()),
            ),
        }
    }
}

impl View for AggregateType {
    type V = AggregateModel;

    open spec fn view(&self) -> AggregateModel {
        self.model()
    }
}

/// The models of a list of types.
pub open spec fn models(types: Seq<AggregateType>) -> Seq<AggregateModel> {
    Seq::new(types.len(), |i: int| types[i]@)
}

} // verus!
