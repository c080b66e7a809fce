//! The textual form of the type model, for diagnostics.

use crate::outside::{
    access_qualifier_name, access_qualifier_text, dim_name, dim_text, image_format_name,
    image_format_text, storage_class_name, storage_class_text,
};
use crate::ty::{models, AggregateModel, AggregateType, ScalarModel, ScalarType};
use rspirv::spirv;
use vstd::prelude::*;

verus! {

broadcast use vstd::std_specs::vec::axiom_vec_index_decreases;

/// One decimal digit.
pub open spec fn digit(value: nat) -> Seq<char> {
    if value == 0 {
        "0"@
    } else if value == 1 {
        "1"@
    } else if value == 2 {
        "2"@
    } else if value == 3 {
        "3"@
    } else if value == 4 {
        "4"@
    } else if value == 5 {
        "5"@
    } else if value == 6 {
        "6"@
    } else if value == 7 {
        "7"@
    } else if value == 8 {
        "8"@
    } else {
        "9"@
    }
}

/// A number in decimal, without leading zeros.
pub open spec fn decimal(value: nat) -> Seq<char>
    decreases value,
{
    if value < 10 {
        digit(value)
    } else {
        decimal(value / 10) + digit(value % 10)
    }
}

/// The text of a scalar type.
pub open spec fn scalar_text(ty: ScalarModel) -> Seq<char> {
    match ty {
        ScalarModel::Void => "void"@,
        ScalarModel::Bool => "bool"@,
        ScalarModel::Int { width, signed } => if signed {
            "i"@ + decimal(width as nat)
        } else {
            "u"@ + decimal(width as nat)
        },
        ScalarModel::Float { width } => "f"@ + decimal(width as nat),
        ScalarModel::Opaque { name } => "Opaque{"@ + name + "}"@,
        ScalarModel::Event => "Event"@,
        ScalarModel::DeviceEvent => "DeviceEvent"@,
        ScalarModel::ReserveId => "ReserveId"@,
        ScalarModel::Queue => "Queue"@,
        ScalarModel::Pipe => "Pipe"@,
        ScalarModel::ForwardPointer { storage_class } => "ForwardPointer{"@ + storage_class_name(
            storage_class,
        ) + "}"@,
        ScalarModel::PipeStorage => "PipeStorage"@,
        ScalarModel::NamedBarrier => "NamedBarrier"@,
        ScalarModel::Sampler => "Sampler"@,
    }
}

/// The text of an optional access qualifier.
pub open spec fn access_text(access: Option<spirv::AccessQualifier>) -> Seq<char> {
    match access {
        Some(access) => "Some("@ + access_qualifier_name(access) + ")"@,
        None => "None"@,
    }
}

/// The text of a type.
pub open spec fn aggregate_text(ty: AggregateModel) -> Seq<char>
    decreases ty,
{
    match ty {
        AggregateModel::Scalar(scalar) => scalar_text(scalar),
        AggregateModel::Array { ty, len } => "["@ + aggregate_text(*ty) + "; "@ + decimal(
            len as nat,
        ) + "]"@,
        AggregateModel::Pointer { ty, storage_class } => "*{"@ + storage_class_name(storage_class)
            + "} "@ + aggregate_text(*ty),
        AggregateModel::Image {
            ty,
            dim,
            depth,
            arrayed,
            multi_sampled,
            sampled,
            format,
            access,
        } => "Image { "@ + aggregate_text(*ty) + ", dim:"@ + dim_name(dim) + ", depth:"@ + decimal(
            depth as nat,
        ) + ", arrayed:"@ + decimal(arrayed as nat) + ", multi_sampled:"@ + decimal(
            multi_sampled as nat,
        ) + ", sampled:"@ + decimal(sampled as nat) + ", format:"@ + image_format_name(format)
            + ", access:"@ + access_text(access) + " }"@,
        AggregateModel::SampledImage { ty } => "SampledImage{"@ + aggregate_text(*ty) + "}"@,
        AggregateModel::Aggregate(members) => "struct {"@ + members_text(members) + " }"@,
        AggregateModel::Function(parameters, result) => "fn("@ + members_text(parameters)
            + " ) -> "@ + aggregate_text(*result),
    }
}

/// The text of a list of types: each after a space and before a comma.
pub open spec fn members_text(members: Seq<AggregateModel>) -> Seq<char>
    decreases members,
{
    if members.len() == 0 {
        Seq::empty()
    } else {
        members_text(members.drop_last()) + " "@ + aggregate_text(members.last()) + ","@
    }
}

/// Writes one decimal digit.
fn digit_text(value: u64) -> (text: &'static str)
    requires
        value < 10,
    ensures
        text@ == digit(value as nat),
{
    if value == 0 {
        "0"
    } else if value == 1 {
        "1"
    } else if value == 2 {
        "2"
    } else if value == 3 {
        "3"
    } else if value == 4 {
        "4"
    } else if value == 5 {
        "5"
    } else if value == 6 {
        "6"
    } else if value == 7 {
        "7"
    } else if value == 8 {
        "8"
    } else {
        "9"
    }
}

/// Writes a number in decimal.
pub fn decimal_text(value: u64) -> (text: String)
    ensures
        text@ == decimal(value as nat),
    decreases value,
{
    if value < 10 {
        String::from_str(digit_text(value))
    } else {
        let mut text = decimal_text(value / 10);
        text.append(digit_text(value % 10));
        text
    }
}

impl ScalarType {
    /// The text of the type.
    pub fn to_text(&self) -> (text: String)
        ensures
            text@ == scalar_text(self@),
    {
        match self {
            ScalarType::Void => String::from_str("void"),
            ScalarType::Bool => String::from_str("bool"),
            ScalarType::Int { width, signed } => {
                let mut text = if *signed {
                    String::from_str("i")
                } else {
                    String::from_str("u")
                };
                text.append(decimal_text(*width as u64).as_str());
                text
            },
            ScalarType::Float { width } => {
                let mut text = String::from_str("f");
                text.append(decimal_text(*width as u64).as_str());
                text
            },
            ScalarType::Opaque { name } => {
                let mut text = String::from_str("Opaque{");
                text.append(name.as_str());
                text.append("}");
                text
            },
            ScalarType::Event => String::from_str("Event"),
            ScalarType::DeviceEvent => String::from_str("DeviceEvent"),
            ScalarType::ReserveId => String::from_str("ReserveId"),
            ScalarType::Queue => String::from_str("Queue"),
            ScalarType::Pipe => String::from_str("Pipe"),
            ScalarType::ForwardPointer { storage_class } => {
                let mut text = String::from_str("ForwardPointer{");
                text.append(storage_class_text(*storage_class).as_str());
                text.append("}");
                text
            },
            ScalarType::PipeStorage => String::from_str("PipeStorage"),
            ScalarType::NamedBarrier => String::from_str("NamedBarrier"),
            ScalarType::Sampler => String::from_str("Sampler"),
        }
    }
}

/// Writes an optional access qualifier.
fn access_to_text(access: &Option<spirv::AccessQualifier>) -> (text: String)
    ensures
        text@ == access_text(*access),
{
    match access {
        Some(access) => {
            let mut text = String::from_str("Some(");
            text.append(access_qualifier_text(*access).as_str());
            text.append(")");
            text
        },
        None => String::from_str("None"),
    }
}

/// Writes a list of types.
fn members_to_text(members: &Vec<AggregateType>) -> (text: String)
    ensures
        text@ == members_text(models(members@)),
    decreases members,
{
    let ghost listed = models(members@);
    let mut text = String::new();
    let mut i: usize = 0;
    assert(listed.take(0) =~= Seq::empty());
    while i < members.len()
        invariant
            i <= members.len(),
            listed == models(members@),
            text@ == members_text(listed.take(i as int)),
        decreases members.len() - i,
    {
        proof {
            assert(listed.take(i + 1).drop_last() =~= listed.take(i as int));
            assert(listed.take(i + 1).last() == members[i as int]@);
        }
        text.append(" ");
        text.append(members[i].to_text().as_str());
        text.append(",");
        i += 1;
    }
    assert(listed.take(members.len() as int) =~= listed);
    text
}

impl AggregateType {
    /// The text of the type.
    pub fn to_text(&self) -> (text: String)
        ensures
            text@ == aggregate_text(self@),
        decreases self,
    {
        match self {
            AggregateType::Scalar(scalar) => scalar.to_text(),
            AggregateType::Array { ty, len } => {
                let mut text = String::from_str("[");
                text.append(ty.to_text().as_str());
                text.append("; ");
                text.append(decimal_text(*len).as_str());
                text.append("]");
                text
            },
            AggregateType::Pointer { ty, storage_class } => {
                let mut text = String::from_str("*{");
                text.append(storage_class_text(*storage_class).as_str());
                text.append("} ");
                text.append(ty.to_text().as_str());
                text
            },
            AggregateType::Image {
                ty,
                dim,
                depth,
                arrayed,
                multi_sampled,
                sampled,
                format,
                access,
            } => {
                let mut text = String::from_str("Image { ");
                text.append(ty.to_text().as_str());
                text.append(", dim:");
                text.append(dim_text(*dim).as_str());
                text.append(", depth:");
                text.append(decimal_text(*depth as u64).as_str());
                text.append(", arrayed:");
                text.append(decimal_text(*arrayed as u64).as_str());
                text.append(", multi_sampled:");
                text.append(decimal_text(*multi_sampled as u64).as_str());
                text.append(", sampled:");
                text.append(decimal_text(*sampled as u64).as_str());
                text.append(", format:");
                text.append(image_format_text(*format).as_str());
                text.append(", access:");
                text.append(access_to_text(access).as_str());
                text.append(" }");
                text
            },
            AggregateType::SampledImage { ty } => {
                let mut text = String::from_str("SampledImage{");
                text.append(ty.to_text().as_str());
                text.append("}");
                text
            },
            AggregateType::Aggregate(members) => {
                let mut text = String::from_str("struct {");
                text.append(members_to_text(members).as_str());
                text.append(" }");
                assert(self@->Aggregate_0 =~= models(members@));
                text
            },
            AggregateType::Function(parameters, result) => {
                let mut text = String::from_str("fn(");
                text.append(members_to_text(parameters).as_str());
                text.append(" ) -> ");
                text.append(result.to_text().as_str());
                assert(self@->Function_0 =~= models(parameters@));
                text
            },
        }
    }
}

} // verus!
