//! Everything this library takes on trust from `rspirv` and `spirv`: the
//! enumerations it carries through, the binary encoding of an operand, and the
//! names under which enumeration values are printed.

use crate::ir::{Argument, ArgumentView};
use rspirv::binary::Assemble;
use rspirv::dr::Operand as RawOperand;
use rspirv::spirv;
use vstd::prelude::*;

verus! {

/// `spirv::Capability`, a field-less enumeration, carried through as it is.
#[verifier::external_type_specification]
#[verifier::external_body]
pub struct ExCapability(spirv::Capability);

/// `spirv::StorageClass`, a field-less enumeration, carried through as it is.
#[verifier::external_type_specification]
#[verifier::external_body]
pub struct ExStorageClass(spirv::StorageClass);

/// `spirv::Dim`, a field-less enumeration, carried through as it is.
#[verifier::external_type_specification]
#[verifier::external_body]
pub struct ExDim(spirv::Dim);

/// `spirv::ImageFormat`, a field-less enumeration, carried through as it is.
#[verifier::external_type_specification]
#[verifier::external_body]
pub struct ExImageFormat(spirv::ImageFormat);

/// `spirv::AccessQualifier`, a field-less enumeration, carried through as it is.
#[verifier::external_type_specification]
#[verifier::external_body]
pub struct ExAccessQualifier(spirv::AccessQualifier);

/// `rspirv::dr::Operand`, for the operands that the library carries through
/// without looking into them.
#[verifier::external_type_specification]
#[verifier::external_body]
pub struct ExRawOperand(rspirv::dr::Operand);

/// `spirv::Capability` is a field-less enumeration with a derived `PartialEq`:
/// `==` on two values answers whether they are the same capability.
pub assume_specification[ <spirv::Capability as PartialEq>::eq ](
    a: &spirv::Capability,
    b: &spirv::Capability,
) -> (same: bool)
    ensures
        same == (*a == *b),
;

/// `rspirv::dr::Operand` derives `Clone`: the copy is the same operand.
pub assume_specification[ <rspirv::dr::Operand as Clone>::clone ](
    operand: &rspirv::dr::Operand,
) -> (copy: rspirv::dr::Operand)
    ensures
        copy == *operand,
;

/// The words that `rspirv` encodes an operand into.
pub uninterp spec fn operand_words(operand: ArgumentView) -> Seq<u32>;

/// Appends the binary encoding of `operand` to `words`, by
/// `rspirv::binary::Assemble::assemble_into` on the `rspirv::dr::Operand` of the
/// same kind and payload. The encoding depends on the operand alone and leaves
/// the words already present untouched.
#[verifier::external_body]
pub(crate) fn assemble_operand(operand: &Argument, words: &mut Vec<u32>)
    ensures
        final(words)@ == old(words)@ + operand_words(operand@),
{
    match operand {
        Argument::IdRef(w) => RawOperand::IdRef(*w),
        Argument::IdScope(w) => RawOperand::IdScope(*w),
        Argument::IdMemorySemantics(w) => RawOperand::IdMemorySemantics(*w),
        Argument::LiteralInt32(w) => RawOperand::LiteralInt32(*w),
        Argument::LiteralInt64(w) => RawOperand::LiteralInt64(*w),
        Argument::LiteralString(s) => RawOperand::LiteralString(s.clone()),
        Argument::Capability(c) => RawOperand::Capability(*c),
        Argument::StorageClass(c) => RawOperand::StorageClass(*c),
        Argument::Dim(d) => RawOperand::Dim(*d),
        Argument::ImageFormat(f) => RawOperand::ImageFormat(*f),
        Argument::AccessQualifier(a) => RawOperand::AccessQualifier(*a),
        Argument::Other(o) => o.clone(),
    }.assemble_into(words)
}

/// The name under which `spirv` prints a storage class.
pub uninterp spec fn storage_class_name(class: spirv::StorageClass) -> Seq<char>;

/// The `Debug` rendering of a storage class, which `spirv` derives: the name
/// of the enumeration value.
#[verifier::external_body]
pub(crate) fn storage_class_text(class: spirv::StorageClass) -> (text: String)
    ensures
        text@ == storage_class_name(class),
{
    format!("{:?}", class)
}

/// The name under which `spirv` prints an image dimensionality.
pub uninterp spec fn dim_name(dim: spirv::Dim) -> Seq<char>;

/// The `Debug` rendering of an image dimensionality, which `spirv` derives.
#[verifier::external_body]
pub(crate) fn dim_text(dim: spirv::Dim) -> (text: String)
    ensures
        text@ == dim_name(dim),
{
    format!("{:?}", dim)
}

/// The name under which `spirv` prints an image format.
pub uninterp spec fn image_format_name(format: spirv::ImageFormat) -> Seq<char>;

/// The `Debug` rendering of an image format, which `spirv` derives.
#[verifier::external_body]
pub(crate) fn image_format_text(format: spirv::ImageFormat) -> (text: String)
    ensures
        text@ == image_format_name(format),
{
    format!("{:?}", format)
}

/// The name under which `spirv` prints an access qualifier.
pub uninterp spec fn access_qualifier_name(access: spirv::AccessQualifier) -> Seq<char>;

/// The `Debug` rendering of an access qualifier, which `spirv` derives.
#[verifier::external_body]
pub(crate) fn access_qualifier_text(access: spirv::AccessQualifier) -> (text: String)
    ensures
        text@ == access_qualifier_name(access),
{
    format!("{:?}", access)
}

} // verus!
