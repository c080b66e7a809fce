//! What holds of the translation whatever depth it is allowed: a result that
//! was reached within some depth is the result within every greater depth.

use crate::def::definition_of;
use crate::ir::{ArgumentView, InstructionView};
use crate::translate::{
    at, member_types, referenced_type, required_type, translation, TypeError,
};
use crate::ty::AggregateModel;
use vstd::prelude::*;

verus! {

/// Allowing the translation to go deeper does not change what it arrived at:
/// unless it ran out of depth, its result is the same within every greater depth.
pub proof fn lemma_translation_is_stable(
    defs: Map<u32, InstructionView>,
    inst: InstructionView,
    depth: nat,
    deeper: nat,
)
    requires
        depth <= deeper,
        translation(defs, inst, depth) != Err::<Option<AggregateModel>, TypeError>(
            TypeError::TooDeep,
        ),
    ensures
        translation(defs, inst, deeper) == translation(defs, inst, depth),
    decreases depth, 0nat, 0nat,
{
    if depth > 0 {
        let inner = (depth - 1) as nat;
        let further = (deeper - 1) as nat;
        lemma_required_is_stable(defs, at(inst.operands, 0), inner, further);
        lemma_required_is_stable(defs, at(inst.operands, 1), inner, further);
        lemma_referenced_is_stable(defs, at(inst.operands, 0), inner, further);
        lemma_members_are_stable(defs, inst.operands, inner, further);
        lemma_members_are_stable(defs, inst.operands.skip(1), inner, further);
    }
}

/// The same of the type that an operand refers to, where it may be none.
pub proof fn lemma_referenced_is_stable(
    defs: Map<u32, InstructionView>,
    operand: Option<ArgumentView>,
    depth: nat,
    deeper: nat,
)
    requires
        depth <= deeper,
    ensures
        referenced_type(defs, operand, depth) != Err::<Option<AggregateModel>, TypeError>(
            TypeError::TooDeep,
        ) ==> referenced_type(defs, operand, deeper) == referenced_type(defs, operand, depth),
    decreases depth, 1nat, 0nat,
{
    if referenced_type(defs, operand, depth) != Err::<Option<AggregateModel>, TypeError>(
        TypeError::TooDeep,
    ) {
        match operand {
            Some(operand) => match definition_of(defs, operand) {
                Some(inst) => {
                    lemma_translation_is_stable(defs, inst, depth, deeper);
                },
                None => {},
            },
            None => {},
        }
    }
}

/// The same of the type that an operand refers to, where it must be one.
pub proof fn lemma_required_is_stable(
    defs: Map<u32, InstructionView>,
    operand: Option<ArgumentView>,
    depth: nat,
    deeper: nat,
)
    requires
        depth <= deeper,
    ensures
        required_type(defs, operand, depth) != Err::<AggregateModel, TypeError>(TypeError::TooDeep)
            ==> required_type(defs, operand, deeper) == required_type(defs, operand, depth),
    decreases depth, 1nat, 1nat,
{
    lemma_referenced_is_stable(defs, operand, depth, deeper);
}

/// The same of a list of member types.
pub proof fn lemma_members_are_stable(
    defs: Map<u32, InstructionView>,
    operands: Seq<ArgumentView>,
    depth: nat,
    deeper: nat,
)
    requires
        depth <= deeper,
    ensures
        member_types(defs, operands, depth) != Err::<Seq<AggregateModel>, TypeError>(
            TypeError::TooDeep,
        ) ==> member_types(defs, operands, deeper) == member_types(defs, operands, depth),
    decreases depth, 2nat, operands.len(),
{
    if operands.len() > 0 {
        lemma_members_are_stable(defs, operands.drop_last(), depth, deeper);
        lemma_required_is_stable(defs, Some(operands.last()), depth, deeper);
    }
}

} // verus!
