//! Rewrite maps and their application: every identifier that an instruction
//! refers to is replaced by the identifier that the map gives for it.

use crate::ir::{Argument, ArgumentView, Instruction, InstructionView, Module, ModuleView};
use std::collections::HashMap;
use vstd::prelude::*;

verus! {

/// What `id` stands for under `rules`: its replacement where it has one, else itself.
pub open spec fn resolve(rules: Map<u32, u32>, id: u32) -> u32 {
    if rules.contains_key(id) {
        rules[id]
    } else {
        id
    }
}

/// The identifier that an operand refers to, if it is a reference.
pub open spec fn referenced_id(operand: ArgumentView) -> Option<u32> {
    match operand {
        ArgumentView::IdRef(id) => Some(id),
        ArgumentView::IdScope(id) => Some(id),
        ArgumentView::IdMemorySemantics(id) => Some(id),
        _ => None,
    }
}

/// The operand with the identifier that it refers to resolved; an operand
/// that is no reference stays as it is.
pub open spec fn rewrite_argument(rules: Map<u32, u32>, operand: ArgumentView) -> ArgumentView {
    match operand {
        ArgumentView::IdRef(id) => ArgumentView::IdRef(resolve(rules, id)),
        ArgumentView::IdScope(id) => ArgumentView::IdScope(resolve(rules, id)),
        ArgumentView::IdMemorySemantics(id) => ArgumentView::IdMemorySemantics(resolve(rules, id)),
        _ => operand,
    }
}

/// The instruction with its result type and every reference among its
/// operands resolved; opcode, result identifier and all other operands stay.
pub open spec fn rewrite_instruction(rules: Map<u32, u32>, inst: InstructionView) -> InstructionView {
    InstructionView {
        opcode: inst.opcode,
        result_type: match inst.result_type {
            Some(id) => Some(resolve(rules, id)),
            None => None,
        },
        result_id: inst.result_id,
        operands: Seq::new(inst.operands.len(), |i: int| rewrite_argument(rules, inst.operands[i])),
    }
}

/// The section with every instruction resolved.
pub open spec fn rewrite_section(rules: Map<u32, u32>, section: Seq<InstructionView>) -> Seq<
    InstructionView,
> {
    Seq::new(section.len(), |i: int| rewrite_instruction(rules, section[i]))
}

/// The module with every instruction of every section resolved.
pub open spec fn rewrite_module(rules: Map<u32, u32>, module: ModuleView) -> ModuleView {
    ModuleView {
        capabilities: rewrite_section(rules, module.capabilities),
        ext_inst_imports: rewrite_section(rules, module.ext_inst_imports),
        types_global_values: rewrite_section(rules, module.types_global_values),
        others: rewrite_section(rules, module.others),
    }
}

/// Looks `id` up in `rules`.
pub fn resolve_id(rules: &HashMap<u32, u32>, id: u32) -> (target: u32)
    ensures
        target == resolve(rules@, id),
{
    broadcast use vstd::std_specs::hash::group_hash_axioms;

    match rules.get(&id) {
        Some(target) => *target,
        None => id,
    }
}

/// Resolves the result type and every reference operand of `inst`.
pub fn rewrite_inst_with_rules(inst: &mut Instruction, rules: &HashMap<u32, u32>)
    ensures
        final(inst)@ == rewrite_instruction(rules@, old(inst)@),
{
    if let Some(id) = inst.result_type {
        inst.result_type = Some(resolve_id(rules, id));
    }
    let count = inst.operands.len();
    let mut i: usize = 0;
    while i < count
        invariant
            i <= count,
            count == old(inst).operands.len(),
            inst.operands.len() == count,
            inst.opcode == old(inst).opcode,
            inst.result_id == old(inst).result_id,
            inst.result_type == rewrite_instruction(rules@, old(inst)@).result_type,
            forall|j: int| 0 <= j < i ==> inst.operands[j]@ == rewrite_argument(rules@, old(inst).operands[j]@),
            forall|j: int| i <= j < count ==> inst.operands[j] == old(inst).operands[j],
        decreases count - i,
    {
        let target = match &inst.operands[i] {
            Argument::IdRef(id) => Some(Argument::IdRef(resolve_id(rules, *id))),
            Argument::IdScope(id) => Some(Argument::IdScope(resolve_id(rules, *id))),
            Argument::IdMemorySemantics(id) => Some(Argument::IdMemorySemantics(resolve_id(rules, *id))),
            _ => None,
        };
        if let Some(operand) = target {
            inst.operands[i] = operand;
        }
        i += 1;
    }
    assert(inst@.operands =~= rewrite_instruction(rules@, old(inst)@).operands);
}

/// Resolves every instruction of a section.
pub fn rewrite_section_with_rules(section: &mut Vec<Instruction>, rules: &HashMap<u32, u32>)
    ensures
        final(section).deep_view() == rewrite_section(rules@, old(section).deep_view()),
{
    let count = section.len();
    let mut i: usize = 0;
    while i < count
        invariant
            i <= count,
            count == old(section).len(),
            section.len() == count,
            forall|j: int| 0 <= j < i ==> section[j]@ == rewrite_instruction(rules@, old(section)[j]@),
            forall|j: int| i <= j < count ==> section[j] == old(section)[j],
        decreases count - i,
    {
        rewrite_inst_with_rules(&mut section[i], rules);
        i += 1;
    }
    assert(section.deep_view() =~= rewrite_section(rules@, old(section).deep_view()));
}

/// Resolves every instruction of every section of a module.
pub fn rewrite_module_with_rules(module: &mut Module, rules: &HashMap<u32, u32>)
    ensures
        final(module)@ == rewrite_module(rules@, old(module)@),
{
    rewrite_section_with_rules(&mut module.capabilities, rules);
    rewrite_section_with_rules(&mut module.ext_inst_imports, rules);
    rewrite_section_with_rules(&mut module.types_global_values, rules);
    rewrite_section_with_rules(&mut module.others, rules);
}

} // verus!
