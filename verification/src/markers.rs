//! Deletion by marker: an instruction is deleted by overwriting it with a
//! no-op, and the markers are taken out of the section afterwards.

use crate::ir::{Instruction, InstructionView, Module, OP_NOP};
use vstd::prelude::*;

verus! {

/// The section without its deletion markers, the survivors in their order.
pub open spec fn compacted(section: Seq<InstructionView>) -> Seq<InstructionView>
    decreases section.len(),
{
    if section.len() == 0 {
        section
    } else if section.last().opcode == OP_NOP {
        compacted(section.drop_last())
    } else {
        compacted(section.drop_last()).push(section.last())
    }
}

/// Compacting keeps every instruction that is no marker.
pub proof fn lemma_compacted_keeps(section: Seq<InstructionView>, k: int)
    requires
        0 <= k < section.len(),
        section[k].opcode != OP_NOP,
    ensures
        exists|j: int|
            0 <= j < compacted(section).len() && #[trigger] compacted(section)[j] == section[k],
    decreases section.len(),
{
    let front = section.drop_last();
    if k == section.len() - 1 {
        let j = compacted(front).len() as int;
        assert(compacted(section)[j] == section[k]);
    } else {
        lemma_compacted_keeps(front, k);
        let j = choose|j: int|
            0 <= j < compacted(front).len() && #[trigger] compacted(front)[j] == front[k];
        assert(compacted(section)[j] == section[k]);
    }
}

/// Removes the deletion markers from a section.
pub fn remove_markers(section: &mut Vec<Instruction>)
    ensures
        final(section).deep_view() == compacted(old(section).deep_view()),
{
    let mut marked: Vec<Instruction> = Vec::new();
    std::mem::swap(section, &mut marked);
    let ghost given = marked.deep_view();
    assert(given.take(0) =~= Seq::empty());
    assert(section.deep_view() =~= Seq::empty());
    for inst in it: marked
        invariant
            it.seq() == marked@,
            given == marked.deep_view(),
            section.deep_view() == compacted(given.take(it.index() as int)),
    {
        proof {
            let before = given.take(it.index() as int);
            let after = given.take(it.index() + 1);
            assert(after.drop_last() =~= before);
            assert(after.last() == inst@);
        }
        let ghost kept = section.deep_view();
        if inst.opcode != OP_NOP {
            section.push(inst);
            assert(section.deep_view() =~= kept.push(inst@));
        }
    }
    assert(given.take(given.len() as int) =~= given);
}

/// A copy of a section.
pub fn clone_section(section: &Vec<Instruction>) -> (copy: Vec<Instruction>)
    ensures
        copy.deep_view() == section.deep_view(),
{
    let mut copy: Vec<Instruction> = Vec::new();
    let mut i: usize = 0;
    while i < section.len()
        invariant
            i <= section.len(),
            copy.len() == i,
            forall|j: int| 0 <= j < i ==> copy[j]@ == section[j]@,
        decreases section.len() - i,
    {
        copy.push(section[i].clone());
        i += 1;
    }
    assert(copy.deep_view() =~= section.deep_view());
    copy
}

impl Clone for Module {
    fn clone(&self) -> (copy: Module)
        ensures
            copy@ == self@,
    {
        Module {
            capabilities: clone_section(&self.capabilities),
            ext_inst_imports: clone_section(&self.ext_inst_imports),
            types_global_values: clone_section(&self.types_global_values),
            others: clone_section(&self.others),
        }
    }
}

} // verus!
