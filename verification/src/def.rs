//! Definition lookup: from an identifier to the instruction that declares it.

use crate::ir::{Argument, ArgumentView, Instruction, InstructionView, Module, ModuleView};
use crate::rewrite::referenced_id;
use std::collections::HashMap;
use vstd::prelude::*;

verus! {

/// The definitions known after the section, on top of those known before it.
/// Where an identifier is declared more than once, the last declaration counts.
pub open spec fn definitions_in(
    section: Seq<InstructionView>,
    earlier: Map<u32, InstructionView>,
) -> Map<u32, InstructionView>
    decreases section.len(),
{
    if section.len() == 0 {
        earlier
    } else {
        let known = definitions_in(section.drop_last(), earlier);
        match section.last().result_id {
            Some(id) => known.insert(id, section.last()),
            None => known,
        }
    }
}

/// The definitions of a module: every instruction that has a result
/// identifier, under that identifier. The sections count in the order
/// capabilities, imports, types and global values, others.
pub open spec fn definitions(module: ModuleView) -> Map<u32, InstructionView> {
    definitions_in(
        module.others,
        definitions_in(
            module.types_global_values,
            definitions_in(
                module.ext_inst_imports,
                definitions_in(module.capabilities, Map::empty()),
            ),
        ),
    )
}

/// The instruction that an operand refers to, if the operand is a reference
/// to an identifier that has a definition.
pub open spec fn definition_of(
    defs: Map<u32, InstructionView>,
    operand: ArgumentView,
) -> Option<InstructionView> {
    match referenced_id(operand) {
        Some(id) => if defs.contains_key(id) {
            Some(defs[id])
        } else {
            None
        },
        None => None,
    }
}

/// The views of the instructions that a table holds.
pub open spec fn table_view(table: Map<u32, &Instruction>) -> Map<u32, InstructionView> {
    Map::new(|id: u32| table.contains_key(id), |id: u32| table[id]@)
}

/// The definitions of one module, ready to be looked up.
pub struct DefAnalyzer<'a> {
    def_ids: HashMap<u32, &'a Instruction>,
}

impl<'a> View for DefAnalyzer<'a> {
    type V = Map<u32, InstructionView>;

    closed spec fn view(&self) -> Map<u32, InstructionView> {
        table_view(self.def_ids@)
    }
}

/// Enters the definitions of a section into the table.
fn record_section<'a>(table: &mut HashMap<u32, &'a Instruction>, section: &'a Vec<Instruction>)
    ensures
        table_view(final(table)@) == definitions_in(section.deep_view(), table_view(old(table)@)),
{
    broadcast use vstd::std_specs::hash::group_hash_axioms;

    let ghost earlier = table_view(table@);
    let ghost all = section.deep_view();
    let mut i: usize = 0;
    assert(all.take(0) =~= Seq::empty());
    while i < section.len()
        invariant
            i <= section.len(),
            all == section.deep_view(),
            table_view(table@) == definitions_in(all.take(i as int), earlier),
        decreases section.len() - i,
    {
        let ghost before = table@;
        proof {
            assert(all.take(i + 1).drop_last() =~= all.take(i as int));
            assert(all.take(i + 1).last() == section[i as int]@);
        }
        if let Some(id) = section[i].result_id {
            table.insert(id, &section[i]);
            assert(table_view(table@) =~= table_view(before).insert(id, section[i as int]@));
        }
        i += 1;
    }
    assert(all.take(section.len() as int) =~= all);
}

impl<'a> DefAnalyzer<'a> {
    /// Collects the definitions of `module`.
    pub fn new(module: &'a Module) -> (def: DefAnalyzer<'a>)
        ensures
            def@ == definitions(module@),
    {
        let mut def_ids: HashMap<u32, &'a Instruction> = HashMap::new();
        assert(table_view(def_ids@) =~= Map::<u32, InstructionView>::empty());
        record_section(&mut def_ids, &module.capabilities);
        record_section(&mut def_ids, &module.ext_inst_imports);
        record_section(&mut def_ids, &module.types_global_values);
        record_section(&mut def_ids, &module.others);
        DefAnalyzer { def_ids }
    }

    /// The instruction that declares `id`, if there is one.
    pub fn def(&self, id: u32) -> (found: Option<&'a Instruction>)
        ensures
            match found {
                Some(inst) => self@.contains_key(id) && inst@ == self@[id],
                None => !self@.contains_key(id),
            },
    {
        broadcast use vstd::std_specs::hash::group_hash_axioms;

        match self.def_ids.get(&id) {
            Some(inst) => Some(*inst),
            None => None,
        }
    }

    /// The instruction that `operand` refers to, if it is a reference to an
    /// identifier that has a definition.
    pub fn op_def(&self, operand: &Argument) -> (found: Option<&'a Instruction>)
        ensures
            match found {
                Some(inst) => definition_of(self@, operand@) == Some(inst@),
                None => definition_of(self@, operand@) is None,
            },
    {
        match operand {
            Argument::IdRef(id) => self.def(*id),
            Argument::IdScope(id) => self.def(*id),
            Argument::IdMemorySemantics(id) => self.def(*id),
            _ => None,
        }
    }
}

} // verus!
