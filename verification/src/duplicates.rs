//! The deduplication passes. Each rewrites a module in place.

use crate::capabilities::{
    declared_capability, declares_capability, deduplicated_capabilities, distinct_capabilities,
    lemma_distinct_push,
};
use crate::imports::{
    canonical_import, deduplicated_imports, import_rules, imports_admissible, imports_name,
    lemma_imports_admissible_prefix, lemma_imports_push, marked_imports, redirect_instruction,
    redirect_section,
};
use crate::ir::{
    Argument, Instruction, Module, OP_EXT_INST, OP_TYPE_FORWARD_POINTER, OP_TYPE_POINTER,
};
use crate::key_table::KeyTable;
use crate::markers::{clone_section, remove_markers};
use crate::outside::assemble_operand;
use crate::rewrite::{resolve_id, rewrite_inst_with_rules, rewrite_module_with_rules};
use crate::declarations::{
    admissible, deduplicated_types, key_head, lemma_admissible_prefix, lemma_scan_push,
    operands_key, scan_section, structural_key,
};
use rspirv::spirv;
use std::collections::{HashMap, HashSet};
use vstd::prelude::*;

verus! {

/// Whether `capability` is among `seen`.
fn seen_before(seen: &Vec<spirv::Capability>, capability: spirv::Capability) -> (found: bool)
    ensures
        found == seen@.contains(capability),
{
    let mut i: usize = 0;
    while i < seen.len()
        invariant
            i <= seen.len(),
            forall|j: int| 0 <= j < i ==> seen[j] != capability,
        decreases seen.len() - i,
    {
        if seen[i] == capability {
            return true;
        }
        i += 1;
    }
    false
}

/// Removes every capability declaration that repeats a capability declared
/// earlier in the section. The others keep their order, an instruction whose
/// first operand is no capability always stays, and no other section is
/// touched.
pub fn remove_duplicate_capablities(module: &mut Module)
    ensures
        final(module)@ == deduplicated_capabilities(old(module)@),
{
    let mut declared: Vec<Instruction> = Vec::new();
    std::mem::swap(&mut module.capabilities, &mut declared);
    let ghost given = declared.deep_view();
    let mut seen: Vec<spirv::Capability> = Vec::new();
    assert(given.take(0) =~= Seq::empty());
    assert(module.capabilities.deep_view() =~= Seq::empty());
    for inst in it: declared
        invariant
            it.seq() == declared@,
            given == declared.deep_view(),
            given == old(module)@.capabilities,
            module.ext_inst_imports == old(module).ext_inst_imports,
            module.types_global_values == old(module).types_global_values,
            module.others == old(module).others,
            module.capabilities.deep_view() == distinct_capabilities(
                given.take(it.index() as int),
            ),
            forall|capability: spirv::Capability|
                seen@.contains(capability) <==> declares_capability(
                    given.take(it.index() as int),
                    capability,
                ),
    {
        let ghost before = given.take(it.index() as int);
        let ghost kept = module.capabilities.deep_view();
        let ghost seen_so_far = seen@;
        proof {
            lemma_distinct_push(before, inst@);
            assert(before.push(inst@) =~= given.take(it.index() + 1));
        }
        let keep = if inst.operands.len() > 0 {
            match &inst.operands[0] {
                Argument::Capability(capability) => {
                    if seen_before(&seen, *capability) {
                        false
                    } else {
                        seen.push(*capability);
                        true
                    }
                },
                _ => true,
            }
        } else {
            true
        };
        proof {
            let after = before.push(inst@);
            assert forall|capability: spirv::Capability|
                seen@.contains(capability) <==> declares_capability(after, capability) by {
                if declares_capability(before, capability) {
                    let k = choose|k: int|
                        0 <= k < before.len() && declared_capability(#[trigger] before[k]) == Some(
                            capability,
                        );
                    assert(after[k] == before[k]);
                }
                if declares_capability(after, capability) {
                    let k = choose|k: int|
                        0 <= k < after.len() && declared_capability(#[trigger] after[k]) == Some(
                            capability,
                        );
                    if k < before.len() {
                        assert(after[k] == before[k]);
                    }
                }
                if declared_capability(inst@) == Some(capability) {
                    assert(after[before.len() as int] == inst@);
                }
                if seen@.contains(capability) && !seen_so_far.contains(capability) {
                    let k = choose|k: int| 0 <= k < seen@.len() && seen@[k] == capability;
                    if k < seen_so_far.len() {
                        assert(seen_so_far[k] == capability);
                    }
                }
                if seen_so_far.contains(capability) {
                    let k = choose|k: int| 0 <= k < seen_so_far.len() && seen_so_far[k] == capability;
                    assert(seen@[k] == capability);
                }
                if keep && declared_capability(inst@) == Some(capability) {
                    assert(seen@[seen_so_far.len() as int] == capability);
                }
            }
        }
        if keep {
            module.capabilities.push(inst);
            assert(module.capabilities.deep_view() =~= kept.push(inst@));
        }
    }
    assert(given.take(given.len() as int) =~= given);
}

/// The identifier entered for `name`, if there is one.
fn find_import(names: &Vec<String>, ids: &Vec<u32>, name: &String) -> (found: Option<u32>)
    requires
        names.len() == ids.len(),
    ensures
        match found {
            Some(id) => exists|r: int| 0 <= r < names.len() && names[r]@ == name@ && ids[r] == id,
            None => forall|r: int| 0 <= r < names.len() ==> names[r]@ != name@,
        },
{
    let mut r: usize = 0;
    while r < names.len()
        invariant
            r <= names.len(),
            names.len() == ids.len(),
            forall|j: int| 0 <= j < r ==> names[j]@ != name@,
        decreases names.len() - r,
    {
        if names[r] == *name {
            return Some(ids[r]);
        }
        r += 1;
    }
    None
}

/// Scans the imports in order. Every import that repeats a name is
/// overwritten with the deletion marker and its identifier entered into
/// `rules`. Stops, and answers `false`, at an import that the pass cannot take.
fn mark_duplicate_imports(section: &mut Vec<Instruction>, rules: &mut HashMap<u32, u32>) -> (ok: bool)
    requires
        old(rules)@ == Map::<u32, u32>::empty(),
    ensures
        ok == imports_admissible(old(section).deep_view()),
        ok ==> final(section).deep_view() == marked_imports(old(section).deep_view()),
        ok ==> final(rules)@ == import_rules(old(section).deep_view()),
{
    broadcast use vstd::std_specs::hash::group_hash_axioms;

    let ghost given = section.deep_view();
    let mut names: Vec<String> = Vec::new();
    let mut ids: Vec<u32> = Vec::new();
    let count = section.len();
    let mut i: usize = 0;
    assert(given.take(0) =~= Seq::empty());
    while i < count
        invariant
            i <= count,
            count == section.len(),
            given == old(section).deep_view(),
            given.len() == count,
            names.len() == ids.len(),
            imports_admissible(given.take(i as int)),
            rules@ == import_rules(given.take(i as int)),
            marked_imports(given.take(i as int)).len() == i,
            forall|j: int| 0 <= j < i ==> section[j]@ == marked_imports(given.take(i as int))[j],
            forall|j: int| i <= j < count ==> section[j]@ == given[j],
            forall|r: int|
                0 <= r < names.len() ==> imports_name(given.take(i as int), #[trigger] names[r]@)
                    && ids[r] == canonical_import(given.take(i as int), names[r]@),
            forall|name: Seq<char>| #[trigger]
                imports_name(given.take(i as int), name) ==> exists|r: int|
                    0 <= r < names.len() && names[r]@ == name,
        decreases count - i,
    {
        let ghost earlier = given.take(i as int);
        let ghost inst = given[i as int];
        proof {
            lemma_imports_push(earlier, inst);
            assert(earlier.push(inst) =~= given.take(i + 1));
            if imports_admissible(given) {
                lemma_imports_admissible_prefix(given, i as int);
            }
        }
        let name = if section[i].operands.len() > 0 {
            match &section[i].operands[0] {
                Argument::LiteralString(name) => Some(name.clone()),
                _ => None,
            }
        } else {
            None
        };
        if let Some(name) = name {
            let id = match section[i].result_id {
                Some(id) => id,
                None => {
                    return false;
                },
            };
            match find_import(&names, &ids, &name) {
                None => {
                    let ghost known = names@;
                    names.push(name);
                    ids.push(id);
                    proof {
                        let longer = given.take(i + 1);
                        assert forall|r: int| 0 <= r < names.len() implies imports_name(
                            longer,
                            #[trigger] names[r]@,
                        ) && ids[r] == canonical_import(longer, names[r]@) by {
                            if r < known.len() {
                                assert(names[r] == known[r]);
                            }
                        }
                        assert forall|other: Seq<char>| #[trigger]
                            imports_name(longer, other) implies exists|r: int|
                            0 <= r < names.len() && names[r]@ == other by {
                            if imports_name(earlier, other) {
                                let r = choose|r: int| 0 <= r < known.len() && known[r]@ == other;
                                assert(names[r]@ == other);
                            } else {
                                assert(names[known.len() as int]@ == other);
                            }
                        }
                    }
                },
                Some(canonical) => {
                    if rules.contains_key(&id) {
                        return false;
                    }
                    rules.insert(id, canonical);
                    section[i] = Instruction::nop();
                },
            }
        }
        i += 1;
    }
    assert(given.take(count as int) =~= given);
    assert(section.deep_view() =~= marked_imports(given));
    true
}

/// Redirects the set operand of `inst` where it invokes an extended instruction.
fn redirect_ext_inst(inst: &mut Instruction, rules: &HashMap<u32, u32>)
    ensures
        final(inst)@ == redirect_instruction(rules@, old(inst)@),
{
    if inst.opcode == OP_EXT_INST && inst.operands.len() > 0 {
        let target = match &inst.operands[0] {
            Argument::IdRef(set) => Some(resolve_id(rules, *set)),
            _ => None,
        };
        if let Some(set) = target {
            inst.operands[0] = Argument::IdRef(set);
            assert(inst@.operands =~= redirect_instruction(rules@, old(inst)@).operands);
        }
    }
}

/// Redirects every invocation in a section.
fn redirect_section_with_rules(section: &mut Vec<Instruction>, rules: &HashMap<u32, u32>)
    ensures
        final(section).deep_view() == redirect_section(rules@, old(section).deep_view()),
{
    let count = section.len();
    let mut i: usize = 0;
    while i < count
        invariant
            i <= count,
            count == old(section).len(),
            section.len() == count,
            forall|j: int| 0 <= j < i ==> section[j]@ == redirect_instruction(rules@, old(section)[j]@),
            forall|j: int| i <= j < count ==> section[j] == old(section)[j],
        decreases count - i,
    {
        redirect_ext_inst(&mut section[i], rules);
        i += 1;
    }
    assert(section.deep_view() =~= redirect_section(rules@, old(section).deep_view()));
}

/// Deduplicates the imports of extended instruction sets: of the imports that
/// give the same name the first stays, and every instruction of the module
/// that invokes one of the others is redirected to it. An import that gives
/// a name must have a result identifier, and no identifier may be replaced
/// twice; `try_remove_duplicate_ext_inst_imports` tests this first.
pub fn remove_duplicate_ext_inst_imports(module: &mut Module)
    requires
        imports_admissible(old(module)@.ext_inst_imports),
    ensures
        final(module)@ == deduplicated_imports(old(module)@),
{
    let mut rules: HashMap<u32, u32> = HashMap::new();
    mark_duplicate_imports(&mut module.ext_inst_imports, &mut rules);
    remove_markers(&mut module.ext_inst_imports);
    redirect_section_with_rules(&mut module.capabilities, &rules);
    redirect_section_with_rules(&mut module.ext_inst_imports, &rules);
    redirect_section_with_rules(&mut module.types_global_values, &rules);
    redirect_section_with_rules(&mut module.others, &rules);
}

/// Whether the imports of `module` can be deduplicated.
pub fn imports_are_admissible(module: &Module) -> (ok: bool)
    ensures
        ok == imports_admissible(module@.ext_inst_imports),
{
    let mut section = clone_section(&module.ext_inst_imports);
    let mut rules: HashMap<u32, u32> = HashMap::new();
    mark_duplicate_imports(&mut section, &mut rules)
}

/// Deduplicates the imports of `module` if they can be deduplicated, and
/// otherwise leaves the module as it is. Answers whether it did.
pub fn try_remove_duplicate_ext_inst_imports(module: &mut Module) -> (done: bool)
    ensures
        done == imports_admissible(old(module)@.ext_inst_imports),
        done ==> final(module)@ == deduplicated_imports(old(module)@),
        !done ==> final(module)@ == old(module)@,
{
    if imports_are_admissible(module) {
        remove_duplicate_ext_inst_imports(module);
        true
    } else {
        false
    }
}

/// Builds the structural key of a declaration.
fn structural_key_of(inst: &Instruction, unresolved: &HashSet<u32>) -> (key: Vec<u32>)
    ensures
        key@ == structural_key(inst@, unresolved@),
{
    broadcast use vstd::std_specs::hash::group_hash_axioms;

    let mut key: Vec<u32> = Vec::new();
    key.push(inst.opcode);
    if let Some(ty) = inst.result_type {
        key.push(ty);
    }
    assert(key@ =~= key_head(inst@));
    let count = inst.operands.len();
    let mut i: usize = 0;
    while i < count
        invariant
            i <= count,
            count == inst.operands.len(),
            key@ == key_head(inst@) + operands_key(inst@.operands.take(i as int), unresolved@),
        decreases count - i,
    {
        let pending = match &inst.operands[i] {
            Argument::IdRef(id) => unresolved.contains(id),
            _ => false,
        };
        if pending {
            assemble_operand(&Argument::IdRef(0), &mut key);
        } else {
            assemble_operand(&inst.operands[i], &mut key);
        }
        proof {
            let before = inst@.operands.take(i as int);
            let after = inst@.operands.take(i + 1);
            assert(after.drop_last() =~= before);
            assert(after.last() == inst.operands[i as int]@);
        }
        i += 1;
    }
    assert(inst@.operands.take(count as int) =~= inst@.operands);
    key
}

/// Scans the section in declaration order. Every declaration that repeats an
/// earlier one is overwritten with the deletion marker and its identifier
/// entered into `rules`. Stops, and answers `false`, at a declaration that
/// the scan cannot take.
fn mark_duplicate_types(section: &mut Vec<Instruction>, rules: &mut HashMap<u32, u32>) -> (ok: bool)
    requires
        old(rules)@ == Map::<u32, u32>::empty(),
    ensures
        ok == admissible(old(section).deep_view()),
        ok ==> final(section).deep_view() == scan_section(old(section).deep_view()).marked,
        ok ==> final(rules)@ == scan_section(old(section).deep_view()).rules,
{
    broadcast use vstd::std_specs::hash::group_hash_axioms;

    let ghost given = section.deep_view();
    let mut table = KeyTable::new();
    let mut unresolved: HashSet<u32> = HashSet::new();
    let count = section.len();
    let mut i: usize = 0;
    assert(given.take(0) =~= Seq::empty());
    while i < count
        invariant
            i <= count,
            count == section.len(),
            given == old(section).deep_view(),
            given.len() == count,
            table.well_formed(),
            admissible(given.take(i as int)),
            rules@ == scan_section(given.take(i as int)).rules,
            table@ == scan_section(given.take(i as int)).canonical,
            unresolved@ == scan_section(given.take(i as int)).unresolved,
            scan_section(given.take(i as int)).marked.len() == i,
            forall|j: int| 0 <= j < i ==> section[j]@ == scan_section(given.take(i as int)).marked[j],
            forall|j: int| i <= j < count ==> section[j]@ == given[j],
        decreases count - i,
    {
        let ghost inst = given[i as int];
        proof {
            lemma_scan_push(given.take(i as int), inst);
            assert(given.take(i as int).push(inst) =~= given.take(i + 1));
            if admissible(given) {
                lemma_admissible_prefix(given, i as int);
            }
        }
        let opcode = section[i].opcode;
        if opcode == OP_TYPE_FORWARD_POINTER {
            if section[i].operands.len() > 0 {
                if let Argument::IdRef(id) = &section[i].operands[0] {
                    unresolved.insert(*id);
                }
            }
        } else {
            let id = match section[i].result_id {
                Some(id) => id,
                None => {
                    return false;
                },
            };
            if opcode == OP_TYPE_POINTER {
                unresolved.remove(&id);
            }
            rewrite_inst_with_rules(&mut section[i], rules);
            let key = structural_key_of(&section[i], &unresolved);
            match table.get(&key) {
                None => {
                    table.insert(key, id);
                },
                Some(canonical) => {
                    if rules.contains_key(&id) {
                        return false;
                    }
                    rules.insert(id, canonical);
                    section[i] = Instruction::nop();
                },
            }
        }
        i += 1;
    }
    assert(given.take(count as int) =~= given);
    assert(section.deep_view() =~= scan_section(given).marked);
    true
}

/// Deduplicates the section of types, constants and global variables, and
/// resolves every reference in the module to the surviving declarations.
/// The section must be in dependency order, which the scan takes for granted;
/// every declaration but a forward pointer must have a result identifier, and
/// no identifier may be replaced twice. `try_remove_duplicate_types` tests
/// the latter two first.
pub fn remove_duplicate_types(module: &mut Module)
    requires
        admissible(old(module)@.types_global_values),
    ensures
        final(module)@ == deduplicated_types(old(module)@),
{
    let mut rules: HashMap<u32, u32> = HashMap::new();
    mark_duplicate_types(&mut module.types_global_values, &mut rules);
    remove_markers(&mut module.types_global_values);
    rewrite_module_with_rules(module, &rules);
}

/// Whether the types of `module` can be deduplicated.
pub fn types_are_admissible(module: &Module) -> (ok: bool)
    ensures
        ok == admissible(module@.types_global_values),
{
    let mut section = clone_section(&module.types_global_values);
    let mut rules: HashMap<u32, u32> = HashMap::new();
    mark_duplicate_types(&mut section, &mut rules)
}

/// Deduplicates the types of `module` if they can be deduplicated, and
/// otherwise leaves the module as it is. Answers whether it did.
pub fn try_remove_duplicate_types(module: &mut Module) -> (done: bool)
    ensures
        done == admissible(old(module)@.types_global_values),
        done ==> final(module)@ == deduplicated_types(old(module)@),
        !done ==> final(module)@ == old(module)@,
{
    if types_are_admissible(module) {
        remove_duplicate_types(module);
        true
    } else {
        false
    }
}

} // verus!
