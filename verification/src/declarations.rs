//! What deduplicating the section of types, constants and global variables
//! means: the structural key of a declaration, the scan that decides in
//! declaration order which declarations repeat an earlier one, and the module
//! that results.

use crate::ir::{
    nop, ArgumentView, InstructionView, ModuleView, OP_TYPE_FORWARD_POINTER, OP_TYPE_POINTER,
};
use crate::markers::compacted;
use crate::outside::operand_words;
use crate::rewrite::{rewrite_instruction, rewrite_module};
use vstd::prelude::*;

verus! {

/// The operand as it enters a key: a reference to a forward pointer that is
/// still unresolved is replaced by the fixed placeholder, a reference to
/// identifier zero. All pending forward pointers therefore look alike.
pub open spec fn masked(operand: ArgumentView, unresolved: Set<u32>) -> ArgumentView {
    match operand {
        ArgumentView::IdRef(id) => if unresolved.contains(id) {
            ArgumentView::IdRef(0)
        } else {
            operand
        },
        _ => operand,
    }
}

/// The encodings of the masked operands, one after the other.
pub open spec fn operands_key(operands: Seq<ArgumentView>, unresolved: Set<u32>) -> Seq<u32>
    decreases operands.len(),
{
    if operands.len() == 0 {
        Seq::empty()
    } else {
        operands_key(operands.drop_last(), unresolved) + operand_words(
            masked(operands.last(), unresolved),
        )
    }
}

/// The opcode, and the result type where there is one: the part of a key that
/// precedes the operands.
pub open spec fn key_head(inst: InstructionView) -> Seq<u32> {
    match inst.result_type {
        Some(ty) => seq![inst.opcode, ty],
        None => seq![inst.opcode],
    }
}

/// The structural key of a declaration: opcode, result type if any, and the
/// encoded operands. The declared result identifier is no part of it, so two
/// declarations that differ in nothing else have the same key.
pub open spec fn structural_key(inst: InstructionView, unresolved: Set<u32>) -> Seq<u32> {
    key_head(inst) + operands_key(inst.operands, unresolved)
}

/// The state of a scan over the section.
pub struct Scan {
    /// Deleted identifier to the canonical identifier that replaces it.
    pub rules: Map<u32, u32>,
    /// Structural key to the identifier of the first declaration that had it.
    pub canonical: Map<Seq<u32>, u32>,
    /// Identifiers announced by a forward pointer whose pointer type has not
    /// been declared yet.
    pub unresolved: Set<u32>,
    /// The declarations scanned so far, each one either as it stands after
    /// resolving its references, or overwritten with the deletion marker.
    pub marked: Seq<InstructionView>,
}

/// The scan before the first declaration.
pub open spec fn scan_start() -> Scan {
    Scan {
        rules: Map::empty(),
        canonical: Map::empty(),
        unresolved: Set::empty(),
        marked: Seq::empty(),
    }
}

/// The identifier that a forward pointer announces, if its first operand is a reference.
pub open spec fn announced_pointer(inst: InstructionView) -> Option<u32> {
    if inst.operands.len() > 0 {
        match inst.operands[0] {
            ArgumentView::IdRef(id) => Some(id),
            _ => None,
        }
    } else {
        None
    }
}

/// The unresolved set once `inst` has been seen: the declaration of a pointer
/// type resolves the forward pointer of its identifier.
pub open spec fn unresolved_at(unresolved: Set<u32>, inst: InstructionView) -> Set<u32> {
    match inst.result_id {
        Some(id) => if inst.opcode == OP_TYPE_POINTER {
            unresolved.remove(id)
        } else {
            unresolved
        },
        None => unresolved,
    }
}

/// The key under which `inst` is looked up when the scan is in state `scan`:
/// that of the instruction with its references resolved by the rules so far.
pub open spec fn key_at(scan: Scan, inst: InstructionView) -> Seq<u32> {
    structural_key(rewrite_instruction(scan.rules, inst), unresolved_at(scan.unresolved, inst))
}

/// Whether the scan can take `inst` in state `scan`. A forward pointer always
/// passes. Any other declaration needs a result identifier, and one that
/// repeats an earlier declaration must not have been replaced already: no
/// identifier is ever given two replacements.
pub open spec fn step_admissible(scan: Scan, inst: InstructionView) -> bool {
    inst.opcode != OP_TYPE_FORWARD_POINTER ==> {
        &&& inst.result_id is Some
        &&& scan.canonical.contains_key(key_at(scan, inst)) ==> !scan.rules.contains_key(
            inst.result_id.unwrap(),
        )
    }
}

/// One step of the scan. A forward pointer is recorded as unresolved and left
/// alone. Any other declaration has its references resolved and its key
/// looked up: the first declaration of a key becomes canonical for it, a later
/// one is replaced by the marker and its identifier mapped to the canonical one.
pub open spec fn scan_step(scan: Scan, inst: InstructionView) -> Scan {
    if inst.opcode == OP_TYPE_FORWARD_POINTER {
        Scan {
            unresolved: match announced_pointer(inst) {
                Some(id) => scan.unresolved.insert(id),
                None => scan.unresolved,
            },
            marked: scan.marked.push(inst),
            ..scan
        }
    } else {
        let key = key_at(scan, inst);
        let id = inst.result_id.unwrap();
        if scan.canonical.contains_key(key) {
            Scan {
                rules: scan.rules.insert(id, scan.canonical[key]),
                canonical: scan.canonical,
                unresolved: unresolved_at(scan.unresolved, inst),
                marked: scan.marked.push(nop()),
            }
        } else {
            Scan {
                rules: scan.rules,
                canonical: scan.canonical.insert(key, id),
                unresolved: unresolved_at(scan.unresolved, inst),
                marked: scan.marked.push(rewrite_instruction(scan.rules, inst)),
            }
        }
    }
}

/// The scan over a whole section, in declaration order.
pub open spec fn scan_section(section: Seq<InstructionView>) -> Scan
    decreases section.len(),
{
    if section.len() == 0 {
        scan_start()
    } else {
        scan_step(scan_section(section.drop_last()), section.last())
    }
}

/// Whether the scan can take every declaration of the section in turn.
pub open spec fn admissible(section: Seq<InstructionView>) -> bool
    decreases section.len(),
{
    section.len() == 0 || {
        &&& admissible(section.drop_last())
        &&& step_admissible(scan_section(section.drop_last()), section.last())
    }
}

/// The identifiers that deduplicating the types of `module` deletes, each
/// with the canonical identifier that takes its place.
pub open spec fn type_rules(module: ModuleView) -> Map<u32, u32> {
    scan_section(module.types_global_values).rules
}

/// The module after deduplicating its types: the section is scanned and
/// compacted, and then every instruction of the module has its references
/// resolved by the rules that the scan produced.
pub open spec fn deduplicated_types(module: ModuleView) -> ModuleView {
    let scan = scan_section(module.types_global_values);
    rewrite_module(
        scan.rules,
        ModuleView {
            capabilities: module.capabilities,
            ext_inst_imports: module.ext_inst_imports,
            types_global_values: compacted(scan.marked),
            others: module.others,
        },
    )
}

/// The scan of a section extended by one declaration.
pub proof fn lemma_scan_push(section: Seq<InstructionView>, inst: InstructionView)
    ensures
        scan_section(section.push(inst)) == scan_step(scan_section(section), inst),
        admissible(section.push(inst)) == (admissible(section) && step_admissible(
            scan_section(section),
            inst,
        )),
{
    assert(section.push(inst).drop_last() =~= section);
}

/// A section that is admissible is so up to every declaration in it.
pub proof fn lemma_admissible_prefix(section: Seq<InstructionView>, n: int)
    requires
        admissible(section),
        0 <= n <= section.len(),
    ensures
        admissible(section.take(n)),
        n < section.len() ==> step_admissible(scan_section(section.take(n)), section[n]),
    decreases section.len(),
{
    if n == section.len() {
        assert(section.take(n) =~= section);
    } else {
        lemma_admissible_prefix(section.drop_last(), n) ;
        assert(section.drop_last().take(n) =~= section.take(n));
        if n == section.len() - 1 {
            assert(section.take(n) =~= section.drop_last());
        }
    }
}

} // verus!
