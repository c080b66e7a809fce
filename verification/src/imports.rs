//! What deduplicating the imports of extended instruction sets means: the
//! first import of a name is canonical, every later import of that name is
//! deleted, and the instructions that invoke a deleted import are redirected.

use crate::ir::{nop, ArgumentView, InstructionView, ModuleView, OP_EXT_INST};
use crate::markers::compacted;
use crate::rewrite::resolve;
use vstd::prelude::*;

verus! {

/// The name that an import gives: its first operand, where that is a literal
/// string. An instruction of another shape names nothing and is left alone.
pub open spec fn import_name(inst: InstructionView) -> Option<Seq<char>> {
    if inst.operands.len() > 0 {
        match inst.operands[0] {
            ArgumentView::LiteralString(name) => Some(name),
            _ => None,
        }
    } else {
        None
    }
}

/// Some import of the section has the name `name`.
pub open spec fn imports_name(section: Seq<InstructionView>, name: Seq<char>) -> bool {
    exists|k: int| 0 <= k < section.len() && import_name(#[trigger] section[k]) == Some(name)
}

/// The identifier of the first import of `name` in a section that imports it.
pub open spec fn canonical_import(section: Seq<InstructionView>, name: Seq<char>) -> u32
    decreases section.len(),
{
    if section.len() == 0 {
        0
    } else if imports_name(section.drop_last(), name) {
        canonical_import(section.drop_last(), name)
    } else {
        match section.last().result_id {
            Some(id) => id,
            None => 0,
        }
    }
}

/// `inst` imports a name that `earlier` imports already.
pub open spec fn repeats_import(earlier: Seq<InstructionView>, inst: InstructionView) -> bool {
    match import_name(inst) {
        Some(name) => imports_name(earlier, name),
        None => false,
    }
}

/// The rewrite map of the pass: the identifier of every repeated import leads
/// to the identifier of the first import of the same name.
pub open spec fn import_rules(section: Seq<InstructionView>) -> Map<u32, u32>
    decreases section.len(),
{
    if section.len() == 0 {
        Map::empty()
    } else {
        let earlier = section.drop_last();
        let last = section.last();
        if repeats_import(earlier, last) {
            import_rules(earlier).insert(
                last.result_id.unwrap(),
                canonical_import(earlier, import_name(last).unwrap()),
            )
        } else {
            import_rules(earlier)
        }
    }
}

/// The section with every repeated import overwritten by the deletion marker.
pub open spec fn marked_imports(section: Seq<InstructionView>) -> Seq<InstructionView>
    decreases section.len(),
{
    if section.len() == 0 {
        section
    } else {
        let earlier = section.drop_last();
        let last = section.last();
        if repeats_import(earlier, last) {
            marked_imports(earlier).push(nop())
        } else {
            marked_imports(earlier).push(last)
        }
    }
}

/// Whether the pass can take `inst` after `earlier`: an import that gives a
/// name has a result identifier, and one that repeats a name has not been
/// replaced already.
pub open spec fn import_admissible(earlier: Seq<InstructionView>, inst: InstructionView) -> bool {
    import_name(inst) is Some ==> {
        &&& inst.result_id is Some
        &&& repeats_import(earlier, inst) ==> !import_rules(earlier).contains_key(
            inst.result_id.unwrap(),
        )
    }
}

/// Whether the pass can take every import of the section in turn.
pub open spec fn imports_admissible(section: Seq<InstructionView>) -> bool
    decreases section.len(),
{
    section.len() == 0 || {
        &&& imports_admissible(section.drop_last())
        &&& import_admissible(section.drop_last(), section.last())
    }
}

/// The instruction with its set operand redirected: where it invokes an
/// extended instruction and its first operand is a reference, that reference
/// is resolved. Nothing else about it changes, and no other instruction does.
pub open spec fn redirect_instruction(rules: Map<u32, u32>, inst: InstructionView) -> InstructionView {
    if inst.opcode == OP_EXT_INST && inst.operands.len() > 0 {
        match inst.operands[0] {
            ArgumentView::IdRef(set) => InstructionView {
                opcode: inst.opcode,
                result_type: inst.result_type,
                result_id: inst.result_id,
                operands: inst.operands.update(0, ArgumentView::IdRef(resolve(rules, set))),
            },
            _ => inst,
        }
    } else {
        inst
    }
}

/// The section with every invocation redirected.
pub open spec fn redirect_section(rules: Map<u32, u32>, section: Seq<InstructionView>) -> Seq<
    InstructionView,
> {
    Seq::new(section.len(), |i: int| redirect_instruction(rules, section[i]))
}

/// The module with every invocation of every section redirected.
pub open spec fn redirect_module(rules: Map<u32, u32>, module: ModuleView) -> ModuleView {
    ModuleView {
        capabilities: redirect_section(rules, module.capabilities),
        ext_inst_imports: redirect_section(rules, module.ext_inst_imports),
        types_global_values: redirect_section(rules, module.types_global_values),
        others: redirect_section(rules, module.others),
    }
}

/// The module after deduplicating its imports: the repeated imports are gone
/// from their section, and every invocation in the module is redirected.
pub open spec fn deduplicated_imports(module: ModuleView) -> ModuleView {
    redirect_module(
        import_rules(module.ext_inst_imports),
        ModuleView {
            capabilities: module.capabilities,
            ext_inst_imports: compacted(marked_imports(module.ext_inst_imports)),
            types_global_values: module.types_global_values,
            others: module.others,
        },
    )
}

/// The section extended by one import.
pub proof fn lemma_imports_push(section: Seq<InstructionView>, inst: InstructionView)
    ensures
        section.push(inst).drop_last() == section,
        section.push(inst).last() == inst,
        imports_admissible(section.push(inst)) == (imports_admissible(section)
            && import_admissible(section, inst)),
        forall|name: Seq<char>|
            imports_name(section, name) ==> #[trigger] imports_name(section.push(inst), name)
                && canonical_import(section.push(inst), name) == canonical_import(section, name),
        forall|name: Seq<char>|
            import_name(inst) == Some(name) ==> #[trigger] imports_name(section.push(inst), name),
        forall|name: Seq<char>| #[trigger]
            imports_name(section.push(inst), name) ==> imports_name(section, name) || import_name(
                inst,
            ) == Some(name),
{
    let longer = section.push(inst);
    assert(longer.drop_last() =~= section);
    assert forall|name: Seq<char>| imports_name(section, name) implies #[trigger] imports_name(
        longer,
        name,
    ) by {
        let k = choose|k: int|
            0 <= k < section.len() && import_name(#[trigger] section[k]) == Some(name);
        assert(longer[k] == section[k]);
    }
    assert forall|name: Seq<char>| import_name(inst) == Some(name) implies #[trigger] imports_name(
        longer,
        name,
    ) by {
        assert(longer[section.len() as int] == inst);
    }
    assert forall|name: Seq<char>| #[trigger] imports_name(longer, name) implies imports_name(
        section,
        name,
    ) || import_name(inst) == Some(name) by {
        let k = choose|k: int|
            0 <= k < longer.len() && import_name(#[trigger] longer[k]) == Some(name);
        if k < section.len() {
            assert(longer[k] == section[k]);
        }
    }
}

/// A section that is admissible is so up to every import in it.
pub proof fn lemma_imports_admissible_prefix(section: Seq<InstructionView>, n: int)
    requires
        imports_admissible(section),
        0 <= n <= section.len(),
    ensures
        imports_admissible(section.take(n)),
        n < section.len() ==> import_admissible(section.take(n), section[n]),
    decreases section.len(),
{
    if n == section.len() {
        assert(section.take(n) =~= section);
    } else {
        lemma_imports_admissible_prefix(section.drop_last(), n);
        assert(section.drop_last().take(n) =~= section.take(n));
        if n == section.len() - 1 {
            assert(section.take(n) =~= section.drop_last());
        }
    }
}

} // verus!
