//! What holds of deduplicated imports: each name is imported once, and no
//! invocation of a deleted import is left behind.

use crate::imports::{
    canonical_import, deduplicated_imports, import_name, import_rules, imports_admissible,
    imports_name, lemma_imports_push, marked_imports, redirect_instruction, redirect_section,
    repeats_import,
};
use crate::ir::{ArgumentView, InstructionView, ModuleView, OP_EXT_INST, OP_NOP};
use crate::markers::compacted;
use crate::rewrite::resolve;
use vstd::prelude::*;

verus! {

/// Every import that gives a name has a result identifier, and no two of
/// them have the same: what the producer of a module guarantees.
pub open spec fn distinct_import_ids(section: Seq<InstructionView>) -> bool {
    &&& forall|i: int|
        0 <= i < section.len() && import_name(section[i]) is Some ==> (#[trigger] section[i]).result_id is Some
    &&& forall|i: int, j: int|
        0 <= i < j < section.len() && import_name(section[i]) is Some && import_name(section[j]) is Some
            ==> (#[trigger] section[i]).result_id != (#[trigger] section[j]).result_id
}

/// The import at `k` is the first of its name and has the identifier `id`.
pub open spec fn first_import_at(section: Seq<InstructionView>, k: int, id: u32) -> bool {
    &&& 0 <= k < section.len()
    &&& import_name(section[k]) is Some
    &&& !repeats_import(section.take(k), section[k])
    &&& section[k].result_id == Some(id)
}

/// The import at `k` repeats an earlier name and has the identifier `id`.
pub open spec fn repeated_import_at(section: Seq<InstructionView>, k: int, id: u32) -> bool {
    &&& 0 <= k < section.len()
    &&& repeats_import(section.take(k), section[k])
    &&& section[k].result_id == Some(id)
}

/// A longer section has the first and the repeated imports of its beginning.
proof fn lemma_imports_extend(section: Seq<InstructionView>, inst: InstructionView)
    ensures
        forall|k: int, id: u32|
            first_import_at(section, k, id) ==> #[trigger] first_import_at(section.push(inst), k, id),
        forall|k: int, id: u32|
            repeated_import_at(section, k, id) ==> #[trigger] repeated_import_at(
                section.push(inst),
                k,
                id,
            ),
{
    let longer = section.push(inst);
    assert forall|k: int, id: u32| first_import_at(section, k, id) implies #[trigger] first_import_at(
        longer,
        k,
        id,
    ) by {
        assert(longer[k] == section[k]);
        assert(longer.take(k) =~= section.take(k));
    }
    assert forall|k: int, id: u32| repeated_import_at(section, k, id) implies #[trigger] repeated_import_at(
        longer,
        k,
        id,
    ) by {
        assert(longer[k] == section[k]);
        assert(longer.take(k) =~= section.take(k));
    }
}

/// The canonical identifier of a name is that of the first import of the name.
pub proof fn lemma_canonical_is_first(section: Seq<InstructionView>, name: Seq<char>)
    requires
        imports_name(section, name),
        forall|i: int|
            0 <= i < section.len() && import_name(section[i]) is Some ==> (#[trigger] section[i]).result_id is Some,
    ensures
        exists|k: int|
            first_import_at(section, k, canonical_import(section, name)) && import_name(
                section[k],
            ) == Some(name),
    decreases section.len(),
{
    let front = section.drop_last();
    let last = section.last();
    assert(front.push(last) =~= section);
    lemma_imports_push(front, last);
    lemma_imports_extend(front, last);
    if imports_name(front, name) {
        assert forall|i: int| 0 <= i < front.len() && import_name(front[i]) is Some implies (
        #[trigger] front[i]).result_id is Some by {
            assert(front[i] == section[i]);
        }
        lemma_canonical_is_first(front, name);
        let k = choose|k: int|
            first_import_at(front, k, canonical_import(front, name)) && import_name(front[k])
                == Some(name);
        assert(first_import_at(section, k, canonical_import(section, name)));
        assert(section[k] == front[k]);
    } else {
        let n = front.len() as int;
        assert(section.take(n) =~= front);
        assert(section[n] == last);
        assert(first_import_at(section, n, canonical_import(section, name)));
    }
}

/// Every rule leads from a repeated import to the first import of its name.
pub proof fn lemma_import_rules_grounded(section: Seq<InstructionView>)
    requires
        distinct_import_ids(section),
    ensures
        imports_admissible(section),
        forall|id: u32| #[trigger]
            import_rules(section).contains_key(id) ==> exists|k: int|
                repeated_import_at(section, k, id),
        forall|id: u32| #[trigger]
            import_rules(section).contains_key(id) ==> exists|k: int|
                first_import_at(section, k, import_rules(section)[id]),
    decreases section.len(),
{
    if section.len() > 0 {
        let front = section.drop_last();
        let last = section.last();
        let n = front.len() as int;
        assert(front.push(last) =~= section);
        assert(section.take(n) =~= front);
        assert(section[n] == last);
        assert(distinct_import_ids(front)) by {
            assert forall|i: int| 0 <= i < front.len() && import_name(front[i]) is Some implies (
            #[trigger] front[i]).result_id is Some by {
                assert(front[i] == section[i]);
            }
            assert forall|i: int, j: int|
                0 <= i < j < front.len() && import_name(front[i]) is Some && import_name(
                    front[j],
                ) is Some implies (#[trigger] front[i]).result_id != (#[trigger] front[j]).result_id by {
                assert(front[i] == section[i]);
                assert(front[j] == section[j]);
            }
        }
        lemma_import_rules_grounded(front);
        lemma_imports_extend(front, last);
        let before = import_rules(front);
        let after = import_rules(section);
        if repeats_import(front, last) {
            let name = import_name(last).unwrap();
            let id = last.result_id.unwrap();
            let target = canonical_import(front, name);
            assert(after == before.insert(id, target));
            assert(!before.contains_key(id)) by {
                if before.contains_key(id) {
                    let k = choose|k: int| repeated_import_at(front, k, id);
                    assert(section[k] == front[k]);
                    assert(section[k].result_id == section[n].result_id);
                }
            }
            assert(repeated_import_at(section, n, id));
            lemma_canonical_is_first(front, name);
            let f = choose|k: int|
                first_import_at(front, k, target) && import_name(front[k]) == Some(name);
            assert(first_import_at(section, f, target));
            assert forall|other: u32| #[trigger] after.contains_key(other) implies (exists|k: int|
                repeated_import_at(section, k, other)) && (exists|k: int|
                first_import_at(section, k, after[other])) by {
                if other != id {
                    assert(before.contains_key(other));
                    assert(after[other] == before[other]);
                    let r = choose|k: int| repeated_import_at(front, k, other);
                    assert(repeated_import_at(section, r, other));
                    let k = choose|k: int| first_import_at(front, k, before[other]);
                    assert(first_import_at(section, k, before[other]));
                } else {
                    assert(repeated_import_at(section, n, other));
                    assert(first_import_at(section, f, after[other]));
                }
            }
        } else {
            assert(after == before);
            assert forall|other: u32| #[trigger] after.contains_key(other) implies (exists|k: int|
                repeated_import_at(section, k, other)) && (exists|k: int|
                first_import_at(section, k, after[other])) by {
                let r = choose|k: int| repeated_import_at(front, k, other);
                assert(repeated_import_at(section, r, other));
                let k = choose|k: int| first_import_at(front, k, before[other]);
                assert(first_import_at(section, k, before[other]));
            }
        }
    }
}

/// Where the imports have distinct identifiers, no canonical identifier is
/// itself deleted.
pub proof fn lemma_import_rules_end_at_survivors(section: Seq<InstructionView>, id: u32)
    requires
        distinct_import_ids(section),
        import_rules(section).contains_key(id),
    ensures
        !import_rules(section).contains_key(import_rules(section)[id]),
{
    lemma_import_rules_grounded(section);
    let rules = import_rules(section);
    let target = rules[id];
    if rules.contains_key(target) {
        let first = choose|k: int| first_import_at(section, k, target);
        let repeated = choose|k: int| repeated_import_at(section, k, target);
        if first < repeated {
            assert(section[first].result_id != section[repeated].result_id);
        } else if repeated < first {
            assert(section[repeated].result_id != section[first].result_id);
        }
    }
}

/// The instruction invokes an extended instruction of the set `id`.
pub open spec fn invokes(inst: InstructionView, id: u32) -> bool {
    &&& inst.opcode == OP_EXT_INST
    &&& inst.operands.len() > 0
    &&& inst.operands[0] == ArgumentView::IdRef(id)
}

/// Some instruction of the section invokes the set `id`.
pub open spec fn section_invokes(section: Seq<InstructionView>, id: u32) -> bool {
    exists|k: int| 0 <= k < section.len() && invokes(#[trigger] section[k], id)
}

/// Some instruction of the module, in whatever section, invokes the set `id`.
pub open spec fn module_invokes(module: ModuleView, id: u32) -> bool {
    ||| section_invokes(module.capabilities, id)
    ||| section_invokes(module.ext_inst_imports, id)
    ||| section_invokes(module.types_global_values, id)
    ||| section_invokes(module.others, id)
}

/// A section redirected by rules that never lead to a replaced identifier
/// invokes no replaced identifier.
proof fn lemma_redirected_section_is_clean(
    rules: Map<u32, u32>,
    section: Seq<InstructionView>,
    id: u32,
)
    requires
        rules.contains_key(id),
        forall|from: u32| #[trigger] rules.contains_key(from) ==> !rules.contains_key(rules[from]),
    ensures
        !section_invokes(redirect_section(rules, section), id),
{
    let out = redirect_section(rules, section);
    assert forall|k: int| 0 <= k < out.len() implies !invokes(#[trigger] out[k], id) by {
        let inst = section[k];
        assert(out[k] == redirect_instruction(rules, inst));
        if inst.opcode == OP_EXT_INST && inst.operands.len() > 0 {
            match inst.operands[0] {
                ArgumentView::IdRef(set) => {
                    assert(out[k].operands[0] == ArgumentView::IdRef(resolve(rules, set)));
                },
                _ => {},
            }
        }
    }
}

/// After deduplication no instruction anywhere in the module invokes an
/// import that the pass deleted, provided that the imports have distinct
/// result identifiers.
pub proof fn lemma_no_invocation_of_deleted(module: ModuleView, id: u32)
    requires
        distinct_import_ids(module.ext_inst_imports),
        import_rules(module.ext_inst_imports).contains_key(id),
    ensures
        !module_invokes(deduplicated_imports(module), id),
{
    let rules = import_rules(module.ext_inst_imports);
    assert forall|from: u32| #[trigger] rules.contains_key(from) implies !rules.contains_key(
        rules[from],
    ) by {
        lemma_import_rules_end_at_survivors(module.ext_inst_imports, from);
    }
    lemma_redirected_section_is_clean(rules, module.capabilities, id);
    lemma_redirected_section_is_clean(
        rules,
        compacted(marked_imports(module.ext_inst_imports)),
        id,
    );
    lemma_redirected_section_is_clean(rules, module.types_global_values, id);
    lemma_redirected_section_is_clean(rules, module.others, id);
}

/// Redirecting changes the set operand of an invocation and nothing else:
/// every other operand, the opcode and both identifiers stay, and so does
/// every instruction that is no invocation.
pub proof fn lemma_redirect_touches_the_set_only(rules: Map<u32, u32>, inst: InstructionView)
    ensures
        redirect_instruction(rules, inst).opcode == inst.opcode,
        redirect_instruction(rules, inst).result_type == inst.result_type,
        redirect_instruction(rules, inst).result_id == inst.result_id,
        redirect_instruction(rules, inst).operands.len() == inst.operands.len(),
        forall|k: int|
            1 <= k < inst.operands.len() ==> redirect_instruction(rules, inst).operands[k]
                == inst.operands[k],
        inst.opcode != OP_EXT_INST ==> redirect_instruction(rules, inst) == inst,
{
}

/// The marked section names nothing twice: of the imports of one name only
/// the first is left.
pub proof fn lemma_marked_names_once(section: Seq<InstructionView>)
    ensures
        marked_imports(section).len() == section.len(),
        forall|name: Seq<char>| #[trigger]
            imports_name(marked_imports(section), name) ==> imports_name(section, name),
        forall|i: int, j: int|
            0 <= i < j < section.len() && import_name(marked_imports(section)[i]) is Some
                ==> import_name(#[trigger] marked_imports(section)[i]) != import_name(
                #[trigger] marked_imports(section)[j],
            ),
    decreases section.len(),
{
    if section.len() > 0 {
        let front = section.drop_last();
        let last = section.last();
        lemma_marked_names_once(front);
        let marked = marked_imports(section);
        let before = marked_imports(front);
        assert forall|name: Seq<char>| #[trigger] imports_name(marked, name) implies imports_name(
            section,
            name,
        ) by {
            let k = choose|k: int|
                0 <= k < marked.len() && import_name(#[trigger] marked[k]) == Some(name);
            if k < before.len() {
                assert(marked[k] == before[k]);
                assert(imports_name(before, name));
                let f = choose|f: int|
                    0 <= f < front.len() && import_name(#[trigger] front[f]) == Some(name);
                assert(section[f] == front[f]);
            } else {
                assert(marked[k] == last);
                assert(section[k] == last);
            }
        }
        assert forall|i: int, j: int|
            0 <= i < j < section.len() && import_name(marked[i]) is Some implies import_name(
            #[trigger] marked[i],
        ) != import_name(#[trigger] marked[j]) by {
            assert(marked[i] == before[i]);
            if j < before.len() {
                assert(marked[j] == before[j]);
            } else if !repeats_import(front, last) {
                if import_name(marked[i]) == import_name(last) {
                    assert(imports_name(before, import_name(last).unwrap()));
                }
            }
        }
    }
}

/// Two survivors of a compaction stand in the section in the same order.
proof fn lemma_compacted_keeps_order(section: Seq<InstructionView>, a: int, b: int)
    requires
        0 <= a < b < compacted(section).len(),
    ensures
        exists|i: int, j: int|
            0 <= i < j < section.len() && #[trigger] section[i] == compacted(section)[a]
                && #[trigger] section[j] == compacted(section)[b],
    decreases section.len(),
{
    let front = section.drop_last();
    let last = section.last();
    if last.opcode != OP_NOP && b == compacted(front).len() {
        lemma_compacted_from(front, a);
        let i = choose|i: int| 0 <= i < front.len() && #[trigger] front[i] == compacted(front)[a];
        let j = section.len() - 1;
        assert(section[i] == compacted(section)[a]);
        assert(section[j] == compacted(section)[b]);
    } else {
        lemma_compacted_keeps_order(front, a, b);
        let (i, j) = choose|i: int, j: int|
            0 <= i < j < front.len() && #[trigger] front[i] == compacted(front)[a]
                && #[trigger] front[j] == compacted(front)[b];
        assert(section[i] == compacted(section)[a]);
        assert(section[j] == compacted(section)[b]);
    }
}

/// Every survivor of a compaction stands in the section.
proof fn lemma_compacted_from(section: Seq<InstructionView>, a: int)
    requires
        0 <= a < compacted(section).len(),
    ensures
        exists|i: int| 0 <= i < section.len() && #[trigger] section[i] == compacted(section)[a],
    decreases section.len(),
{
    let front = section.drop_last();
    let last = section.last();
    if last.opcode != OP_NOP && a == compacted(front).len() {
        assert(section[section.len() - 1] == compacted(section)[a]);
    } else {
        lemma_compacted_from(front, a);
        let i = choose|i: int| 0 <= i < front.len() && #[trigger] front[i] == compacted(front)[a];
        assert(section[i] == compacted(section)[a]);
    }
}

/// In the deduplicated section no two imports give the same name.
pub proof fn lemma_imported_once(section: Seq<InstructionView>, a: int, b: int)
    requires
        0 <= a < b < compacted(marked_imports(section)).len(),
        import_name(compacted(marked_imports(section))[a]) is Some,
    ensures
        import_name(compacted(marked_imports(section))[a]) != import_name(
            compacted(marked_imports(section))[b],
        ),
{
    let marked = marked_imports(section);
    lemma_marked_names_once(section);
    lemma_compacted_keeps_order(marked, a, b);
    let (i, j) = choose|i: int, j: int|
        0 <= i < j < marked.len() && #[trigger] marked[i] == compacted(marked)[a]
            && #[trigger] marked[j] == compacted(marked)[b];
    assert(import_name(marked[i]) != import_name(marked[j]));
}

} // verus!
