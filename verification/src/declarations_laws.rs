//! What holds of deduplicated types: which declarations collapse, which never
//! do, and that no reference to a deleted declaration is left behind.

use crate::declarations::{
    admissible, deduplicated_types, key_at, key_head, lemma_scan_push, scan_section,
    scan_start, scan_step, step_admissible, structural_key, type_rules, unresolved_at,
};
use crate::ir::{nop, InstructionView, ModuleView, OP_NOP, OP_TYPE_FORWARD_POINTER};
use crate::markers::{compacted, lemma_compacted_keeps};
use crate::rewrite::{referenced_id, resolve, rewrite_instruction, rewrite_section};
use vstd::prelude::*;

verus! {

/// Resolving by no rules at all changes nothing.
pub proof fn lemma_rewrite_by_nothing(inst: InstructionView)
    ensures
        rewrite_instruction(Map::empty(), inst) == inst,
{
    assert(rewrite_instruction(Map::empty(), inst).operands =~= inst.operands);
}

/// The scan of a section of one declaration and of two.
proof fn lemma_scan_short(a: InstructionView, b: InstructionView)
    ensures
        scan_section(seq![a]) == scan_step(scan_start(), a),
        scan_section(seq![a, b]) == scan_step(scan_step(scan_start(), a), b),
        admissible(seq![a, b]) == (step_admissible(scan_start(), a) && step_admissible(
            scan_step(scan_start(), a),
            b,
        )),
{
    let none = Seq::<InstructionView>::empty();
    assert(seq![a] =~= none.push(a));
    assert(seq![a, b] =~= seq![a].push(b));
    assert(admissible(none));
    lemma_scan_push(none, a);
    lemma_scan_push(seq![a], b);
}

/// Two declarations that differ in nothing but their result identifiers
/// collapse into the first: the second is deleted and its identifier mapped
/// to that of the first.
pub proof fn lemma_identical_declarations_merge(a: InstructionView, b: InstructionView)
    requires
        a.opcode == b.opcode,
        a.opcode != OP_TYPE_FORWARD_POINTER,
        a.opcode != OP_NOP,
        a.result_type == b.result_type,
        a.operands == b.operands,
        a.result_id is Some,
        b.result_id is Some,
    ensures
        admissible(seq![a, b]),
        scan_section(seq![a, b]).rules == Map::<u32, u32>::empty().insert(
            b.result_id.unwrap(),
            a.result_id.unwrap(),
        ),
        compacted(scan_section(seq![a, b]).marked) == seq![a],
{
    lemma_scan_short(a, b);
    lemma_rewrite_by_nothing(a);
    lemma_rewrite_by_nothing(b);
    let first = scan_step(scan_start(), a);
    let none = Set::<u32>::empty();
    assert(unresolved_at(none, a) =~= none);
    assert(unresolved_at(none, b) =~= none);
    assert(first.unresolved == none);
    assert(key_at(scan_start(), a) == structural_key(a, none));
    assert(key_at(first, b) == structural_key(b, none));
    assert(structural_key(a, none) == structural_key(b, none));
    assert(first.canonical.contains_key(key_at(first, b)));
    let second = scan_step(first, b);
    assert(second.marked =~= seq![a, nop()]);
    assert(seq![a, nop()].drop_last() =~= seq![a]);
    assert(seq![a].drop_last() =~= Seq::<InstructionView>::empty());
    assert(compacted(Seq::<InstructionView>::empty()) =~= Seq::<InstructionView>::empty());
    assert(compacted(seq![a]) =~= seq![a]);
    assert(compacted(seq![a, nop()]) =~= seq![a]);
}

/// Declarations collapse members first. Where `second_member` repeats
/// `first_member`, and `second` is to `first` what it would be had it been
/// built on the first member instead of on the second, then `second`
/// collapses into `first`, although the two do not refer to the same
/// identifiers as they stand.
pub proof fn lemma_members_collapse_first(
    first_member: InstructionView,
    second_member: InstructionView,
    first: InstructionView,
    second: InstructionView,
)
    requires
        first_member.opcode == second_member.opcode,
        first_member.result_type == second_member.result_type,
        first_member.operands == second_member.operands,
        first_member.opcode != OP_TYPE_FORWARD_POINTER,
        first_member.opcode != OP_NOP,
        first.opcode != OP_TYPE_FORWARD_POINTER,
        first.opcode != OP_NOP,
        first.opcode != first_member.opcode,
        first_member.result_id is Some,
        second_member.result_id is Some,
        first.result_id is Some,
        second.result_id is Some,
        first_member.result_id != second_member.result_id,
        second.result_id != second_member.result_id,
        ({
            let rules = Map::<u32, u32>::empty().insert(
                second_member.result_id.unwrap(),
                first_member.result_id.unwrap(),
            );
            &&& rewrite_instruction(rules, first) == first
            &&& rewrite_instruction(rules, second) == (InstructionView {
                result_id: second.result_id,
                ..first
            })
        }),
    ensures
        admissible(seq![first_member, second_member, first, second]),
        scan_section(seq![first_member, second_member, first, second]).rules == Map::<
            u32,
            u32,
        >::empty().insert(second_member.result_id.unwrap(), first_member.result_id.unwrap()).insert(
            second.result_id.unwrap(),
            first.result_id.unwrap(),
        ),
        compacted(scan_section(seq![first_member, second_member, first, second]).marked) == seq![
            first_member,
            first,
        ],
{
    let none = Set::<u32>::empty();
    let start = Seq::<InstructionView>::empty();
    let one = start.push(first_member);
    let two = one.push(second_member);
    let three = two.push(first);
    let four = three.push(second);
    assert(four =~= seq![first_member, second_member, first, second]);
    assert(two =~= seq![first_member, second_member]);
    lemma_identical_declarations_merge(first_member, second_member);
    lemma_scan_short(first_member, second_member);
    lemma_rewrite_by_nothing(first_member);
    lemma_rewrite_by_nothing(second_member);
    assert(unresolved_at(none, first_member) =~= none);
    assert(unresolved_at(none, second_member) =~= none);
    assert(unresolved_at(none, first) =~= none);
    assert(unresolved_at(none, second) =~= none);
    let after_one = scan_step(scan_start(), first_member);
    let after_two = scan_section(two);
    assert(after_two == scan_step(after_one, second_member));
    let member_key = structural_key(first_member, none);
    assert(after_one.canonical == Map::<Seq<u32>, u32>::empty().insert(
        member_key,
        first_member.result_id.unwrap(),
    ));
    assert(key_at(after_one, second_member) == member_key);
    assert(after_two.canonical == after_one.canonical);
    assert(after_two.unresolved == none);
    assert(after_two.marked =~= seq![first_member, nop()]);
    lemma_scan_push(two, first);
    let after_three = scan_section(three);
    let key = structural_key(first, none);
    assert(key_at(after_two, first) == key);
    lemma_opcode_separates(first, first_member, none, none);
    assert(!after_two.canonical.contains_key(key));
    assert(after_three.rules == after_two.rules);
    assert(after_three.canonical == after_two.canonical.insert(key, first.result_id.unwrap()));
    assert(after_three.unresolved == none);
    assert(after_three.marked =~= seq![first_member, nop(), first]);
    lemma_scan_push(three, second);
    let after_four = scan_section(four);
    let rewritten = rewrite_instruction(after_three.rules, second);
    assert(key_head(rewritten) == key_head(first));
    assert(structural_key(rewritten, none) == key);
    assert(key_at(after_three, second) == key);
    assert(after_four.marked =~= seq![first_member, nop(), first, nop()]);
    let marked = after_four.marked;
    assert(marked.drop_last() =~= seq![first_member, nop(), first]);
    assert(marked.drop_last().drop_last() =~= seq![first_member, nop()]);
    assert(compacted(seq![first_member, nop()]) == seq![first_member]);
    assert(compacted(marked.drop_last()) =~= seq![first_member, first]);
    assert(compacted(marked) =~= seq![first_member, first]);
}

/// Declarations with different result types never have the same key,
/// whatever their operands are: a constant of one value typed in two ways
/// stays two constants.
pub proof fn lemma_result_type_separates(
    a: InstructionView,
    b: InstructionView,
    pending_a: Set<u32>,
    pending_b: Set<u32>,
)
    requires
        a.result_type is Some,
        b.result_type is Some,
        a.result_type != b.result_type,
    ensures
        structural_key(a, pending_a) != structural_key(b, pending_b),
{
    let ka = structural_key(a, pending_a);
    let kb = structural_key(b, pending_b);
    assert(ka[1] == a.result_type.unwrap());
    assert(kb[1] == b.result_type.unwrap());
}

/// Declarations with different opcodes never have the same key.
pub proof fn lemma_opcode_separates(
    a: InstructionView,
    b: InstructionView,
    pending_a: Set<u32>,
    pending_b: Set<u32>,
)
    requires
        a.opcode != b.opcode,
    ensures
        structural_key(a, pending_a) != structural_key(b, pending_b),
{
    let ka = structural_key(a, pending_a);
    let kb = structural_key(b, pending_b);
    assert(key_head(a)[0] == a.opcode);
    assert(key_head(b)[0] == b.opcode);
    assert(ka[0] == a.opcode);
    assert(kb[0] == b.opcode);
}

/// Every declaration other than a forward pointer has a result identifier,
/// and no two of them have the same: what the producer of a module guarantees.
pub open spec fn distinct_result_ids(section: Seq<InstructionView>) -> bool {
    &&& forall|i: int|
        0 <= i < section.len() && section[i].opcode != OP_TYPE_FORWARD_POINTER
            ==> (#[trigger] section[i]).result_id is Some
    &&& forall|i: int, j: int|
        0 <= i < j < section.len() && section[i].opcode != OP_TYPE_FORWARD_POINTER
            && section[j].opcode != OP_TYPE_FORWARD_POINTER ==> (#[trigger] section[i]).result_id
            != (#[trigger] section[j]).result_id
}

/// The declaration at `k` declares `id`.
pub open spec fn declares(section: Seq<InstructionView>, k: int, id: u32) -> bool {
    &&& 0 <= k < section.len()
    &&& section[k].opcode != OP_TYPE_FORWARD_POINTER
    &&& section[k].result_id == Some(id)
}

/// The declaration of `id` at `k` was kept by the scan.
pub open spec fn kept_at(
    section: Seq<InstructionView>,
    marked: Seq<InstructionView>,
    k: int,
    id: u32,
) -> bool {
    &&& declares(section, k, id)
    &&& k < marked.len()
    &&& marked[k].result_id == Some(id)
    &&& marked[k].opcode == section[k].opcode
}

/// The declaration of `id` at `k` was deleted by the scan.
pub open spec fn deleted_at(
    section: Seq<InstructionView>,
    marked: Seq<InstructionView>,
    k: int,
    id: u32,
) -> bool {
    &&& declares(section, k, id)
    &&& k < marked.len()
    &&& marked[k] == nop()
}

/// Every rule leads from a deleted declaration to a kept one, and every
/// canonical identifier belongs to a kept declaration.
pub open spec fn scan_grounded(section: Seq<InstructionView>) -> bool {
    let scan = scan_section(section);
    &&& scan.marked.len() == section.len()
    &&& forall|id: u32| #[trigger]
        scan.rules.contains_key(id) ==> exists|k: int| deleted_at(section, scan.marked, k, id)
    &&& forall|id: u32| #[trigger]
        scan.rules.contains_key(id) ==> exists|k: int|
            kept_at(section, scan.marked, k, scan.rules[id])
    &&& forall|key: Seq<u32>| #[trigger]
        scan.canonical.contains_key(key) ==> exists|k: int|
            kept_at(section, scan.marked, k, scan.canonical[key])
}

/// A section whose declarations have distinct identifiers can be scanned, and
/// its scan is grounded.
pub proof fn lemma_distinct_ids_admissible(section: Seq<InstructionView>)
    requires
        distinct_result_ids(section),
    ensures
        admissible(section),
        scan_grounded(section),
    decreases section.len(),
{
    if section.len() > 0 {
        let front = section.drop_last();
        let last = section.last();
        assert(distinct_result_ids(front)) by {
            assert forall|i: int|
                0 <= i < front.len() && front[i].opcode != OP_TYPE_FORWARD_POINTER
                implies (#[trigger] front[i]).result_id is Some by {
                assert(front[i] == section[i]);
            }
            assert forall|i: int, j: int|
                0 <= i < j < front.len() && front[i].opcode != OP_TYPE_FORWARD_POINTER
                    && front[j].opcode != OP_TYPE_FORWARD_POINTER implies (#[trigger] front[i]).result_id
                != (#[trigger] front[j]).result_id by {
                assert(front[i] == section[i]);
                assert(front[j] == section[j]);
            }
        }
        lemma_distinct_ids_admissible(front);
        let before = scan_section(front);
        let after = scan_section(section);
        assert(after == scan_step(before, last));
        let n = front.len() as int;
        assert(section[n] == last);
        // Witnesses among the earlier declarations stay witnesses.
        assert forall|k: int, id: u32| kept_at(front, before.marked, k, id) implies kept_at(
            section,
            after.marked,
            k,
            id,
        ) by {
            assert(front[k] == section[k]);
            assert(after.marked[k] == before.marked[k]);
        }
        assert forall|k: int, id: u32| deleted_at(front, before.marked, k, id) implies deleted_at(
            section,
            after.marked,
            k,
            id,
        ) by {
            assert(front[k] == section[k]);
            assert(after.marked[k] == before.marked[k]);
        }
        if last.opcode == OP_TYPE_FORWARD_POINTER {
            assert(after.rules == before.rules);
            assert(after.canonical == before.canonical);
            assert forall|id: u32| #[trigger] after.rules.contains_key(id) implies (exists|k: int|
                deleted_at(section, after.marked, k, id)) && (exists|k: int|
                kept_at(section, after.marked, k, after.rules[id])) by {
                let d = choose|k: int| deleted_at(front, before.marked, k, id);
                assert(deleted_at(section, after.marked, d, id));
                let k = choose|k: int| kept_at(front, before.marked, k, before.rules[id]);
                assert(kept_at(section, after.marked, k, before.rules[id]));
            }
            assert forall|key: Seq<u32>| #[trigger] after.canonical.contains_key(key) implies exists|k: int|
                kept_at(section, after.marked, k, after.canonical[key]) by {
                let k = choose|k: int| kept_at(front, before.marked, k, before.canonical[key]);
                assert(kept_at(section, after.marked, k, before.canonical[key]));
            }
        } else {
            let id = last.result_id.unwrap();
            let key = key_at(before, last);
            assert(!before.rules.contains_key(id)) by {
                if before.rules.contains_key(id) {
                    let k = choose|k: int| deleted_at(front, before.marked, k, id);
                    assert(section[k].result_id == section[n].result_id);
                }
            }
            if before.canonical.contains_key(key) {
                let target = before.canonical[key];
                assert(after.rules == before.rules.insert(id, target));
                assert(after.canonical == before.canonical);
                assert(after.marked == before.marked.push(nop()));
                assert(deleted_at(section, after.marked, n, id));
                let t = choose|k: int| kept_at(front, before.marked, k, target);
                assert(kept_at(section, after.marked, t, target));
                assert forall|other: u32| #[trigger] after.rules.contains_key(other) implies (exists|k: int|
                    deleted_at(section, after.marked, k, other)) && (exists|k: int|
                    kept_at(section, after.marked, k, after.rules[other])) by {
                    if other != id {
                        assert(before.rules.contains_key(other));
                        assert(after.rules[other] == before.rules[other]);
                        let d = choose|k: int| deleted_at(front, before.marked, k, other);
                        assert(deleted_at(section, after.marked, d, other));
                        let k = choose|k: int| kept_at(front, before.marked, k, before.rules[other]);
                        assert(kept_at(section, after.marked, k, before.rules[other]));
                    } else {
                        assert(deleted_at(section, after.marked, n, other));
                        assert(kept_at(section, after.marked, t, after.rules[other]));
                    }
                }
                assert forall|other: Seq<u32>| #[trigger] after.canonical.contains_key(other) implies exists|k: int|
                    kept_at(section, after.marked, k, after.canonical[other]) by {
                    let k = choose|k: int| kept_at(front, before.marked, k, before.canonical[other]);
                    assert(kept_at(section, after.marked, k, before.canonical[other]));
                }
            } else {
                assert(after.rules == before.rules);
                assert(after.canonical == before.canonical.insert(key, id));
                assert(after.marked == before.marked.push(rewrite_instruction(before.rules, last)));
                assert(kept_at(section, after.marked, n, id));
                assert forall|other: u32| #[trigger] after.rules.contains_key(other) implies (exists|k: int|
                    deleted_at(section, after.marked, k, other)) && (exists|k: int|
                    kept_at(section, after.marked, k, after.rules[other])) by {
                    let d = choose|k: int| deleted_at(front, before.marked, k, other);
                    assert(deleted_at(section, after.marked, d, other));
                    let k = choose|k: int| kept_at(front, before.marked, k, before.rules[other]);
                    assert(kept_at(section, after.marked, k, before.rules[other]));
                }
                assert forall|other: Seq<u32>| #[trigger] after.canonical.contains_key(other) implies exists|k: int|
                    kept_at(section, after.marked, k, after.canonical[other]) by {
                    if other != key {
                        assert(before.canonical.contains_key(other));
                        assert(after.canonical[other] == before.canonical[other]);
                        let k = choose|k: int| kept_at(front, before.marked, k, before.canonical[other]);
                        assert(kept_at(section, after.marked, k, before.canonical[other]));
                    } else {
                        assert(kept_at(section, after.marked, n, after.canonical[other]));
                    }
                }
            }
        }
    }
}

/// Where declarations have distinct identifiers, no canonical identifier is
/// itself deleted: following a rule once arrives at a survivor.
pub proof fn lemma_rules_end_at_survivors(section: Seq<InstructionView>, id: u32)
    requires
        distinct_result_ids(section),
        scan_section(section).rules.contains_key(id),
    ensures
        !scan_section(section).rules.contains_key(scan_section(section).rules[id]),
{
    lemma_distinct_ids_admissible(section);
    let scan = scan_section(section);
    let target = scan.rules[id];
    if scan.rules.contains_key(target) {
        let kept = choose|k: int| kept_at(section, scan.marked, k, target);
        let deleted = choose|k: int| deleted_at(section, scan.marked, k, target);
        if kept != deleted {
            assert(section[kept].result_id == section[deleted].result_id);
        }
    }
}

/// The instruction refers to `id`: as its result type or by a reference operand.
pub open spec fn refers_to(inst: InstructionView, id: u32) -> bool {
    ||| inst.result_type == Some(id)
    ||| exists|k: int| 0 <= k < inst.operands.len() && referenced_id(#[trigger] inst.operands[k]) == Some(id)
}

/// Some instruction of the section refers to `id`.
pub open spec fn section_refers_to(section: Seq<InstructionView>, id: u32) -> bool {
    exists|k: int| 0 <= k < section.len() && refers_to(#[trigger] section[k], id)
}

/// Some instruction of the module, in whatever section, refers to `id`.
pub open spec fn module_refers_to(module: ModuleView, id: u32) -> bool {
    ||| section_refers_to(module.capabilities, id)
    ||| section_refers_to(module.ext_inst_imports, id)
    ||| section_refers_to(module.types_global_values, id)
    ||| section_refers_to(module.others, id)
}

/// A section resolved by rules that never lead to a replaced identifier
/// refers to no replaced identifier.
proof fn lemma_resolved_section_is_clean(rules: Map<u32, u32>, section: Seq<InstructionView>, id: u32)
    requires
        rules.contains_key(id),
        forall|from: u32| #[trigger] rules.contains_key(from) ==> !rules.contains_key(rules[from]),
    ensures
        !section_refers_to(rewrite_section(rules, section), id),
{
    let out = rewrite_section(rules, section);
    assert forall|k: int| 0 <= k < out.len() implies !refers_to(#[trigger] out[k], id) by {
        let inst = section[k];
        assert(out[k] == rewrite_instruction(rules, inst));
        match inst.result_type {
            Some(ty) => {
                assert(out[k].result_type == Some(resolve(rules, ty)));
            },
            None => {},
        }
        assert forall|j: int| 0 <= j < out[k].operands.len() implies referenced_id(
            #[trigger] out[k].operands[j],
        ) != Some(id) by {
            let operand = inst.operands[j];
            match referenced_id(operand) {
                Some(r) => {
                    assert(referenced_id(out[k].operands[j]) == Some(resolve(rules, r)));
                },
                None => {},
            }
        }
    }
}

/// After deduplication no instruction anywhere in the module refers to an
/// identifier that the pass deleted, provided that the declarations of the
/// section have distinct result identifiers.
pub proof fn lemma_no_reference_to_deleted(module: ModuleView, id: u32)
    requires
        distinct_result_ids(module.types_global_values),
        type_rules(module).contains_key(id),
    ensures
        !module_refers_to(deduplicated_types(module), id),
{
    let scan = scan_section(module.types_global_values);
    let rules = scan.rules;
    assert forall|from: u32| #[trigger] rules.contains_key(from) implies !rules.contains_key(
        rules[from],
    ) by {
        lemma_rules_end_at_survivors(module.types_global_values, from);
    }
    lemma_resolved_section_is_clean(rules, module.capabilities, id);
    lemma_resolved_section_is_clean(rules, module.ext_inst_imports, id);
    lemma_resolved_section_is_clean(rules, compacted(scan.marked), id);
    lemma_resolved_section_is_clean(rules, module.others, id);
}

/// Some declaration of the section has `id` as its result identifier.
pub open spec fn declared_in(section: Seq<InstructionView>, id: u32) -> bool {
    exists|k: int| 0 <= k < section.len() && (#[trigger] section[k]).result_id == Some(id)
}

/// The identifier that replaces a deleted one is declared by a declaration
/// that survives in the deduplicated section: every rewritten reference
/// points at a survivor. This needs distinct result identifiers, and that
/// no declaration of the section has the opcode of the deletion marker.
pub proof fn lemma_replacement_survives(module: ModuleView, id: u32)
    requires
        distinct_result_ids(module.types_global_values),
        forall|k: int| 0 <= k < module.types_global_values.len() ==> (#[trigger] module.types_global_values[k]).opcode != OP_NOP,
        type_rules(module).contains_key(id),
    ensures
        declared_in(deduplicated_types(module).types_global_values, type_rules(module)[id]),
{
    let section = module.types_global_values;
    lemma_distinct_ids_admissible(section);
    let scan = scan_section(section);
    let target = scan.rules[id];
    let k = choose|k: int| kept_at(section, scan.marked, k, target);
    lemma_compacted_keeps(scan.marked, k);
    let survivors = compacted(scan.marked);
    let j = choose|j: int| 0 <= j < survivors.len() && #[trigger] survivors[j] == scan.marked[k];
    let out = deduplicated_types(module).types_global_values;
    assert(out[j] == rewrite_instruction(scan.rules, survivors[j]));
    assert(out[j].result_id == Some(target));
}

} // verus!
