//! What deduplicating the capability section means, and what holds of it.

use crate::ir::{ArgumentView, InstructionView, ModuleView};
use rspirv::spirv;
use vstd::prelude::*;

verus! {

/// The capability that an instruction declares: its first operand, where
/// that is a capability. An instruction of another shape declares none.
pub open spec fn declared_capability(inst: InstructionView) -> Option<spirv::Capability> {
    if inst.operands.len() > 0 {
        match inst.operands[0] {
            ArgumentView::Capability(capability) => Some(capability),
            _ => None,
        }
    } else {
        None
    }
}

/// Some instruction of the section declares `capability`.
pub open spec fn declares_capability(
    section: Seq<InstructionView>,
    capability: spirv::Capability,
) -> bool {
    exists|k: int|
        0 <= k < section.len() && declared_capability(#[trigger] section[k]) == Some(capability)
}

/// `inst` declares a capability that `earlier` declares already.
pub open spec fn repeats_capability(earlier: Seq<InstructionView>, inst: InstructionView) -> bool {
    match declared_capability(inst) {
        Some(capability) => declares_capability(earlier, capability),
        None => false,
    }
}

/// The section without the declarations that repeat a capability declared
/// earlier in it. What is left keeps its order; an instruction that declares
/// no capability always stays.
pub open spec fn distinct_capabilities(section: Seq<InstructionView>) -> Seq<InstructionView>
    decreases section.len(),
{
    if section.len() == 0 {
        section
    } else if repeats_capability(section.drop_last(), section.last()) {
        distinct_capabilities(section.drop_last())
    } else {
        distinct_capabilities(section.drop_last()).push(section.last())
    }
}

/// The module after deduplicating its capabilities. No other section changes.
pub open spec fn deduplicated_capabilities(module: ModuleView) -> ModuleView {
    ModuleView {
        capabilities: distinct_capabilities(module.capabilities),
        ext_inst_imports: module.ext_inst_imports,
        types_global_values: module.types_global_values,
        others: module.others,
    }
}

/// No declaration of the section repeats a capability declared before it.
pub open spec fn free_of_repeats(section: Seq<InstructionView>) -> bool {
    forall|k: int| 0 <= k < section.len() ==> !repeats_capability(section.take(k), #[trigger] section[k])
}

/// The section extended by one declaration.
pub proof fn lemma_distinct_push(section: Seq<InstructionView>, inst: InstructionView)
    ensures
        distinct_capabilities(section.push(inst)) == if repeats_capability(section, inst) {
            distinct_capabilities(section)
        } else {
            distinct_capabilities(section).push(inst)
        },
{
    assert(section.push(inst).drop_last() =~= section);
}

/// A longer section declares what a part of it declares.
proof fn lemma_declares_extends(
    section: Seq<InstructionView>,
    inst: InstructionView,
    capability: spirv::Capability,
)
    ensures
        declares_capability(section.push(inst), capability) <==> declares_capability(
            section,
            capability,
        ) || declared_capability(inst) == Some(capability),
{
    let longer = section.push(inst);
    if declares_capability(section, capability) {
        let k = choose|k: int|
            0 <= k < section.len() && declared_capability(#[trigger] section[k]) == Some(capability);
        assert(longer[k] == section[k]);
    }
    if declared_capability(inst) == Some(capability) {
        assert(longer[section.len() as int] == inst);
    }
    if declares_capability(longer, capability) {
        let k = choose|k: int|
            0 <= k < longer.len() && declared_capability(#[trigger] longer[k]) == Some(capability);
        if k < section.len() {
            assert(longer[k] == section[k]);
        }
    }
}

/// Deduplication loses no capability and invents none: the result declares
/// exactly the capabilities that the section declares.
pub proof fn lemma_same_capabilities(section: Seq<InstructionView>, capability: spirv::Capability)
    ensures
        declares_capability(distinct_capabilities(section), capability) <==> declares_capability(
            section,
            capability,
        ),
    decreases section.len(),
{
    if section.len() > 0 {
        let front = section.drop_last();
        let last = section.last();
        assert(front.push(last) =~= section);
        lemma_same_capabilities(front, capability);
        lemma_declares_extends(front, last, capability);
        lemma_declares_extends(distinct_capabilities(front), last, capability);
        if repeats_capability(front, last) {
            let repeated = declared_capability(last).unwrap();
            lemma_same_capabilities(front, repeated);
        }
    }
}

/// In the result every capability is declared once only: no declaration
/// repeats a capability that the result declares before it.
pub proof fn lemma_declared_once(section: Seq<InstructionView>)
    ensures
        free_of_repeats(distinct_capabilities(section)),
    decreases section.len(),
{
    let out = distinct_capabilities(section);
    if section.len() > 0 {
        let front = section.drop_last();
        let last = section.last();
        lemma_declared_once(front);
        let kept = distinct_capabilities(front);
        assert forall|k: int| 0 <= k < out.len() implies !repeats_capability(
            out.take(k),
            #[trigger] out[k],
        ) by {
            if k < kept.len() {
                assert(out.take(k) =~= kept.take(k));
                assert(out[k] == kept[k]);
            } else {
                assert(out.take(k) =~= kept);
                match declared_capability(last) {
                    Some(capability) => {
                        lemma_same_capabilities(front, capability);
                    },
                    None => {},
                }
            }
        }
    }
}

/// Two different declarations of the result never declare the same capability.
pub proof fn lemma_no_capability_twice(section: Seq<InstructionView>, i: int, j: int)
    requires
        0 <= i < j < distinct_capabilities(section).len(),
        declared_capability(distinct_capabilities(section)[i]) is Some,
    ensures
        declared_capability(distinct_capabilities(section)[i]) != declared_capability(
            distinct_capabilities(section)[j],
        ),
{
    let out = distinct_capabilities(section);
    lemma_declared_once(section);
    assert(!repeats_capability(out.take(j), out[j]));
    assert(out.take(j)[i] == out[i]);
}

/// A section that is free of repeats is left as it is.
pub proof fn lemma_nothing_to_remove(section: Seq<InstructionView>)
    requires
        free_of_repeats(section),
    ensures
        distinct_capabilities(section) == section,
    decreases section.len(),
{
    if section.len() > 0 {
        let front = section.drop_last();
        assert forall|k: int| 0 <= k < front.len() implies !repeats_capability(
            front.take(k),
            #[trigger] front[k],
        ) by {
            assert(front.take(k) =~= section.take(k));
            assert(front[k] == section[k]);
        }
        lemma_nothing_to_remove(front);
        let n = front.len() as int;
        assert(section.take(n) =~= front);
        assert(section[n] == section.last());
        assert(front.push(section.last()) =~= section);
    }
}

/// Running the pass twice gives what running it once gives.
pub proof fn lemma_capabilities_idempotent(module: ModuleView)
    ensures
        deduplicated_capabilities(deduplicated_capabilities(module)) == deduplicated_capabilities(
            module,
        ),
{
    lemma_declared_once(module.capabilities);
    lemma_nothing_to_remove(distinct_capabilities(module.capabilities));
}

/// The result is built in the order of first occurrence: what the pass makes
/// of the first `n` declarations is the beginning of what it makes of all.
pub proof fn lemma_first_occurrence_order(section: Seq<InstructionView>, n: int)
    requires
        0 <= n <= section.len(),
    ensures
        distinct_capabilities(section.take(n)).len() <= distinct_capabilities(section).len(),
        distinct_capabilities(section.take(n)) == distinct_capabilities(section).take(
            distinct_capabilities(section.take(n)).len() as int,
        ),
    decreases section.len(),
{
    if n == section.len() {
        assert(section.take(n) =~= section);
        assert(distinct_capabilities(section).take(distinct_capabilities(section).len() as int)
            =~= distinct_capabilities(section));
    } else {
        let front = section.drop_last();
        lemma_first_occurrence_order(front, n);
        assert(front.take(n) =~= section.take(n));
        let part = distinct_capabilities(section.take(n));
        assert(distinct_capabilities(section).take(part.len() as int) =~= distinct_capabilities(
            front,
        ).take(part.len() as int));
    }
}

} // verus!
