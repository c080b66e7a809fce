use rspirv::spirv;
use rspirv_linker::duplicates::{
    imports_are_admissible, remove_duplicate_capablities, remove_duplicate_ext_inst_imports,
    remove_duplicate_types, try_remove_duplicate_ext_inst_imports, try_remove_duplicate_types,
    types_are_admissible,
};
use rspirv_linker::ir::{
    Argument, Instruction, Module, OP_CONSTANT, OP_EXT_INST, OP_NOP, OP_TYPE_FLOAT,
    OP_TYPE_FORWARD_POINTER, OP_TYPE_INT, OP_TYPE_POINTER, OP_TYPE_STRUCT,
};

const OP_CAPABILITY: u32 = 17;
const OP_EXT_INST_IMPORT: u32 = 11;
const OP_LOAD: u32 = 61;
const OP_VARIABLE: u32 = 59;

fn empty_module() -> Module {
    Module {
        capabilities: vec![],
        ext_inst_imports: vec![],
        types_global_values: vec![],
        others: vec![],
    }
}

fn capability(value: spirv::Capability) -> Instruction {
    Instruction::new(OP_CAPABILITY, None, None, vec![Argument::Capability(value)])
}

fn import(id: u32, name: &str) -> Instruction {
    Instruction::new(
        OP_EXT_INST_IMPORT,
        None,
        Some(id),
        vec![Argument::LiteralString(name.to_string())],
    )
}

fn int_type(id: u32, width: u32, signed: u32) -> Instruction {
    Instruction::new(
        OP_TYPE_INT,
        None,
        Some(id),
        vec![Argument::LiteralInt32(width), Argument::LiteralInt32(signed)],
    )
}

fn struct_type(id: u32, members: &[u32]) -> Instruction {
    Instruction::new(
        OP_TYPE_STRUCT,
        None,
        Some(id),
        members.iter().map(|m| Argument::IdRef(*m)).collect(),
    )
}

#[test]
fn capabilities_keep_first_occurrences_in_order() {
    let mut module = empty_module();
    module.capabilities = vec![
        capability(spirv::Capability::Shader),
        capability(spirv::Capability::Kernel),
        capability(spirv::Capability::Shader),
        capability(spirv::Capability::Matrix),
        capability(spirv::Capability::Kernel),
    ];
    remove_duplicate_capablities(&mut module);
    assert_eq!(
        module.capabilities,
        vec![
            capability(spirv::Capability::Shader),
            capability(spirv::Capability::Kernel),
            capability(spirv::Capability::Matrix),
        ]
    );
}

#[test]
fn capabilities_pass_is_idempotent() {
    let mut module = empty_module();
    module.capabilities = vec![
        capability(spirv::Capability::Shader),
        capability(spirv::Capability::Shader),
        capability(spirv::Capability::Linkage),
    ];
    remove_duplicate_capablities(&mut module);
    let once = module.capabilities.clone();
    remove_duplicate_capablities(&mut module);
    assert_eq!(module.capabilities, once);
    assert_eq!(once.len(), 2);
}

#[test]
fn capabilities_of_another_shape_pass_through() {
    let odd = Instruction::new(OP_CAPABILITY, None, None, vec![Argument::LiteralInt32(1)]);
    let bare = Instruction::new(OP_CAPABILITY, None, None, vec![]);
    let mut module = empty_module();
    module.capabilities = vec![
        odd.clone(),
        bare.clone(),
        capability(spirv::Capability::Shader),
        odd.clone(),
        bare.clone(),
        capability(spirv::Capability::Shader),
    ];
    remove_duplicate_capablities(&mut module);
    assert_eq!(
        module.capabilities,
        vec![odd.clone(), bare.clone(), capability(spirv::Capability::Shader), odd, bare]
    );
}

#[test]
fn capabilities_empty_section() {
    let mut module = empty_module();
    module.others = vec![Instruction::new(OP_LOAD, Some(1), Some(2), vec![Argument::IdRef(3)])];
    let others = module.others.clone();
    remove_duplicate_capablities(&mut module);
    assert!(module.capabilities.is_empty());
    assert_eq!(module.others, others);
}

#[test]
fn imports_are_canonicalized() {
    let (a, b, c) = (1, 2, 3);
    let mut module = empty_module();
    module.ext_inst_imports =
        vec![import(a, "GLSL.std.450"), import(b, "GLSL.std.450"), import(c, "OpenCL.std")];
    module.others = vec![
        Instruction::new(
            OP_EXT_INST,
            Some(7),
            Some(20),
            vec![Argument::IdRef(b), Argument::Other(rspirv::dr::Operand::LiteralExtInstInteger(4)), Argument::IdRef(b)],
        ),
        Instruction::new(OP_EXT_INST, Some(7), Some(21), vec![Argument::IdRef(c), Argument::IdRef(b)]),
        Instruction::new(OP_LOAD, Some(b), Some(22), vec![Argument::IdRef(b)]),
    ];
    remove_duplicate_ext_inst_imports(&mut module);
    assert_eq!(module.ext_inst_imports, vec![import(a, "GLSL.std.450"), import(c, "OpenCL.std")]);
    assert_eq!(
        module.others,
        vec![
            Instruction::new(
                OP_EXT_INST,
                Some(7),
                Some(20),
                vec![Argument::IdRef(a), Argument::Other(rspirv::dr::Operand::LiteralExtInstInteger(4)), Argument::IdRef(b)],
            ),
            Instruction::new(OP_EXT_INST, Some(7), Some(21), vec![Argument::IdRef(c), Argument::IdRef(b)]),
            Instruction::new(OP_LOAD, Some(b), Some(22), vec![Argument::IdRef(b)]),
        ]
    );
}

#[test]
fn imports_without_a_name_are_left_alone() {
    let unnamed = Instruction::new(OP_EXT_INST_IMPORT, None, None, vec![Argument::IdRef(9)]);
    let bare = Instruction::new(OP_EXT_INST_IMPORT, None, None, vec![]);
    let mut module = empty_module();
    module.ext_inst_imports = vec![unnamed.clone(), unnamed.clone(), bare.clone(), bare.clone()];
    assert!(imports_are_admissible(&module));
    remove_duplicate_ext_inst_imports(&mut module);
    assert_eq!(module.ext_inst_imports, vec![unnamed.clone(), unnamed, bare.clone(), bare]);
}

#[test]
fn invocation_of_another_shape_is_left_alone() {
    let mut module = empty_module();
    module.ext_inst_imports = vec![import(1, "a"), import(2, "a")];
    let literal = Instruction::new(OP_EXT_INST, None, None, vec![Argument::LiteralInt32(2)]);
    let bare = Instruction::new(OP_EXT_INST, None, None, vec![]);
    module.others = vec![literal.clone(), bare.clone()];
    remove_duplicate_ext_inst_imports(&mut module);
    assert_eq!(module.others, vec![literal, bare]);
}

#[test]
fn imports_refused_without_result_id() {
    let mut module = empty_module();
    module.ext_inst_imports = vec![Instruction::new(
        OP_EXT_INST_IMPORT,
        None,
        None,
        vec![Argument::LiteralString("GLSL.std.450".to_string())],
    )];
    let before = module.ext_inst_imports.clone();
    assert!(!imports_are_admissible(&module));
    assert!(!try_remove_duplicate_ext_inst_imports(&mut module));
    assert_eq!(module.ext_inst_imports, before);
}

#[test]
fn imports_refused_when_an_identifier_is_replaced_twice() {
    let mut module = empty_module();
    module.ext_inst_imports = vec![import(1, "a"), import(2, "a"), import(3, "b"), import(2, "b")];
    let before = module.ext_inst_imports.clone();
    assert!(!try_remove_duplicate_ext_inst_imports(&mut module));
    assert_eq!(module.ext_inst_imports, before);
}

#[test]
fn try_imports_does_the_pass() {
    let mut module = empty_module();
    module.ext_inst_imports = vec![import(1, "a"), import(2, "a")];
    module.types_global_values =
        vec![Instruction::new(OP_EXT_INST, None, Some(5), vec![Argument::IdRef(2)])];
    assert!(try_remove_duplicate_ext_inst_imports(&mut module));
    assert_eq!(module.ext_inst_imports, vec![import(1, "a")]);
    assert_eq!(
        module.types_global_values,
        vec![Instruction::new(OP_EXT_INST, None, Some(5), vec![Argument::IdRef(1)])]
    );
}

#[test]
fn identical_integer_types_collapse() {
    let mut module = empty_module();
    module.types_global_values = vec![int_type(1, 32, 0), int_type(2, 32, 0)];
    remove_duplicate_types(&mut module);
    assert_eq!(module.types_global_values, vec![int_type(1, 32, 0)]);
}

#[test]
fn integer_types_of_another_width_or_sign_stay() {
    let mut module = empty_module();
    module.types_global_values =
        vec![int_type(1, 32, 0), int_type(2, 16, 0), int_type(3, 32, 1), int_type(4, 32, 0)];
    remove_duplicate_types(&mut module);
    assert_eq!(
        module.types_global_values,
        vec![int_type(1, 32, 0), int_type(2, 16, 0), int_type(3, 32, 1)]
    );
}

#[test]
fn constants_of_one_value_and_two_types_stay_apart() {
    let one = |ty: u32, id: u32| {
        Instruction::new(OP_CONSTANT, Some(ty), Some(id), vec![Argument::LiteralInt32(1)])
    };
    let mut module = empty_module();
    module.types_global_values =
        vec![int_type(1, 8, 0), int_type(2, 16, 0), one(1, 3), one(2, 4), one(1, 5)];
    remove_duplicate_types(&mut module);
    assert_eq!(
        module.types_global_values,
        vec![int_type(1, 8, 0), int_type(2, 16, 0), one(1, 3), one(2, 4)]
    );
}

#[test]
fn constants_collapse_once_their_types_have() {
    let one = |ty: u32, id: u32| {
        Instruction::new(OP_CONSTANT, Some(ty), Some(id), vec![Argument::LiteralInt32(1)])
    };
    let mut module = empty_module();
    module.types_global_values = vec![int_type(1, 8, 0), int_type(2, 8, 0), one(1, 3), one(2, 4)];
    remove_duplicate_types(&mut module);
    assert_eq!(module.types_global_values, vec![int_type(1, 8, 0), one(1, 3)]);
}

#[test]
fn structs_collapse_after_their_members() {
    let mut module = empty_module();
    module.types_global_values = vec![
        int_type(1, 32, 1),
        int_type(2, 32, 1),
        struct_type(3, &[1, 1]),
        struct_type(4, &[2, 2]),
        struct_type(5, &[4, 3]),
        struct_type(6, &[3, 4]),
    ];
    remove_duplicate_types(&mut module);
    assert_eq!(
        module.types_global_values,
        vec![int_type(1, 32, 1), struct_type(3, &[1, 1]), struct_type(5, &[3, 3])]
    );
}

#[test]
fn references_are_rewritten_everywhere() {
    let mut module = empty_module();
    module.types_global_values = vec![
        int_type(1, 32, 1),
        int_type(2, 32, 1),
        Instruction::new(
            OP_VARIABLE,
            Some(2),
            Some(7),
            vec![Argument::StorageClass(spirv::StorageClass::Private)],
        ),
    ];
    module.capabilities =
        vec![Instruction::new(OP_CAPABILITY, Some(2), None, vec![Argument::IdScope(2)])];
    module.ext_inst_imports = vec![Instruction::new(
        OP_EXT_INST_IMPORT,
        None,
        Some(30),
        vec![Argument::IdMemorySemantics(2), Argument::LiteralInt32(2)],
    )];
    module.others = vec![
        Instruction::new(OP_LOAD, Some(2), Some(8), vec![Argument::IdRef(7), Argument::IdRef(2)]),
        Instruction::new(OP_LOAD, Some(1), Some(2), vec![Argument::LiteralInt64(2)]),
    ];
    remove_duplicate_types(&mut module);
    assert_eq!(
        module.types_global_values,
        vec![
            int_type(1, 32, 1),
            Instruction::new(
                OP_VARIABLE,
                Some(1),
                Some(7),
                vec![Argument::StorageClass(spirv::StorageClass::Private)],
            ),
        ]
    );
    assert_eq!(
        module.capabilities,
        vec![Instruction::new(OP_CAPABILITY, Some(1), None, vec![Argument::IdScope(1)])]
    );
    assert_eq!(
        module.ext_inst_imports,
        vec![Instruction::new(
            OP_EXT_INST_IMPORT,
            None,
            Some(30),
            vec![Argument::IdMemorySemantics(1), Argument::LiteralInt32(2)],
        )]
    );
    assert_eq!(
        module.others,
        vec![
            Instruction::new(OP_LOAD, Some(1), Some(8), vec![Argument::IdRef(7), Argument::IdRef(1)]),
            Instruction::new(OP_LOAD, Some(1), Some(2), vec![Argument::LiteralInt64(2)]),
        ]
    );
}

#[test]
fn no_reference_to_a_deleted_identifier_is_left() {
    let mut module = empty_module();
    module.types_global_values = vec![
        int_type(1, 32, 1),
        int_type(2, 32, 1),
        int_type(3, 32, 1),
        struct_type(4, &[2, 3]),
        struct_type(5, &[1, 2]),
    ];
    module.others = vec![
        Instruction::new(OP_LOAD, Some(5), Some(9), vec![Argument::IdRef(3), Argument::IdScope(2)]),
    ];
    remove_duplicate_types(&mut module);
    let deleted = [2u32, 3, 5];
    let all = module
        .capabilities
        .iter()
        .chain(&module.ext_inst_imports)
        .chain(&module.types_global_values)
        .chain(&module.others);
    for inst in all {
        if let Some(ty) = inst.result_type {
            assert!(!deleted.contains(&ty));
        }
        for operand in &inst.operands {
            match operand {
                Argument::IdRef(id) | Argument::IdScope(id) | Argument::IdMemorySemantics(id) => {
                    assert!(!deleted.contains(id))
                }
                _ => {}
            }
        }
    }
    assert_eq!(module.types_global_values, vec![int_type(1, 32, 1), struct_type(4, &[1, 1])]);
    assert_eq!(
        module.others,
        vec![Instruction::new(
            OP_LOAD,
            Some(4),
            Some(9),
            vec![Argument::IdRef(1), Argument::IdScope(1)]
        )]
    );
}

#[test]
fn operands_of_other_kinds_enter_the_key() {
    let float = |id: u32, bits: f32| {
        Instruction::new(
            OP_CONSTANT,
            Some(1),
            Some(id),
            vec![Argument::Other(rspirv::dr::Operand::LiteralFloat32(bits))],
        )
    };
    let text = |id: u32, name: &str| {
        Instruction::new(31, None, Some(id), vec![Argument::LiteralString(name.to_string())])
    };
    let mut module = empty_module();
    module.types_global_values = vec![
        Instruction::new(OP_TYPE_FLOAT, None, Some(1), vec![Argument::LiteralInt32(32)]),
        float(2, 1.5),
        float(3, 2.5),
        float(4, 1.5),
        text(5, "left"),
        text(6, "right"),
        text(7, "left"),
        Instruction::new(OP_CONSTANT, Some(1), Some(8), vec![Argument::LiteralInt64(1 << 32)]),
        Instruction::new(OP_CONSTANT, Some(1), Some(9), vec![Argument::LiteralInt64(2 << 32)]),
    ];
    remove_duplicate_types(&mut module);
    let ids: Vec<Option<u32>> = module.types_global_values.iter().map(|i| i.result_id).collect();
    assert_eq!(ids, vec![Some(1), Some(2), Some(3), Some(5), Some(6), Some(8), Some(9)]);
}

#[test]
fn pending_forward_pointers_look_alike() {
    let forward = |id: u32| {
        Instruction::new(
            OP_TYPE_FORWARD_POINTER,
            None,
            None,
            vec![Argument::IdRef(id), Argument::StorageClass(spirv::StorageClass::Function)],
        )
    };
    let pointer = |id: u32, to: u32| {
        Instruction::new(
            OP_TYPE_POINTER,
            None,
            Some(id),
            vec![Argument::StorageClass(spirv::StorageClass::Function), Argument::IdRef(to)],
        )
    };
    let mut module = empty_module();
    module.types_global_values = vec![
        forward(10),
        forward(11),
        struct_type(1, &[10]),
        struct_type(2, &[11]),
        pointer(10, 1),
        pointer(11, 1),
        struct_type(3, &[10]),
        struct_type(4, &[11]),
    ];
    remove_duplicate_types(&mut module);
    assert_eq!(
        module.types_global_values,
        vec![
            forward(10),
            forward(10),
            struct_type(1, &[10]),
            pointer(10, 1),
            struct_type(3, &[10]),
        ]
    );
}

#[test]
fn forward_pointers_are_never_deleted() {
    let forward = Instruction::new(
        OP_TYPE_FORWARD_POINTER,
        None,
        None,
        vec![Argument::IdRef(10), Argument::StorageClass(spirv::StorageClass::Function)],
    );
    let odd = Instruction::new(OP_TYPE_FORWARD_POINTER, None, None, vec![]);
    let mut module = empty_module();
    module.types_global_values = vec![forward.clone(), forward.clone(), odd.clone(), odd.clone()];
    assert!(types_are_admissible(&module));
    remove_duplicate_types(&mut module);
    assert_eq!(module.types_global_values, vec![forward.clone(), forward, odd.clone(), odd]);
}

#[test]
fn markers_in_the_section_are_compacted_away() {
    let mut module = empty_module();
    module.types_global_values = vec![
        int_type(1, 32, 0),
        Instruction::new(OP_NOP, None, Some(50), vec![]),
        int_type(2, 32, 0),
    ];
    remove_duplicate_types(&mut module);
    assert_eq!(module.types_global_values, vec![int_type(1, 32, 0)]);
}

#[test]
fn types_refused_without_result_id() {
    let mut module = empty_module();
    module.types_global_values = vec![
        int_type(1, 32, 0),
        Instruction::new(OP_TYPE_INT, None, None, vec![Argument::LiteralInt32(8)]),
    ];
    let before = module.types_global_values.clone();
    assert!(!types_are_admissible(&module));
    assert!(!try_remove_duplicate_types(&mut module));
    assert_eq!(module.types_global_values, before);
}

#[test]
fn types_refused_when_an_identifier_is_replaced_twice() {
    let mut module = empty_module();
    module.types_global_values =
        vec![int_type(1, 32, 0), int_type(2, 32, 0), int_type(3, 16, 0), int_type(2, 16, 0)];
    let before = module.types_global_values.clone();
    assert!(!try_remove_duplicate_types(&mut module));
    assert_eq!(module.types_global_values, before);
}

#[test]
fn try_types_does_the_pass() {
    let mut module = empty_module();
    module.types_global_values = vec![int_type(1, 32, 0), int_type(2, 32, 0)];
    module.others = vec![Instruction::new(OP_LOAD, Some(2), Some(3), vec![])];
    assert!(try_remove_duplicate_types(&mut module));
    assert_eq!(module.types_global_values, vec![int_type(1, 32, 0)]);
    assert_eq!(module.others, vec![Instruction::new(OP_LOAD, Some(1), Some(3), vec![])]);
}

#[test]
fn a_reused_identifier_can_leave_a_deleted_reference() {
    // The second declaration of 2 is canonical for its key, the first was deleted.
    let mut module = empty_module();
    module.types_global_values =
        vec![int_type(1, 32, 0), int_type(2, 32, 0), int_type(2, 16, 0), int_type(3, 16, 0)];
    module.others = vec![Instruction::new(OP_LOAD, Some(3), Some(9), vec![])];
    assert!(try_remove_duplicate_types(&mut module));
    assert_eq!(module.others, vec![Instruction::new(OP_LOAD, Some(2), Some(9), vec![])]);
}
