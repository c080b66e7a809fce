use rspirv::spirv;
use rspirv_linker::def::DefAnalyzer;
use rspirv_linker::ir::{
    Argument, Instruction, Module, OP_CONSTANT, OP_TYPE_ARRAY, OP_TYPE_BOOL, OP_TYPE_DEVICE_EVENT,
    OP_TYPE_EVENT, OP_TYPE_FLOAT, OP_TYPE_FORWARD_POINTER, OP_TYPE_FUNCTION, OP_TYPE_IMAGE,
    OP_TYPE_INT, OP_TYPE_MATRIX, OP_TYPE_NAMED_BARRIER, OP_TYPE_OPAQUE, OP_TYPE_PIPE,
    OP_TYPE_PIPE_STORAGE, OP_TYPE_POINTER, OP_TYPE_QUEUE, OP_TYPE_RESERVE_ID,
    OP_TYPE_RUNTIME_ARRAY, OP_TYPE_SAMPLED_IMAGE, OP_TYPE_SAMPLER, OP_TYPE_STRUCT, OP_TYPE_VECTOR,
    OP_TYPE_VOID,
};
use rspirv_linker::render::decimal_text;
use rspirv_linker::translate::{
    trans_aggregate_type, trans_scalar_type, try_trans_aggregate_type, try_trans_scalar_type,
    TypeError,
};
use rspirv_linker::ty::{AggregateType, ScalarType};

const OP_SPEC_CONSTANT: u32 = 50;
const OP_LOAD: u32 = 61;

fn module_of(types: Vec<Instruction>) -> Module {
    Module {
        capabilities: vec![],
        ext_inst_imports: vec![],
        types_global_values: types,
        others: vec![],
    }
}

fn ty(opcode: u32, id: u32, operands: Vec<Argument>) -> Instruction {
    Instruction::new(opcode, None, Some(id), operands)
}

fn int32(id: u32) -> Instruction {
    ty(OP_TYPE_INT, id, vec![Argument::LiteralInt32(32), Argument::LiteralInt32(1)])
}

fn constant(id: u32, of: u32, value: Argument) -> Instruction {
    Instruction::new(OP_CONSTANT, Some(of), Some(id), vec![value])
}

fn signed32() -> AggregateType {
    AggregateType::Scalar(ScalarType::Int { width: 32, signed: true })
}

#[test]
fn scalars_without_operands() {
    let cases = [
        (OP_TYPE_VOID, ScalarType::Void, "void"),
        (OP_TYPE_BOOL, ScalarType::Bool, "bool"),
        (OP_TYPE_EVENT, ScalarType::Event, "Event"),
        (OP_TYPE_DEVICE_EVENT, ScalarType::DeviceEvent, "DeviceEvent"),
        (OP_TYPE_RESERVE_ID, ScalarType::ReserveId, "ReserveId"),
        (OP_TYPE_QUEUE, ScalarType::Queue, "Queue"),
        (OP_TYPE_PIPE, ScalarType::Pipe, "Pipe"),
        (OP_TYPE_PIPE_STORAGE, ScalarType::PipeStorage, "PipeStorage"),
        (OP_TYPE_NAMED_BARRIER, ScalarType::NamedBarrier, "NamedBarrier"),
        (OP_TYPE_SAMPLER, ScalarType::Sampler, "Sampler"),
    ];
    for (opcode, expected, text) in cases {
        let inst = ty(opcode, 1, vec![]);
        let found = trans_scalar_type(&inst);
        assert_eq!(found.as_ref().map(|t| t.to_text()), Some(text.to_string()));
        assert_eq!(found, Some(expected));
    }
}

#[test]
fn scalars_with_operands() {
    let int = ty(OP_TYPE_INT, 1, vec![Argument::LiteralInt32(16), Argument::LiteralInt32(0)]);
    assert_eq!(trans_scalar_type(&int), Some(ScalarType::Int { width: 16, signed: false }));
    let int = ty(OP_TYPE_INT, 1, vec![Argument::LiteralInt32(64), Argument::LiteralInt32(7)]);
    assert_eq!(trans_scalar_type(&int), Some(ScalarType::Int { width: 64, signed: true }));
    let float = ty(OP_TYPE_FLOAT, 1, vec![Argument::LiteralInt32(64)]);
    assert_eq!(trans_scalar_type(&float), Some(ScalarType::Float { width: 64 }));
    let opaque = ty(OP_TYPE_OPAQUE, 1, vec![Argument::LiteralString("blob".to_string())]);
    assert_eq!(trans_scalar_type(&opaque), Some(ScalarType::Opaque { name: "blob".to_string() }));
    let forward = Instruction::new(
        OP_TYPE_FORWARD_POINTER,
        None,
        None,
        vec![Argument::StorageClass(spirv::StorageClass::Workgroup)],
    );
    assert_eq!(
        trans_scalar_type(&forward),
        Some(ScalarType::ForwardPointer { storage_class: spirv::StorageClass::Workgroup })
    );
}

#[test]
fn other_opcodes_are_no_scalar() {
    assert_eq!(trans_scalar_type(&ty(OP_TYPE_STRUCT, 1, vec![])), None);
    assert_eq!(trans_scalar_type(&ty(OP_LOAD, 1, vec![])), None);
    assert_eq!(try_trans_scalar_type(&ty(OP_CONSTANT, 1, vec![])), Ok(None));
}

#[test]
fn malformed_scalars() {
    let cases = vec![
        ty(OP_TYPE_INT, 1, vec![]),
        ty(OP_TYPE_INT, 1, vec![Argument::LiteralInt32(32)]),
        ty(OP_TYPE_INT, 1, vec![Argument::LiteralInt32(32), Argument::LiteralInt64(1)]),
        ty(OP_TYPE_INT, 1, vec![Argument::IdRef(32), Argument::LiteralInt32(1)]),
        ty(OP_TYPE_FLOAT, 1, vec![]),
        ty(OP_TYPE_FLOAT, 1, vec![Argument::LiteralInt64(32)]),
        ty(OP_TYPE_OPAQUE, 1, vec![Argument::LiteralInt32(3)]),
        ty(OP_TYPE_OPAQUE, 1, vec![]),
        ty(OP_TYPE_FORWARD_POINTER, 1, vec![Argument::IdRef(3)]),
        ty(OP_TYPE_FORWARD_POINTER, 1, vec![]),
    ];
    for inst in cases {
        assert_eq!(try_trans_scalar_type(&inst), Err(TypeError::Malformed));
    }
}

#[test]
fn scalar_texts() {
    assert_eq!(ScalarType::Int { width: 32, signed: true }.to_text(), "i32");
    assert_eq!(ScalarType::Int { width: 8, signed: false }.to_text(), "u8");
    assert_eq!(ScalarType::Int { width: 0, signed: false }.to_text(), "u0");
    assert_eq!(ScalarType::Int { width: u32::MAX, signed: true }.to_text(), "i4294967295");
    assert_eq!(ScalarType::Float { width: 16 }.to_text(), "f16");
    assert_eq!(ScalarType::Float { width: 100 }.to_text(), "f100");
    assert_eq!(ScalarType::Opaque { name: "a b".to_string() }.to_text(), "Opaque{a b}");
    assert_eq!(ScalarType::Opaque { name: String::new() }.to_text(), "Opaque{}");
    assert_eq!(
        ScalarType::ForwardPointer { storage_class: spirv::StorageClass::PhysicalStorageBuffer }
            .to_text(),
        "ForwardPointer{PhysicalStorageBuffer}"
    );
}

#[test]
fn decimal_texts() {
    assert_eq!(decimal_text(0), "0");
    assert_eq!(decimal_text(7), "7");
    assert_eq!(decimal_text(10), "10");
    assert_eq!(decimal_text(1234567890), "1234567890");
    assert_eq!(decimal_text(u64::MAX), "18446744073709551615");
    let mut value = 1u64;
    for _ in 0..19 {
        assert_eq!(decimal_text(value), format!("{}", value));
        assert_eq!(decimal_text(value - 1), format!("{}", value - 1));
        value *= 10;
    }
}

#[test]
fn nested_structure_translates_and_renders() {
    let module = module_of(vec![
        int32(1),
        constant(2, 1, Argument::LiteralInt32(8)),
        ty(OP_TYPE_ARRAY, 3, vec![Argument::IdRef(1), Argument::IdRef(2)]),
        ty(
            OP_TYPE_POINTER,
            4,
            vec![Argument::StorageClass(spirv::StorageClass::Uniform), Argument::IdRef(3)],
        ),
        ty(OP_TYPE_STRUCT, 5, vec![Argument::IdRef(4)]),
    ]);
    let def = DefAnalyzer::new(&module);
    let inst = &module.types_global_values[4];
    let first = trans_aggregate_type(&def, inst);
    let second = trans_aggregate_type(&def, inst);
    assert_eq!(first, second);
    let expected = AggregateType::Aggregate(vec![AggregateType::Pointer {
        ty: Box::new(AggregateType::Array { ty: Box::new(signed32()), len: 8 }),
        storage_class: spirv::StorageClass::Uniform,
    }]);
    assert_eq!(first, Some(expected));
    let text = first.unwrap().to_text();
    assert_eq!(text, "struct { *{Uniform} [i32; 8], }");
    assert_eq!(second.unwrap().to_text(), text);
}

#[test]
fn array_length_of_either_width() {
    let module = module_of(vec![
        int32(1),
        constant(2, 1, Argument::LiteralInt64(1 << 40)),
        ty(OP_TYPE_ARRAY, 3, vec![Argument::IdRef(1), Argument::IdRef(2)]),
    ]);
    let def = DefAnalyzer::new(&module);
    let found = trans_aggregate_type(&def, &module.types_global_values[2]).unwrap();
    assert_eq!(found, AggregateType::Array { ty: Box::new(signed32()), len: 1 << 40 });
    assert_eq!(found.to_text(), "[i32; 1099511627776]");
}

#[test]
fn array_length_from_a_specialization_constant_is_unsupported() {
    let module = module_of(vec![
        int32(1),
        Instruction::new(OP_SPEC_CONSTANT, Some(1), Some(2), vec![Argument::LiteralInt32(8)]),
        ty(OP_TYPE_ARRAY, 3, vec![Argument::IdRef(1), Argument::IdRef(2)]),
    ]);
    let def = DefAnalyzer::new(&module);
    assert_eq!(
        try_trans_aggregate_type(&def, &module.types_global_values[2], 8),
        Err(TypeError::Unsupported)
    );
}

#[test]
fn malformed_arrays() {
    let module = module_of(vec![
        int32(1),
        constant(2, 1, Argument::LiteralInt32(8)),
        constant(3, 1, Argument::LiteralString("8".to_string())),
        Instruction::new(OP_CONSTANT, Some(1), Some(4), vec![]),
        ty(OP_LOAD, 5, vec![]),
    ]);
    let def = DefAnalyzer::new(&module);
    let cases = vec![
        vec![],
        vec![Argument::IdRef(1)],
        vec![Argument::IdRef(1), Argument::LiteralInt32(8)],
        vec![Argument::IdRef(1), Argument::IdRef(99)],
        vec![Argument::IdRef(1), Argument::IdRef(3)],
        vec![Argument::IdRef(1), Argument::IdRef(4)],
        vec![Argument::IdRef(99), Argument::IdRef(2)],
        vec![Argument::LiteralInt32(1), Argument::IdRef(2)],
        vec![Argument::IdRef(5), Argument::IdRef(2)],
    ];
    for operands in cases {
        let inst = ty(OP_TYPE_ARRAY, 9, operands);
        assert_eq!(try_trans_aggregate_type(&def, &inst, 8), Err(TypeError::Malformed));
    }
}

#[test]
fn pointers() {
    let module = module_of(vec![int32(1), ty(OP_LOAD, 2, vec![])]);
    let def = DefAnalyzer::new(&module);
    let good = ty(
        OP_TYPE_POINTER,
        9,
        vec![Argument::StorageClass(spirv::StorageClass::Function), Argument::IdRef(1)],
    );
    let found = trans_aggregate_type(&def, &good).unwrap();
    assert_eq!(
        found,
        AggregateType::Pointer {
            ty: Box::new(signed32()),
            storage_class: spirv::StorageClass::Function
        }
    );
    assert_eq!(found.to_text(), "*{Function} i32");
    let cases = vec![
        vec![],
        vec![Argument::StorageClass(spirv::StorageClass::Function)],
        vec![Argument::IdRef(1), Argument::StorageClass(spirv::StorageClass::Function)],
        vec![Argument::StorageClass(spirv::StorageClass::Function), Argument::IdRef(2)],
        vec![Argument::StorageClass(spirv::StorageClass::Function), Argument::IdRef(77)],
    ];
    for operands in cases {
        let inst = ty(OP_TYPE_POINTER, 9, operands);
        assert_eq!(try_trans_aggregate_type(&def, &inst, 8), Err(TypeError::Malformed));
    }
}

#[test]
fn aggregates_of_one_element_type() {
    let module = module_of(vec![int32(1), ty(OP_LOAD, 2, vec![])]);
    let def = DefAnalyzer::new(&module);
    for opcode in [OP_TYPE_VECTOR, OP_TYPE_MATRIX, OP_TYPE_RUNTIME_ARRAY, OP_TYPE_SAMPLED_IMAGE] {
        let inst = ty(opcode, 9, vec![Argument::IdRef(1), Argument::LiteralInt32(4)]);
        let found = trans_aggregate_type(&def, &inst).unwrap();
        assert_eq!(found, AggregateType::Aggregate(vec![signed32()]));
        assert_eq!(found.to_text(), "struct { i32, }");
        let inst = ty(opcode, 9, vec![Argument::IdRef(2), Argument::LiteralInt32(4)]);
        let found = trans_aggregate_type(&def, &inst).unwrap();
        assert_eq!(found, AggregateType::Aggregate(vec![]));
        assert_eq!(found.to_text(), "struct { }");
        let inst = ty(opcode, 9, vec![]);
        assert_eq!(try_trans_aggregate_type(&def, &inst, 8), Err(TypeError::Malformed));
        let inst = ty(opcode, 9, vec![Argument::IdRef(3)]);
        assert_eq!(try_trans_aggregate_type(&def, &inst, 8), Err(TypeError::Malformed));
    }
}

#[test]
fn structures() {
    let module = module_of(vec![
        int32(1),
        ty(OP_TYPE_FLOAT, 2, vec![Argument::LiteralInt32(32)]),
        ty(OP_LOAD, 3, vec![]),
    ]);
    let def = DefAnalyzer::new(&module);
    let inst = ty(OP_TYPE_STRUCT, 9, vec![Argument::IdRef(1), Argument::IdRef(2), Argument::IdRef(1)]);
    let found = trans_aggregate_type(&def, &inst).unwrap();
    assert_eq!(
        found,
        AggregateType::Aggregate(vec![
            signed32(),
            AggregateType::Scalar(ScalarType::Float { width: 32 }),
            signed32(),
        ])
    );
    assert_eq!(found.to_text(), "struct { i32, f32, i32, }");
    let empty = ty(OP_TYPE_STRUCT, 9, vec![]);
    assert_eq!(trans_aggregate_type(&def, &empty), Some(AggregateType::Aggregate(vec![])));
    for bad in [Argument::IdRef(3), Argument::IdRef(50), Argument::LiteralInt32(1)] {
        let inst = ty(OP_TYPE_STRUCT, 9, vec![Argument::IdRef(1), bad, Argument::IdRef(2)]);
        assert_eq!(try_trans_aggregate_type(&def, &inst, 8), Err(TypeError::Malformed));
    }
}

#[test]
fn functions() {
    let module = module_of(vec![
        int32(1),
        ty(OP_TYPE_FLOAT, 2, vec![Argument::LiteralInt32(32)]),
        ty(OP_TYPE_VOID, 3, vec![]),
        ty(OP_LOAD, 4, vec![]),
    ]);
    let def = DefAnalyzer::new(&module);
    let inst =
        ty(OP_TYPE_FUNCTION, 9, vec![Argument::IdRef(3), Argument::IdRef(1), Argument::IdRef(2)]);
    let found = trans_aggregate_type(&def, &inst).unwrap();
    assert_eq!(
        found,
        AggregateType::Function(
            vec![signed32(), AggregateType::Scalar(ScalarType::Float { width: 32 })],
            Box::new(AggregateType::Scalar(ScalarType::Void)),
        )
    );
    assert_eq!(found.to_text(), "fn( i32, f32, ) -> void");
    let plain = ty(OP_TYPE_FUNCTION, 9, vec![Argument::IdRef(1)]);
    let found = trans_aggregate_type(&def, &plain).unwrap();
    assert_eq!(found, AggregateType::Function(vec![], Box::new(signed32())));
    assert_eq!(found.to_text(), "fn( ) -> i32");
    let cases = vec![
        vec![],
        vec![Argument::IdRef(4)],
        vec![Argument::IdRef(3), Argument::IdRef(4)],
        vec![Argument::IdRef(3), Argument::IdRef(1), Argument::LiteralInt32(2)],
    ];
    for operands in cases {
        let inst = ty(OP_TYPE_FUNCTION, 9, operands);
        assert_eq!(try_trans_aggregate_type(&def, &inst, 8), Err(TypeError::Malformed));
    }
}

fn image_operands(last: Option<Argument>) -> Vec<Argument> {
    let mut operands = vec![
        Argument::IdRef(1),
        Argument::Dim(spirv::Dim::Dim2D),
        Argument::LiteralInt32(0),
        Argument::LiteralInt32(1),
        Argument::LiteralInt32(0),
        Argument::LiteralInt32(2),
        Argument::ImageFormat(spirv::ImageFormat::Rgba8),
    ];
    operands.extend(last);
    operands
}

fn image(access: Option<spirv::AccessQualifier>) -> AggregateType {
    AggregateType::Image {
        ty: Box::new(AggregateType::Scalar(ScalarType::Float { width: 32 })),
        dim: spirv::Dim::Dim2D,
        depth: 0,
        arrayed: 1,
        multi_sampled: 0,
        sampled: 2,
        format: spirv::ImageFormat::Rgba8,
        access,
    }
}

#[test]
fn images() {
    let module = module_of(vec![ty(OP_TYPE_FLOAT, 1, vec![Argument::LiteralInt32(32)])]);
    let def = DefAnalyzer::new(&module);
    let plain = ty(OP_TYPE_IMAGE, 9, image_operands(None));
    let found = trans_aggregate_type(&def, &plain).unwrap();
    assert_eq!(found, image(None));
    assert_eq!(
        found.to_text(),
        "Image { f32, dim:Dim2D, depth:0, arrayed:1, multi_sampled:0, sampled:2, format:Rgba8, access:None }"
    );
    let qualified = ty(
        OP_TYPE_IMAGE,
        9,
        image_operands(Some(Argument::AccessQualifier(spirv::AccessQualifier::ReadWrite))),
    );
    let found = trans_aggregate_type(&def, &qualified).unwrap();
    assert_eq!(found, image(Some(spirv::AccessQualifier::ReadWrite)));
    assert_eq!(
        found.to_text(),
        "Image { f32, dim:Dim2D, depth:0, arrayed:1, multi_sampled:0, sampled:2, format:Rgba8, access:Some(ReadWrite) }"
    );
    let odd = ty(OP_TYPE_IMAGE, 9, image_operands(Some(Argument::LiteralInt32(1))));
    assert_eq!(trans_aggregate_type(&def, &odd), Some(image(None)));
}

#[test]
fn malformed_images() {
    let module = module_of(vec![ty(OP_TYPE_FLOAT, 1, vec![Argument::LiteralInt32(32)])]);
    let def = DefAnalyzer::new(&module);
    for broken in 0..7 {
        let mut operands = image_operands(None);
        operands[broken] = Argument::LiteralString("x".to_string());
        let inst = ty(OP_TYPE_IMAGE, 9, operands);
        assert_eq!(try_trans_aggregate_type(&def, &inst, 8), Err(TypeError::Malformed));
        let mut operands = image_operands(None);
        operands.truncate(broken);
        let inst = ty(OP_TYPE_IMAGE, 9, operands);
        assert_eq!(try_trans_aggregate_type(&def, &inst, 8), Err(TypeError::Malformed));
    }
}

#[test]
fn sampled_image_text() {
    let sampled = AggregateType::SampledImage { ty: Box::new(image(None)) };
    assert_eq!(
        sampled.to_text(),
        "SampledImage{Image { f32, dim:Dim2D, depth:0, arrayed:1, multi_sampled:0, sampled:2, format:Rgba8, access:None }}"
    );
}

#[test]
fn what_declares_no_type_is_not_a_type() {
    let module = module_of(vec![int32(1)]);
    let def = DefAnalyzer::new(&module);
    assert_eq!(trans_aggregate_type(&def, &ty(OP_LOAD, 9, vec![Argument::IdRef(1)])), None);
    assert_eq!(
        trans_aggregate_type(&def, &constant(9, 1, Argument::LiteralInt32(1))),
        None
    );
    assert_eq!(trans_aggregate_type(&def, &int32(9)), Some(signed32()));
}

#[test]
fn depth_limits_the_translation() {
    let module = module_of(vec![
        int32(1),
        ty(OP_TYPE_STRUCT, 2, vec![Argument::IdRef(1)]),
        ty(OP_TYPE_STRUCT, 3, vec![Argument::IdRef(2)]),
    ]);
    let def = DefAnalyzer::new(&module);
    let inst = &module.types_global_values[2];
    assert_eq!(try_trans_aggregate_type(&def, inst, 0), Err(TypeError::TooDeep));
    assert_eq!(try_trans_aggregate_type(&def, inst, 1), Err(TypeError::TooDeep));
    assert_eq!(try_trans_aggregate_type(&def, inst, 2), Err(TypeError::TooDeep));
    let nested = AggregateType::Aggregate(vec![AggregateType::Aggregate(vec![signed32()])]);
    assert_eq!(try_trans_aggregate_type(&def, inst, 3), Ok(Some(nested)));
    assert_eq!(
        try_trans_aggregate_type(&def, inst, usize::MAX).map(|t| t.map(|t| t.to_text())),
        Ok(Some("struct { struct { i32, }, }".to_string()))
    );
}

#[test]
fn a_type_that_contains_itself_is_too_deep() {
    let module = module_of(vec![
        ty(OP_TYPE_STRUCT, 1, vec![Argument::IdRef(2)]),
        ty(
            OP_TYPE_POINTER,
            2,
            vec![Argument::StorageClass(spirv::StorageClass::Function), Argument::IdRef(1)],
        ),
    ]);
    let def = DefAnalyzer::new(&module);
    let inst = &module.types_global_values[0];
    assert_eq!(try_trans_aggregate_type(&def, inst, 100), Err(TypeError::TooDeep));
}

#[test]
fn the_last_definition_of_an_identifier_counts() {
    let mut module = module_of(vec![int32(1), ty(OP_TYPE_VOID, 1, vec![])]);
    module.capabilities = vec![ty(OP_TYPE_BOOL, 2, vec![])];
    module.ext_inst_imports = vec![ty(OP_TYPE_BOOL, 1, vec![])];
    module.others = vec![ty(OP_TYPE_FLOAT, 2, vec![Argument::LiteralInt32(16)])];
    let def = DefAnalyzer::new(&module);
    assert_eq!(def.def(1), Some(&module.types_global_values[1]));
    assert_eq!(def.def(2), Some(&module.others[0]));
    assert_eq!(def.def(3), None);
    assert_eq!(def.op_def(&Argument::IdRef(1)), Some(&module.types_global_values[1]));
    assert_eq!(def.op_def(&Argument::IdScope(2)), Some(&module.others[0]));
    assert_eq!(def.op_def(&Argument::IdMemorySemantics(2)), Some(&module.others[0]));
    assert_eq!(def.op_def(&Argument::LiteralInt32(1)), None);
    assert_eq!(def.op_def(&Argument::IdRef(3)), None);
}
