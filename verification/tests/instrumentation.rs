use canister_sandbox::cost::{instruction_to_mnemonic, leading_token, InstructionCostTable};
use canister_sandbox::errors::WasmInstrumentationError;
use canister_sandbox::inject::{
    inject_metering, inject_update_available_memory, read_kinds, read_ops, splice,
};
use canister_sandbox::instrumentation::{
    get_data, instrument, instrument_module, BinaryEncodedWasm, InstrumentationOutput,
    MAX_WASM_LEN,
};
use canister_sandbox::metering::{Op, OpKind};
use canister_sandbox::methods::{SystemMethod, WasmMethod};
use canister_sandbox::model::{DataSegment, LocalGroup, ValueKind};
use canister_sandbox::plan::{Emitted, Insertion, MeteringTargets};
use parity_wasm::builder;
use parity_wasm::elements::{
    BlockType, BrTableData, BulkInstruction, External, GlobalEntry, GlobalType, InitExpr,
    Instruction, Instructions, Internal, Local, Module, Section, ValueType,
};

fn bytes_of(module: Module) -> BinaryEncodedWasm {
    BinaryEncodedWasm::new(parity_wasm::serialize(module).unwrap())
}

fn run(module: Module) -> (InstrumentationOutput, Module) {
    run_with(module, &InstructionCostTable::new())
}

fn run_with(module: Module, table: &InstructionCostTable) -> (InstrumentationOutput, Module) {
    let output = instrument(&bytes_of(module), table).unwrap();
    let parsed = parity_wasm::deserialize_buffer::<Module>(output.binary.as_slice()).unwrap();
    (output, parsed)
}

fn failure(module: Module) -> WasmInstrumentationError {
    match instrument(&bytes_of(module), &InstructionCostTable::new()) {
        Ok(_) => panic!("the module was instrumented"),
        Err(error) => error,
    }
}

fn with_function(
    module: builder::ModuleBuilder,
    params: Vec<ValueType>,
    locals: Vec<Local>,
    body: Vec<Instruction>,
) -> builder::ModuleBuilder {
    module
        .function()
        .signature()
        .with_params(params)
        .build()
        .body()
        .with_locals(locals)
        .with_instructions(Instructions::new(body))
        .build()
        .build()
}

fn constant_module() -> Module {
    builder::module()
        .function()
        .signature()
        .with_result(ValueType::I32)
        .build()
        .body()
        .with_instructions(Instructions::new(vec![Instruction::I32Const(7), Instruction::End]))
        .build()
        .build()
        .build()
}

fn code(module: &Module, body: usize) -> Vec<Instruction> {
    module.code_section().unwrap().bodies()[body].code().elements().to_vec()
}

fn exports(module: &Module) -> Vec<(String, Internal)> {
    match module.export_section() {
        Some(section) => {
            section.entries().iter().map(|e| (e.field().to_string(), *e.internal())).collect()
        }
        None => Vec::new(),
    }
}

fn export_of(module: &Module, name: &str) -> Option<Internal> {
    exports(module).into_iter().find(|(field, _)| field == name).map(|(_, internal)| internal)
}

fn charge(counter: u32, cost: i64) -> Vec<Instruction> {
    vec![
        Instruction::GetGlobal(counter),
        Instruction::I64Const(cost),
        Instruction::I64Sub,
        Instruction::SetGlobal(counter),
    ]
}

fn check(counter: u32) -> Vec<Instruction> {
    vec![
        Instruction::GetGlobal(counter),
        Instruction::I64Const(0),
        Instruction::I64LtS,
        Instruction::If(BlockType::NoResult),
        Instruction::Call(0),
        Instruction::End,
    ]
}

fn concat(parts: Vec<Vec<Instruction>>) -> Vec<Instruction> {
    parts.into_iter().flatten().collect()
}

#[test]
fn constant_function_is_charged_one_instruction() {
    let (output, module) = run(constant_module());
    assert_eq!(
        code(&module, 0),
        concat(vec![
            charge(0, 1),
            check(0),
            vec![Instruction::I32Const(7), Instruction::End],
        ])
    );
    assert_eq!(export_of(&module, "canister counter_set"), Some(Internal::Function(3)));
    assert_eq!(export_of(&module, "canister counter_get"), Some(Internal::Function(4)));
    assert_eq!(export_of(&module, "canister counter_instructions"), Some(Internal::Global(0)));
    assert_eq!(output.limits, (0, None));
    assert!(output.exported_functions.is_empty());
    assert!(output.data.as_slice().is_empty());
}

#[test]
fn the_host_functions_are_the_first_two_imports() {
    let module = builder::module()
        .import()
        .module("env")
        .field("f")
        .external()
        .func(0)
        .build()
        .function()
        .signature()
        .build()
        .body()
        .with_instructions(Instructions::new(vec![Instruction::Call(0), Instruction::End]))
        .build()
        .build()
        .build();
    let (_, module) = run(module);
    let imports = module.import_section().unwrap().entries();
    assert_eq!(imports.len(), 3);
    assert_eq!((imports[0].module(), imports[0].field()), ("__", "out_of_instructions"));
    assert_eq!((imports[1].module(), imports[1].field()), ("__", "update_available_memory"));
    assert_eq!((imports[2].module(), imports[2].field()), ("env", "f"));
    let types = module.type_section().unwrap().types();
    let signature = |import: usize| match imports[import].external() {
        External::Function(index) => {
            let parity_wasm::elements::Type::Function(function) = &types[*index as usize];
            (function.params().to_vec(), function.results().to_vec())
        }
        other => panic!("{:?}", other),
    };
    assert_eq!(signature(0), (vec![], vec![]));
    assert_eq!(signature(1), (vec![ValueType::I32, ValueType::I32], vec![ValueType::I32]));
    // The call of the imported function follows it.
    assert!(code(&module, 0).contains(&Instruction::Call(2)));
    assert_eq!(export_of(&module, "canister counter_set"), Some(Internal::Function(4)));
}

#[test]
fn the_counter_functions_are_added_behind_the_others() {
    let (_, module) = run(constant_module());
    let bodies = module.code_section().unwrap().bodies();
    assert_eq!(bodies.len(), 4);
    assert_eq!(
        code(&module, 1),
        vec![Instruction::GetLocal(0), Instruction::SetGlobal(0), Instruction::End]
    );
    assert_eq!(code(&module, 2), vec![Instruction::GetGlobal(0), Instruction::End]);
    assert_eq!(
        code(&module, 3),
        vec![
            Instruction::GetGlobal(0),
            Instruction::GetLocal(0),
            Instruction::I64ExtendUI32,
            Instruction::I64LtS,
            Instruction::If(BlockType::NoResult),
            Instruction::Call(0),
            Instruction::End,
            Instruction::GetGlobal(0),
            Instruction::GetLocal(0),
            Instruction::I64ExtendUI32,
            Instruction::I64Sub,
            Instruction::SetGlobal(0),
            Instruction::GetLocal(0),
            Instruction::End,
        ]
    );
    let types = module.type_section().unwrap().types();
    let functions = module.function_section().unwrap().entries();
    let signature = |function: usize| {
        let parity_wasm::elements::Type::Function(t) = &types[functions[function].type_ref() as usize];
        (t.params().to_vec(), t.results().to_vec())
    };
    assert_eq!(signature(1), (vec![ValueType::I64], vec![]));
    assert_eq!(signature(2), (vec![], vec![ValueType::I64]));
    assert_eq!(signature(3), (vec![ValueType::I32], vec![ValueType::I32]));
    let globals = module.global_section().unwrap().entries();
    assert_eq!(globals.len(), 1);
    assert_eq!(
        globals[0],
        GlobalEntry::new(
            GlobalType::new(ValueType::I64, true),
            InitExpr::new(vec![Instruction::I64Const(0), Instruction::End]),
        )
    );
}

#[test]
fn module_without_memory_has_no_limits_and_no_memory_export() {
    let (output, module) = run(constant_module());
    assert_eq!(output.limits, (0, None));
    assert_eq!(export_of(&module, "memory"), None);
    assert_eq!(export_of(&module, "table"), None);
}

#[test]
fn module_without_start_section_has_no_canister_start_export() {
    let (output, module) = run(constant_module());
    assert_eq!(export_of(&module, "canister_start"), None);
    assert!(module.start_section().is_none());
    assert!(output.exported_functions.is_empty());
}

#[test]
fn the_start_function_is_exported_as_canister_start() {
    let module = with_function(builder::module(), vec![], vec![], vec![Instruction::End]);
    let mut module = with_function(module, vec![], vec![], vec![Instruction::End]).build();
    module.set_start_section(1);
    let (output, module) = run(module);
    assert!(module.start_section().is_none());
    assert_eq!(export_of(&module, "canister_start"), Some(Internal::Function(3)));
    assert_eq!(output.exported_functions.len(), 1);
    assert!(output.exported_functions[0].same(&WasmMethod::System(SystemMethod::CanisterStart)));
}

#[test]
fn references_to_functions_are_raised_by_two() {
    let module = with_function(
        builder::module(),
        vec![],
        vec![],
        vec![Instruction::Call(1), Instruction::Call(0), Instruction::End],
    );
    let module = with_function(module, vec![], vec![], vec![Instruction::End])
        .table()
        .with_min(2)
        .with_element(0, vec![0, 1])
        .build()
        .export()
        .field("canister_query read")
        .internal()
        .func(1)
        .build()
        .export()
        .field("t")
        .internal()
        .table(0)
        .build()
        .build();
    let (output, module) = run(module);
    let body = code(&module, 0);
    assert_eq!(
        &body[body.len() - 3..],
        &[Instruction::Call(3), Instruction::Call(2), Instruction::End]
    );
    assert_eq!(module.elements_section().unwrap().entries()[0].members(), &[2, 3]);
    assert_eq!(export_of(&module, "canister_query read"), Some(Internal::Function(3)));
    assert_eq!(export_of(&module, "table"), Some(Internal::Table(0)));
    assert_eq!(export_of(&module, "t"), None);
    assert_eq!(output.exported_functions.len(), 1);
    assert!(output.exported_functions[0].same(&WasmMethod::Query("read".to_string())));
}

#[test]
fn memory_and_table_are_exported_under_their_names() {
    let module = builder::module()
        .memory()
        .with_min(1)
        .with_max(Some(2))
        .build()
        .table()
        .with_min(1)
        .build()
        .build();
    let (output, module) = run(module);
    assert_eq!(output.limits, (1, Some(2)));
    assert_eq!(export_of(&module, "memory"), Some(Internal::Memory(0)));
    assert_eq!(export_of(&module, "table"), Some(Internal::Table(0)));
}

#[test]
fn exported_memory_is_renamed() {
    let module = builder::module()
        .memory()
        .with_min(3)
        .build()
        .export()
        .field("mem")
        .internal()
        .memory(0)
        .build()
        .build();
    let (output, module) = run(module);
    assert_eq!(output.limits, (3, None));
    let names: Vec<String> = exports(&module).into_iter().map(|(name, _)| name).collect();
    assert_eq!(
        names,
        vec![
            "memory",
            "canister counter_set",
            "canister counter_get",
            "canister counter_instructions"
        ]
    );
}

#[test]
fn mutable_globals_are_exported() {
    let global = |mutable: bool| {
        GlobalEntry::new(
            GlobalType::new(ValueType::I32, mutable),
            InitExpr::new(vec![Instruction::I32Const(0), Instruction::End]),
        )
    };
    let module = builder::module()
        .with_global(global(true))
        .with_global(global(false))
        .with_global(global(true))
        .with_global(global(true))
        .export()
        .field("kept")
        .internal()
        .global(2)
        .build()
        .build();
    let (_, module) = run(module);
    assert_eq!(
        exports(&module),
        vec![
            ("kept".to_string(), Internal::Global(2)),
            ("__persistent_mutable_global_0".to_string(), Internal::Global(0)),
            ("__persistent_mutable_global_3".to_string(), Internal::Global(3)),
            ("canister counter_set".to_string(), Internal::Function(2)),
            ("canister counter_get".to_string(), Internal::Function(3)),
            ("canister counter_instructions".to_string(), Internal::Global(4)),
        ]
    );
    assert_eq!(module.global_section().unwrap().entries().len(), 5);
}

#[test]
fn loop_is_charged_and_checked_on_every_entry() {
    // A loop that decrements local 0 and branches back while it is not zero.
    let body = vec![
        Instruction::Loop(BlockType::NoResult),
        Instruction::GetLocal(0),
        Instruction::I32Const(1),
        Instruction::I32Sub,
        Instruction::TeeLocal(0),
        Instruction::BrIf(0),
        Instruction::End,
        Instruction::End,
    ];
    let module = with_function(builder::module(), vec![ValueType::I32], vec![], body).build();
    let (_, module) = run(module);
    assert_eq!(
        code(&module, 0),
        concat(vec![
            charge(0, 0),
            check(0),
            vec![Instruction::Loop(BlockType::NoResult)],
            charge(0, 5),
            check(0),
            vec![
                Instruction::GetLocal(0),
                Instruction::I32Const(1),
                Instruction::I32Sub,
                Instruction::TeeLocal(0),
                Instruction::BrIf(0),
                Instruction::End,
                Instruction::End,
            ],
        ])
    );
}

#[test]
fn memory_grow_is_reported_to_the_host() {
    let body = vec![
        Instruction::GetLocal(0),
        Instruction::GrowMemory(0),
        Instruction::Drop,
        Instruction::End,
    ];
    let module = with_function(builder::module(), vec![ValueType::I32], vec![], body)
        .memory()
        .with_min(1)
        .build()
        .build();
    let (_, module) = run(module);
    assert_eq!(
        code(&module, 0),
        concat(vec![
            charge(0, 3),
            check(0),
            vec![
                Instruction::GetLocal(0),
                Instruction::TeeLocal(1),
                Instruction::GrowMemory(0),
                Instruction::GetLocal(1),
                Instruction::Call(1),
                Instruction::Drop,
                Instruction::End,
            ],
        ])
    );
    let bodies = module.code_section().unwrap().bodies();
    assert_eq!(bodies[0].locals(), &[Local::new(1, ValueType::I32)]);
}

#[test]
fn memory_grow_local_follows_parameters_and_locals() {
    let body = vec![Instruction::GrowMemory(0), Instruction::GrowMemory(0), Instruction::End];
    let locals = vec![Local::new(2, ValueType::I64), Local::new(1, ValueType::F32)];
    let module = with_function(
        builder::module(),
        vec![ValueType::I32, ValueType::I32],
        locals.clone(),
        body,
    )
    .build();
    let (_, module) = run(module);
    let body = code(&module, 0);
    assert_eq!(
        &body[10..],
        &[
            Instruction::TeeLocal(5),
            Instruction::GrowMemory(0),
            Instruction::GetLocal(5),
            Instruction::Call(1),
            Instruction::TeeLocal(5),
            Instruction::GrowMemory(0),
            Instruction::GetLocal(5),
            Instruction::Call(1),
            Instruction::End,
        ]
    );
    let mut expected = locals;
    expected.push(Local::new(1, ValueType::I32));
    assert_eq!(module.code_section().unwrap().bodies()[0].locals(), expected.as_slice());
}

#[test]
fn body_without_memory_grow_gets_no_local() {
    let (_, module) = run(constant_module());
    assert!(module.code_section().unwrap().bodies()[0].locals().is_empty());
}

#[test]
fn bulk_instruction_is_charged_by_its_size() {
    let body = vec![
        Instruction::I32Const(0),
        Instruction::I32Const(0),
        Instruction::I32Const(9),
        Instruction::Bulk(BulkInstruction::MemoryFill),
        Instruction::End,
    ];
    let module = with_function(builder::module(), vec![], vec![], body)
        .memory()
        .with_min(1)
        .build()
        .build();
    let (_, module) = run(module);
    // Function 0 is the only one of the module: behind the two imports it is
    // function 2, and the decrementing function is function 5.
    assert_eq!(
        code(&module, 0),
        concat(vec![
            charge(0, 4),
            check(0),
            vec![
                Instruction::I32Const(0),
                Instruction::I32Const(0),
                Instruction::I32Const(9),
                Instruction::Call(5),
                Instruction::Bulk(BulkInstruction::MemoryFill),
                Instruction::End,
            ],
        ])
    );
}

#[test]
fn data_segments_are_taken_out_of_the_module() {
    let module = builder::module()
        .memory()
        .with_min(1)
        .with_data(65436, vec![7; 100])
        .with_data(0, vec![1, 2])
        .build()
        .build();
    let (output, module) = run(module);
    assert_eq!(output.data.as_slice(), &[(65436, vec![7; 100]), (0, vec![1, 2])]);
    assert!(module.data_section().is_none());
    assert_eq!(output.limits, (1, None));
}

#[test]
fn negative_offset_is_taken_as_unsigned() {
    let module = builder::module()
        .memory()
        .with_min(1)
        .build()
        .data()
        .offset(Instruction::I32Const(-1))
        .value(vec![1])
        .build()
        .build();
    match failure(module) {
        WasmInstrumentationError::InvalidDataSegment { offset, len } => {
            assert_eq!((offset, len), (u32::MAX as usize, 1));
        }
        other => panic!("{:?}", other),
    }
}

#[test]
fn data_segment_beyond_the_initial_memory_is_rejected() {
    let module = builder::module()
        .memory()
        .with_min(1)
        .with_data(65500, vec![7; 100])
        .build()
        .build();
    match failure(module) {
        WasmInstrumentationError::InvalidDataSegment { offset, len } => {
            assert_eq!((offset, len), (65500, 100));
        }
        other => panic!("{:?}", other),
    }
}

#[test]
fn data_segment_without_memory_is_rejected() {
    let module = builder::module()
        .data()
        .offset(Instruction::I32Const(0))
        .value(vec![1])
        .build()
        .build();
    assert!(matches!(
        failure(module),
        WasmInstrumentationError::InvalidDataSegment { offset: 0, len: 1 }
    ));
}

#[test]
fn data_segment_with_a_computed_offset_is_rejected() {
    let module = builder::module()
        .memory()
        .with_min(1)
        .with_data(0, vec![1])
        .build()
        .data()
        .offset(Instruction::GetGlobal(0))
        .value(vec![1])
        .build()
        .build();
    assert!(matches!(
        failure(module),
        WasmInstrumentationError::UnsupportedDataSegment { segment: 1 }
    ));
}

#[test]
fn more_than_one_memory_is_rejected() {
    let module =
        builder::module().memory().with_min(1).build().memory().with_min(2).build().build();
    assert!(matches!(
        failure(module),
        WasmInstrumentationError::IncorrectNumberMemorySections { expected: 1, got: 2 }
    ));
}

#[test]
fn bytes_that_are_no_module_are_rejected() {
    for bytes in [Vec::new(), vec![1, 2, 3, 4], b"\0asm\x02\0\0\0".to_vec()] {
        match instrument(&BinaryEncodedWasm::new(bytes), &InstructionCostTable::new()) {
            Err(WasmInstrumentationError::ParityDeserializeError(error)) => {
                assert!(!error.0.is_empty());
            }
            other => panic!("{:?}", other.map(|_| ())),
        }
    }
    let error = instrument(
        &BinaryEncodedWasm::new(b"\0asm\x02\0\0\0".to_vec()),
        &InstructionCostTable::new(),
    );
    match error {
        Err(WasmInstrumentationError::ParityDeserializeError(error)) => {
            assert_eq!(error.0, "Unsupported wasm version 2");
        }
        other => panic!("{:?}", other.map(|_| ())),
    }
}

#[test]
fn instrumentation_is_deterministic() {
    let module = || {
        with_function(
            builder::module(),
            vec![ValueType::I32],
            vec![],
            vec![
                Instruction::Block(BlockType::NoResult),
                Instruction::GetLocal(0),
                Instruction::GrowMemory(0),
                Instruction::Drop,
                Instruction::End,
                Instruction::End,
            ],
        )
        .memory()
        .with_min(1)
        .with_data(8, vec![1, 2, 3])
        .build()
        .with_section(Section::Custom(parity_wasm::elements::CustomSection::new(
            "note".to_string(),
            vec![1, 2, 3],
        )))
        .build()
    };
    let first = instrument(&bytes_of(module()), &InstructionCostTable::new()).unwrap();
    let second = instrument(&bytes_of(module()), &InstructionCostTable::new()).unwrap();
    assert_eq!(first.binary.as_slice(), second.binary.as_slice());
    assert_eq!(first.limits, second.limits);
    assert_eq!(first.data.as_slice(), second.data.as_slice());
}

#[test]
fn the_cost_table_decides_what_is_charged() {
    let table = InstructionCostTable::new()
        .with_default_cost(5)
        .with_instruction_cost("i32.const".to_string(), 10)
        .with_instruction_cost("end".to_string(), 2);
    let (_, module) = run_with(constant_module(), &table);
    assert_eq!(&code(&module, 0)[..4], charge(0, 12).as_slice());

    let body = vec![Instruction::Nop, Instruction::Nop, Instruction::End];
    let module = with_function(builder::module(), vec![], vec![], body).build();
    let table = InstructionCostTable::new().with_default_cost(5);
    let (_, module) = run_with(module, &table);
    assert_eq!(&code(&module, 0)[..4], charge(0, 10).as_slice());
}

#[test]
fn default_table_charges_nothing_for_block_marks() {
    let table = InstructionCostTable::new();
    assert_eq!(table.mnemonic_cost("block"), 0);
    assert_eq!(table.mnemonic_cost("loop"), 0);
    assert_eq!(table.mnemonic_cost("else"), 0);
    assert_eq!(table.mnemonic_cost("end"), 0);
    assert_eq!(table.mnemonic_cost("if"), 1);
    assert_eq!(table.mnemonic_cost("i32.const"), 1);
    assert_eq!(InstructionCostTable::default().mnemonic_cost("end"), 0);
    assert_eq!(table.cost(&Instruction::End), 0);
    assert_eq!(table.cost(&Instruction::Block(BlockType::Value(ValueType::I32))), 0);
    assert_eq!(table.cost(&Instruction::I64Const(3)), 1);
    let table = table.with_instruction_cost("loop".to_string(), 3).with_default_cost(9);
    assert_eq!(table.cost(&Instruction::Loop(BlockType::NoResult)), 3);
    assert_eq!(table.cost(&Instruction::Nop), 9);
    assert_eq!(table.cost(&Instruction::End), 0);
}

#[test]
fn the_mnemonic_is_the_first_word_of_the_text() {
    let cases = vec![
        (Instruction::I32Const(7), "i32.const"),
        (Instruction::GetLocal(0), "get_local"),
        (Instruction::Block(BlockType::NoResult), "block"),
        (Instruction::Loop(BlockType::Value(ValueType::I64)), "loop"),
        (Instruction::I32Load(2, 8), "i32.load"),
        (Instruction::Bulk(BulkInstruction::MemoryFill), "memory.fill"),
        (Instruction::GrowMemory(0), "grow_memory"),
        (Instruction::End, "end"),
    ];
    for (instruction, mnemonic) in cases {
        assert_eq!(instruction_to_mnemonic(&instruction), mnemonic);
    }
    assert_eq!(leading_token("  i32.load offset=8"), "i32.load");
    assert_eq!(leading_token("a\tb"), "a");
    assert_eq!(leading_token("\u{2003}x\u{a0}y"), "x");
    assert_eq!(leading_token(""), "");
    assert_eq!(leading_token(" \n"), "");
}

#[test]
fn instructions_are_told_apart_by_their_kind() {
    let table = Box::new(BrTableData { table: vec![0].into_boxed_slice(), default: 0 });
    let code = vec![
        Instruction::Block(BlockType::NoResult),
        Instruction::Loop(BlockType::NoResult),
        Instruction::If(BlockType::NoResult),
        Instruction::Else,
        Instruction::End,
        Instruction::Br(1),
        Instruction::BrIf(2),
        Instruction::BrTable(table),
        Instruction::Bulk(BulkInstruction::MemoryFill),
        Instruction::Bulk(BulkInstruction::MemoryCopy),
        Instruction::Bulk(BulkInstruction::MemoryInit(1)),
        Instruction::Bulk(BulkInstruction::TableCopy),
        Instruction::Bulk(BulkInstruction::TableInit(1)),
        Instruction::Bulk(BulkInstruction::MemoryDrop(1)),
        Instruction::Bulk(BulkInstruction::TableDrop(1)),
        Instruction::GrowMemory(0),
        Instruction::Call(17),
        Instruction::CallIndirect(1, 0),
        Instruction::Nop,
    ];
    assert_eq!(
        read_kinds(&code),
        vec![
            OpKind::Block,
            OpKind::Loop,
            OpKind::If,
            OpKind::Else,
            OpKind::End,
            OpKind::Br,
            OpKind::BrIf,
            OpKind::BrTable,
            OpKind::MemoryFill,
            OpKind::MemoryCopy,
            OpKind::MemoryInit,
            OpKind::TableCopy,
            OpKind::TableInit,
            OpKind::Other,
            OpKind::Other,
            OpKind::MemoryGrow,
            OpKind::Call(17),
            OpKind::Other,
            OpKind::Other,
        ]
    );
    assert_eq!(
        read_kinds(&vec![Instruction::I32Const(-5), Instruction::I64Const(5)]),
        vec![OpKind::I32Const(-5), OpKind::Other]
    );
    let ops = read_ops(&code[15..].to_vec(), &InstructionCostTable::new().with_default_cost(4));
    assert_eq!(ops[0], Op { kind: OpKind::MemoryGrow, cost: 4 });
    assert_eq!(ops[1], Op { kind: OpKind::Call(17), cost: 4 });
}

#[test]
fn insertions_go_in_front_of_the_instruction_at_their_position() {
    let code = vec![Instruction::Nop, Instruction::Drop, Instruction::End];
    let insertions = vec![
        Insertion { position: 0, instruction: Emitted::GetGlobal(1) },
        Insertion { position: 0, instruction: Emitted::SetGlobal(2) },
        Insertion { position: 2, instruction: Emitted::GetLocal(3) },
        Insertion { position: 3, instruction: Emitted::TeeLocal(4) },
    ];
    assert_eq!(
        splice(&code, &insertions),
        vec![
            Instruction::GetGlobal(1),
            Instruction::SetGlobal(2),
            Instruction::Nop,
            Instruction::Drop,
            Instruction::GetLocal(3),
            Instruction::End,
            Instruction::TeeLocal(4),
        ]
    );
    assert_eq!(splice(&code, &Vec::new()), code);
    let every = vec![
        (Emitted::I64Const(-3), Instruction::I64Const(-3)),
        (Emitted::I64Sub, Instruction::I64Sub),
        (Emitted::I64LtS, Instruction::I64LtS),
        (Emitted::I64ExtendUI32, Instruction::I64ExtendUI32),
        (Emitted::IfNoResult, Instruction::If(BlockType::NoResult)),
        (Emitted::Call(8), Instruction::Call(8)),
        (Emitted::End, Instruction::End),
    ];
    for (emitted, instruction) in every {
        let spliced = splice(&Vec::new(), &vec![Insertion { position: 0, instruction: emitted }]);
        assert_eq!(spliced, vec![instruction]);
    }
}

#[test]
fn metering_is_added_to_a_body() {
    let targets = MeteringTargets { counter_global: 3, out_of_instructions_fn: 0, decrement_fn: 8 };
    let mut code = vec![
        Instruction::If(BlockType::NoResult),
        Instruction::Nop,
        Instruction::Else,
        Instruction::Bulk(BulkInstruction::TableCopy),
        Instruction::End,
        Instruction::End,
    ];
    inject_metering(&mut code, &InstructionCostTable::new(), targets);
    assert_eq!(
        code,
        concat(vec![
            charge(3, 1),
            check(3),
            vec![Instruction::If(BlockType::NoResult)],
            charge(3, 1),
            vec![Instruction::Nop, Instruction::Else],
            vec![Instruction::Call(8)],
            charge(3, 1),
            vec![
                Instruction::Bulk(BulkInstruction::TableCopy),
                Instruction::End,
                Instruction::End
            ],
        ])
    );
}

#[test]
fn memory_updates_are_added_to_a_body() {
    let mut code = vec![Instruction::Nop, Instruction::End];
    let mut locals = vec![LocalGroup { count: 1, kind: ValueKind::F64 }];
    assert_eq!(inject_update_available_memory(&mut locals, &mut code, 2), None);
    assert_eq!(code, vec![Instruction::Nop, Instruction::End]);
    assert_eq!(locals, vec![LocalGroup { count: 1, kind: ValueKind::F64 }]);
    let mut code = vec![Instruction::GrowMemory(0), Instruction::End];
    let mut locals = Vec::new();
    assert_eq!(inject_update_available_memory(&mut locals, &mut code, 2), Some(2));
    assert_eq!(locals, vec![LocalGroup { count: 1, kind: ValueKind::I32 }]);
    assert_eq!(
        code,
        vec![
            Instruction::TeeLocal(2),
            Instruction::GrowMemory(0),
            Instruction::GetLocal(2),
            Instruction::Call(1),
            Instruction::End,
        ]
    );
}

#[test]
fn the_local_for_memory_grow_is_an_i32_behind_the_other_locals() {
    let mut code = vec![Instruction::GetLocal(0), Instruction::GrowMemory(0), Instruction::End];
    let mut locals = vec![LocalGroup { count: 3, kind: ValueKind::I64 }];
    assert_eq!(inject_update_available_memory(&mut locals, &mut code, 1), Some(4));
    assert_eq!(
        locals,
        vec![
            LocalGroup { count: 3, kind: ValueKind::I64 },
            LocalGroup { count: 1, kind: ValueKind::I32 },
        ]
    );
    assert_eq!(
        code,
        vec![
            Instruction::GetLocal(0),
            Instruction::TeeLocal(4),
            Instruction::GrowMemory(0),
            Instruction::GetLocal(4),
            Instruction::Call(1),
            Instruction::End,
        ]
    );
}

#[test]
fn locals_keep_their_types() {
    let locals = vec![
        Local::new(1, ValueType::F32),
        Local::new(2, ValueType::F64),
        Local::new(3, ValueType::I64),
        Local::new(4, ValueType::I32),
    ];
    let body = vec![Instruction::GrowMemory(0), Instruction::End];
    let module = with_function(builder::module(), vec![], locals.clone(), body).build();
    let (_, module) = run(module);
    let mut expected = locals;
    expected.push(Local::new(1, ValueType::I32));
    assert_eq!(module.code_section().unwrap().bodies()[0].locals(), expected.as_slice());
}

#[test]
fn a_parsed_module_is_instrumented_before_it_is_written() {
    let instrumented = match instrument_module(rich_module(), &InstructionCostTable::new()) {
        Ok(instrumented) => instrumented,
        Err(error) => panic!("{:?}", error),
    };
    assert_eq!(instrumented.limits, (1, Some(4)));
    assert_eq!(instrumented.data.as_slice(), &[(16, vec![1, 2, 3, 4])]);
    assert_eq!(instrumented.exported_functions.len(), 2);
    assert!(instrumented.module.start_section().is_none());
    assert!(instrumented.module.data_section().is_none());
    let (output, written) = run(rich_module());
    assert_eq!(instrumented.module, written);
    assert_eq!(
        parity_wasm::serialize(instrumented.module).unwrap().as_slice(),
        output.binary.as_slice()
    );
    let two_memories =
        builder::module().memory().with_min(1).build().memory().with_min(2).build().build();
    assert!(matches!(
        instrument_module(two_memories, &InstructionCostTable::new()),
        Err(WasmInstrumentationError::IncorrectNumberMemorySections { expected: 1, got: 2 })
    ));
}

#[test]
fn a_module_that_is_too_long_is_not_written() {
    let note = |len: usize| {
        builder::module()
            .with_section(Section::Custom(parity_wasm::elements::CustomSection::new(
                "note".to_string(),
                vec![0; len],
            )))
            .build()
    };
    let long = bytes_of(note(MAX_WASM_LEN));
    assert!(long.len() > MAX_WASM_LEN);
    match instrument(&long, &InstructionCostTable::new()) {
        Err(WasmInstrumentationError::ParitySerializeError(error)) => {
            assert_eq!(error.0, "The module is too large to be written");
        }
        other => panic!("{:?}", other.map(|_| ())),
    }
    // 8 bytes of header, 1 of section id, 4 of length, 5 of name.
    let short = bytes_of(note(MAX_WASM_LEN - 18));
    assert_eq!(short.len(), MAX_WASM_LEN);
    assert!(instrument(&short, &InstructionCostTable::new()).is_ok());
    // Bytes that are no module are no module, however long they are.
    let garbage = BinaryEncodedWasm::new(vec![7; MAX_WASM_LEN + 1]);
    assert!(matches!(
        instrument(&garbage, &InstructionCostTable::new()),
        Err(WasmInstrumentationError::ParityDeserializeError(_))
    ));
}

#[test]
fn data_entries_become_segments() {
    let constant = |value: i32| Some(vec![Instruction::I32Const(value), Instruction::End]);
    let data = vec![
        DataSegment { init: constant(16), bytes: vec![1, 2] },
        DataSegment { init: constant(-2), bytes: vec![3] },
    ];
    let segments = get_data(&data).unwrap();
    assert_eq!(segments.as_slice(), &[(16, vec![1, 2]), (0xffff_fffe, vec![3])]);
    let data = vec![
        DataSegment { init: constant(0), bytes: vec![] },
        DataSegment { init: None, bytes: vec![3] },
        DataSegment { init: None, bytes: vec![4] },
    ];
    assert!(matches!(
        get_data(&data),
        Err(WasmInstrumentationError::UnsupportedDataSegment { segment: 1 })
    ));
    let no_constants = vec![
        Some(vec![Instruction::I32Const(1)]),
        Some(vec![Instruction::I64Const(1), Instruction::End]),
        Some(vec![Instruction::I32Const(1), Instruction::Nop]),
        Some(vec![Instruction::I32Const(1), Instruction::End, Instruction::End]),
        Some(vec![Instruction::GetGlobal(0), Instruction::End]),
        Some(Vec::new()),
    ];
    for init in no_constants {
        let data = vec![DataSegment { init, bytes: vec![1] }];
        assert!(matches!(
            get_data(&data),
            Err(WasmInstrumentationError::UnsupportedDataSegment { segment: 0 })
        ));
    }
}

#[test]
fn exported_methods_are_reported() {
    let module = with_function(builder::module(), vec![], vec![], vec![Instruction::End])
        .export()
        .field("canister_update write")
        .internal()
        .func(0)
        .build()
        .export()
        .field("canister_init")
        .internal()
        .func(0)
        .build()
        .export()
        .field("helper")
        .internal()
        .func(0)
        .build()
        .build();
    let (output, module) = run(module);
    assert_eq!(output.exported_functions.len(), 2);
    assert!(output.exported_functions[0].same(&WasmMethod::Update("write".to_string())));
    assert!(output.exported_functions[1].same(&WasmMethod::System(SystemMethod::CanisterInit)));
    assert_eq!(export_of(&module, "helper"), Some(Internal::Function(2)));
}

fn rich_module() -> Module {
    let body = vec![
        Instruction::Block(BlockType::NoResult),
        Instruction::GetLocal(0),
        Instruction::GrowMemory(0),
        Instruction::Drop,
        Instruction::Loop(BlockType::NoResult),
        Instruction::I32Const(0),
        Instruction::I32Const(0),
        Instruction::I32Const(4),
        Instruction::Bulk(BulkInstruction::MemoryCopy),
        Instruction::GetLocal(0),
        Instruction::BrIf(0),
        Instruction::End,
        Instruction::Call(0),
        Instruction::End,
        Instruction::End,
    ];
    let mut module = with_function(
        builder::module(),
        vec![ValueType::I32],
        vec![Local::new(2, ValueType::I64)],
        body,
    )
    .memory()
    .with_min(1)
    .with_max(Some(4))
    .with_data(16, vec![1, 2, 3, 4])
    .build()
    .table()
    .with_min(1)
    .with_element(0, vec![0])
    .build()
    .with_global(GlobalEntry::new(
        GlobalType::new(ValueType::I32, true),
        InitExpr::new(vec![Instruction::I32Const(5), Instruction::End]),
    ))
    .export()
    .field("canister_update go")
    .internal()
    .func(0)
    .build()
    .export()
    .field("g")
    .internal()
    .global(0)
    .build()
    .with_section(Section::Custom(parity_wasm::elements::CustomSection::new(
        "note".to_string(),
        vec![9, 9],
    )))
    .build();
    module.set_start_section(0);
    module
}

#[test]
fn a_module_with_everything_is_instrumented() {
    let (output, module) = run(rich_module());
    assert_eq!(output.limits, (1, Some(4)));
    assert_eq!(output.data.as_slice(), &[(16, vec![1, 2, 3, 4])]);
    assert_eq!(output.exported_functions.len(), 2);
    assert_eq!(
        exports(&module),
        vec![
            ("canister_update go".to_string(), Internal::Function(2)),
            ("g".to_string(), Internal::Global(0)),
            ("table".to_string(), Internal::Table(0)),
            ("memory".to_string(), Internal::Memory(0)),
            ("canister counter_set".to_string(), Internal::Function(3)),
            ("canister counter_get".to_string(), Internal::Function(4)),
            ("canister counter_instructions".to_string(), Internal::Global(1)),
            ("canister_start".to_string(), Internal::Function(2)),
        ]
    );
    assert_eq!(module.elements_section().unwrap().entries()[0].members(), &[2]);
    assert_eq!(module.custom_sections().count(), 1);
    let locals = module.code_section().unwrap().bodies()[0].locals().to_vec();
    assert_eq!(locals, vec![Local::new(2, ValueType::I64), Local::new(1, ValueType::I32)]);
    assert_eq!(
        code(&module, 0),
        concat(vec![
            charge(1, 0),
            check(1),
            vec![Instruction::Block(BlockType::NoResult)],
            charge(1, 4),
            vec![
                Instruction::GetLocal(0),
                Instruction::TeeLocal(3),
                Instruction::GrowMemory(0),
                Instruction::GetLocal(3),
                Instruction::Call(1),
                Instruction::Drop,
                Instruction::Loop(BlockType::NoResult),
            ],
            charge(1, 6),
            check(1),
            vec![
                Instruction::I32Const(0),
                Instruction::I32Const(0),
                Instruction::I32Const(4),
                Instruction::Call(5),
                Instruction::Bulk(BulkInstruction::MemoryCopy),
                Instruction::GetLocal(0),
                Instruction::BrIf(0),
                Instruction::End,
                Instruction::Call(2),
                Instruction::End,
                Instruction::End,
            ],
        ])
    );
}

#[test]
fn damaged_modules_are_instrumented_or_rejected() {
    let bytes = parity_wasm::serialize(rich_module()).unwrap();
    let table = InstructionCostTable::new();
    let mut state: u32 = 0x2545_f491;
    let mut instrumented = 0;
    let mut rejected = 0;
    for _ in 0..3000 {
        let mut damaged = bytes.clone();
        for _ in 0..3 {
            state ^= state << 13;
            state ^= state >> 17;
            state ^= state << 5;
            let at = 8 + (state as usize >> 8) % (damaged.len() - 8);
            damaged[at] = (state & 0xff) as u8 % 12;
        }
        match instrument(&BinaryEncodedWasm::new(damaged), &table) {
            Ok(output) => {
                assert!(parity_wasm::deserialize_buffer::<Module>(output.binary.as_slice()).is_ok());
                instrumented += 1;
            }
            Err(_) => rejected += 1,
        }
    }
    assert!(instrumented > 0);
    assert!(rejected > 0);
}

#[test]
fn emitted_instructions_have_their_kinds() {
    let every = vec![
        (Emitted::GetGlobal(1), OpKind::Other),
        (Emitted::SetGlobal(1), OpKind::Other),
        (Emitted::GetLocal(1), OpKind::Other),
        (Emitted::TeeLocal(1), OpKind::Other),
        (Emitted::I64Const(1), OpKind::Other),
        (Emitted::I64Sub, OpKind::Other),
        (Emitted::I64LtS, OpKind::Other),
        (Emitted::I64ExtendUI32, OpKind::Other),
        (Emitted::IfNoResult, OpKind::If),
        (Emitted::Call(8), OpKind::Call(8)),
        (Emitted::End, OpKind::End),
    ];
    for (emitted, kind) in every {
        let spliced = splice(&Vec::new(), &vec![Insertion { position: 0, instruction: emitted }]);
        assert_eq!(read_kinds(&spliced), vec![kind]);
    }
}

#[test]
fn charge_and_check_stand_in_front_of_the_first_instruction_of_a_loop() {
    // The loop starts with a bulk instruction: its call comes first.
    let targets = MeteringTargets { counter_global: 2, out_of_instructions_fn: 0, decrement_fn: 7 };
    let mut code = vec![
        Instruction::Loop(BlockType::NoResult),
        Instruction::Bulk(BulkInstruction::MemoryFill),
        Instruction::Br(0),
        Instruction::End,
        Instruction::End,
    ];
    inject_metering(&mut code, &InstructionCostTable::new(), targets);
    assert_eq!(
        code,
        concat(vec![
            charge(2, 0),
            check(2),
            vec![Instruction::Loop(BlockType::NoResult), Instruction::Call(7)],
            charge(2, 2),
            check(2),
            vec![
                Instruction::Bulk(BulkInstruction::MemoryFill),
                Instruction::Br(0),
                Instruction::End,
                Instruction::End,
            ],
        ])
    );
}
