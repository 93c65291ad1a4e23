//! Instrumentation of a WebAssembly module.
//!
//! An instrumented module counts the instructions that it executes and asks
//! the host before its memory grows. The counter is a global of the module.
//! Every basic block charges its cost to the counter when it is entered;
//! blocks that can be entered again, function bodies and loops, also check
//! that the counter has not run out, and call the host function
//! `out_of_instructions` if it has. After every `memory.grow` the host
//! function `update_available_memory` is called.

use crate::cost::{CostTableView, InstructionCostTable};
use crate::errors::{InstrumentationErrorView, ParityWasmError, WasmInstrumentationError};
use crate::exports::{
    exports_kind, mutable_global_exports, persistent_exports, rename_exports, renamed,
    shift_exports, shift_index,
    shift_indices, shifted, shifted_export, shifted_exports, shifted_indices,
    with_canonical_export,
};
use crate::inject::{
    inject_metering, inject_update_available_memory, kinds_of, memory_local, metered,
    with_memory_updates,
};
use crate::methods::{collect_methods, exported_methods, method_views, WasmMethod, WasmMethodView};
use crate::metering::OpKind;
use crate::model::{
    code_of, data_views, export_views, function_imports, global_imports, locals_of, nested_views,
    group_counts, mutability, signature_views, type_index, with_locals, with_type, BodyView,
    Contents, DataSegment, DataView, Export, ExportKind, ExportView, GlobalView, ImportKind,
    ImportView, Limits, LocalGroup, Signature, SignatureView, ValueKind,
};
use crate::plan::{has_memory_grow, memory_local_index, Emitted, MeteringTargets};
use crate::segments::{first_misfit, segment_fits, NumWasmPages, SegmentView, Segments};
use crate::wasm::{
    build, builder_contents, builder_of, builder_with_export, builder_with_function,
    builder_with_function_import, builder_with_global, builder_with_signature,
    clear_start_section, contents, describe, emit, emitted_instruction, error_text, from_module,
    functions_space, globals_space, instruction_kind, kind_of, module_of, module_with_code,
    module_with_elements, module_with_exports, module_with_last_import_first,
    module_with_locals, module_with_start, module_without_data, module_without_start,
    move_last_import_to_front, parse, parsed, push_export, push_function, push_function_import,
    push_global, push_signature, read_code, read_data, read_elements, read_exports,
    read_functions, read_globals, read_locals, read_memories, read_types, remove_data_sections,
    serialize, serialized, set_start_section, start_section, table_count, write_code,
    write_elements, write_exports, write_locals,
};
use parity_wasm::builder::{Identity, ModuleBuilder};
use parity_wasm::elements::{Instruction, Module};
use vstd::prelude::*;

verus! {

/// The type of `out_of_instructions`: no parameter, no result.
pub open spec fn out_of_instructions_type() -> SignatureView {
    SignatureView { params: Seq::empty(), results: Seq::empty() }
}

/// The type of `update_available_memory`: two `i32` parameters, the operand
/// and the result of `memory.grow`, and an `i32` result.
pub open spec fn update_available_memory_type() -> SignatureView {
    SignatureView { params: seq![ValueKind::I32, ValueKind::I32], results: seq![ValueKind::I32] }
}

/// The two host functions, in the order in which they are imported.
pub open spec fn helper_imports(types: Seq<SignatureView>) -> Seq<ImportView> {
    seq![
        ImportView {
            module: "__"@,
            field: "out_of_instructions"@,
            kind: ImportKind::Function(type_index(types, out_of_instructions_type()) as u32),
        },
        ImportView {
            module: "__"@,
            field: "update_available_memory"@,
            kind: ImportKind::Function(
                type_index(
                    with_type(types, out_of_instructions_type()),
                    update_available_memory_type(),
                ) as u32,
            ),
        },
    ]
}

/// An instruction behind the injected imports: a call refers to the same
/// function as before.
pub open spec fn shifted_instruction(instruction: Instruction) -> Instruction {
    match instruction_kind(instruction) {
        OpKind::Call(target) => emitted_instruction(Emitted::Call(shifted(target))),
        _ => instruction,
    }
}

pub open spec fn shifted_code(code: Seq<Instruction>) -> Seq<Instruction> {
    Seq::new(code.len(), |i: int| shifted_instruction(code[i]))
}

pub open spec fn shifted_bodies(bodies: Seq<BodyView>) -> Seq<BodyView> {
    Seq::new(
        bodies.len(),
        |i: int| BodyView { locals: bodies[i].locals, code: shifted_code(bodies[i].code) },
    )
}

pub open spec fn shifted_elements(elements: Seq<Seq<u32>>) -> Seq<Seq<u32>> {
    Seq::new(elements.len(), |i: int| shifted_indices(elements[i]))
}

pub open spec fn shifted_start(start: Option<u32>) -> Option<u32> {
    match start {
        Some(index) => Some(shifted(index)),
        None => None,
    }
}

/// A module with the two host functions as its first two imports. Every
/// reference to a function, in a call, an export, an element segment or the
/// start section, is two higher than before.
pub open spec fn with_helper_functions(c: Contents) -> Contents {
    Contents {
        types: with_type(
            with_type(c.types, out_of_instructions_type()),
            update_available_memory_type(),
        ),
        imports: helper_imports(c.types) + c.imports,
        exports: shifted_exports(c.exports),
        start: shifted_start(c.start),
        elements: shifted_elements(c.elements),
        bodies: shifted_bodies(c.bodies),
        ..c
    }
}

/// A module whose table, if it has one, is exported as `table`.
pub open spec fn with_table_export(c: Contents) -> Contents {
    Contents {
        exports: with_canonical_export(c.exports, ExportKind::Table, "table"@, c.tables > 0),
        ..c
    }
}

/// A module whose memory, if it has one, is exported as `memory`.
pub open spec fn with_memory_export(c: Contents) -> Contents {
    Contents {
        exports: with_canonical_export(
            c.exports,
            ExportKind::Memory,
            "memory"@,
            c.memories.len() > 0,
        ),
        ..c
    }
}

/// A module in which every mutable global is exported.
pub open spec fn with_global_exports(c: Contents) -> Contents {
    Contents {
        exports: c.exports + persistent_exports(
            mutability(c.globals),
            c.exports,
            c.globals.len() as int,
        ),
        ..c
    }
}

/// The number of functions of a module, imported and defined.
pub open spec fn function_space(c: Contents) -> nat {
    function_imports(c.imports) + c.functions.len()
}

/// The number of globals of a module, imported and defined.
pub open spec fn global_space(c: Contents) -> nat {
    global_imports(c.imports) + c.globals.len()
}

/// The index of the first function behind those of the module.
pub open spec fn first_new_function(c: Contents) -> u32 {
    function_space(c) as usize as u32
}

/// A function index behind `first`. Indices are 32-bit numbers: the sum is
/// taken modulo 2^32.
pub open spec fn function_behind(first: u32, offset: int) -> u32 {
    ((first + offset) % 0x1_0000_0000) as u32
}

/// What the metering code of a module refers to: the counter is the first
/// global behind those of the module, `out_of_instructions` its first
/// function, and the decrementing function the third one behind its
/// functions.
pub open spec fn metering_targets(c: Contents) -> MeteringTargets {
    MeteringTargets {
        counter_global: global_space(c) as usize as u32,
        out_of_instructions_fn: 0,
        decrement_fn: function_behind(first_new_function(c), 2),
    }
}

/// The number of parameters of the `index`-th function that is defined,
/// given the types and the type index of each function; 0 where the function
/// has no type among them.
pub open spec fn params_of(types: Seq<SignatureView>, functions: Seq<u32>, index: int) -> usize {
    if 0 <= index < functions.len() && functions[index] < types.len() {
        types[functions[index] as int].params.len() as usize
    } else {
        0
    }
}

/// The number of parameters of the function with the `index`-th body.
pub open spec fn param_count(c: Contents, index: int) -> usize {
    params_of(c.types, c.functions, index)
}

/// A body with its metering code and, where it grows the memory, with the
/// bookkeeping around every `memory.grow` and one more local.
pub open spec fn instrumented_body(
    body: BodyView,
    params: usize,
    table: CostTableView,
    targets: MeteringTargets,
) -> BodyView {
    let counted = metered(body.code, table, targets);
    if has_memory_grow(kinds_of(counted)) {
        BodyView {
            locals: body.locals.push(memory_local()),
            code: with_memory_updates(
                counted,
                memory_local_index(params, group_counts(body.locals)),
            ),
        }
    } else {
        BodyView { locals: body.locals, code: counted }
    }
}

pub open spec fn instrumented_bodies(c: Contents, table: CostTableView, targets: MeteringTargets)
    -> Seq<BodyView> {
    Seq::new(
        c.bodies.len(),
        |i: int| instrumented_body(c.bodies[i], param_count(c, i), table, targets),
    )
}

pub open spec fn emitted_all(list: Seq<Emitted>) -> Seq<Instruction> {
    Seq::new(list.len(), |i: int| emitted_instruction(list[i]))
}

/// `counter_set`: stores its parameter in the counter.
pub open spec fn counter_set_code(counter: u32) -> Seq<Emitted> {
    seq![Emitted::GetLocal(0), Emitted::SetGlobal(counter), Emitted::End]
}

/// `counter_get`: reads the counter.
pub open spec fn counter_get_code(counter: u32) -> Seq<Emitted> {
    seq![Emitted::GetGlobal(counter), Emitted::End]
}

/// The decrementing function: calls `out_of_instructions` if the counter is
/// less than its parameter, taken as an unsigned number; takes the parameter
/// off the counter; returns the parameter.
pub open spec fn decrement_code(counter: u32, out_of_instructions_fn: u32) -> Seq<Emitted> {
    seq![
        Emitted::GetGlobal(counter),
        Emitted::GetLocal(0),
        Emitted::I64ExtendUI32,
        Emitted::I64LtS,
        Emitted::IfNoResult,
        Emitted::Call(out_of_instructions_fn),
        Emitted::End,
        Emitted::GetGlobal(counter),
        Emitted::GetLocal(0),
        Emitted::I64ExtendUI32,
        Emitted::I64Sub,
        Emitted::SetGlobal(counter),
        Emitted::GetLocal(0),
        Emitted::End,
    ]
}

/// The initial value of the counter.
pub open spec fn counter_init_code() -> Seq<Emitted> {
    seq![Emitted::I64Const(0), Emitted::End]
}

pub open spec fn counter_set_type() -> SignatureView {
    SignatureView { params: seq![ValueKind::I64], results: Seq::empty() }
}

pub open spec fn counter_get_type() -> SignatureView {
    SignatureView { params: Seq::empty(), results: seq![ValueKind::I64] }
}

pub open spec fn decrement_type() -> SignatureView {
    SignatureView { params: seq![ValueKind::I32], results: seq![ValueKind::I32] }
}

/// The exports that give the host access to the counter, and to the function
/// that the start section named.
pub open spec fn counter_exports(first_function: u32, counter: u32, start: Option<u32>) -> Seq<
    ExportView,
> {
    let fixed = seq![
        ExportView {
            name: "canister counter_set"@,
            kind: ExportKind::Function,
            index: first_function,
        },
        ExportView {
            name: "canister counter_get"@,
            kind: ExportKind::Function,
            index: function_behind(first_function, 1),
        },
        ExportView {
            name: "canister counter_instructions"@,
            kind: ExportKind::Global,
            index: counter,
        },
    ];
    match start {
        Some(index) => fixed.push(
            ExportView { name: "canister_start"@, kind: ExportKind::Function, index },
        ),
        None => fixed,
    }
}

/// A module with the counter: a mutable global behind the other globals,
/// three functions behind the other functions, and their exports. The
/// function that `start` names is exported as `canister_start`.
pub open spec fn with_counter(c: Contents, targets: MeteringTargets, start: Option<u32>)
    -> Contents {
    let types1 = with_type(c.types, counter_set_type());
    let types2 = with_type(types1, counter_get_type());
    let types3 = with_type(types2, decrement_type());
    Contents {
        types: types3,
        functions: c.functions.push(type_index(c.types, counter_set_type()) as u32).push(
            type_index(types1, counter_get_type()) as u32,
        ).push(type_index(types2, decrement_type()) as u32),
        bodies: c.bodies.push(
            BodyView {
                locals: Seq::empty(),
                code: emitted_all(counter_set_code(targets.counter_global)),
            },
        ).push(
            BodyView {
                locals: Seq::empty(),
                code: emitted_all(counter_get_code(targets.counter_global)),
            },
        ).push(
            BodyView {
                locals: Seq::empty(),
                code: emitted_all(
                    decrement_code(targets.counter_global, targets.out_of_instructions_fn),
                ),
            },
        ),
        exports: c.exports + counter_exports(
            first_new_function(c),
            targets.counter_global,
            start,
        ),
        globals: c.globals.push(
            GlobalView {
                kind: ValueKind::I64,
                mutable: true,
                init: emitted_all(counter_init_code()),
            },
        ),
        ..c
    }
}

/// A module with everything but the counter: the host functions, the
/// exports, and the code in every body.
pub open spec fn prepared(c: Contents, table: CostTableView) -> Contents {
    let exported = with_global_exports(
        with_memory_export(with_table_export(with_helper_functions(c))),
    );
    Contents {
        start: None,
        bodies: instrumented_bodies(exported, table, metering_targets(exported)),
        data: Seq::empty(),
        ..exported
    }
}

/// The instrumented module.
pub open spec fn instrumented(c: Contents, table: CostTableView) -> Contents {
    let exported = with_global_exports(
        with_memory_export(with_table_export(with_helper_functions(c))),
    );
    with_counter(prepared(c, table), metering_targets(exported), exported.start)
}


/// The builder after the first `n` of the exports have been pushed.
pub open spec fn builder_with_exports(
    builder: ModuleBuilder<Identity>,
    exports: Seq<ExportView>,
    n: int,
) -> ModuleBuilder<Identity>
    decreases n,
{
    if n <= 0 {
        builder
    } else {
        builder_with_export(builder_with_exports(builder, exports, n - 1), exports[n - 1])
    }
}

/// The module that `inject_helper_functions` makes of a module.
pub open spec fn helped_module(m: Module) -> Module {
    let first = builder_with_signature(builder_of(m), out_of_instructions_type());
    let second = builder_with_signature(
        builder_with_function_import(
            first,
            "__"@,
            "out_of_instructions"@,
            type_index(contents(m).types, out_of_instructions_type()) as u32,
        ),
        update_available_memory_type(),
    );
    let built = module_of(
        builder_with_function_import(
            second,
            "__"@,
            "update_available_memory"@,
            type_index(
                with_type(contents(m).types, out_of_instructions_type()),
                update_available_memory_type(),
            ) as u32,
        ),
    );
    let imported = module_with_last_import_first(module_with_last_import_first(built));
    let called = module_with_code(imported, code_of(shifted_bodies(contents(m).bodies)));
    let exported = module_with_exports(called, shifted_exports(contents(m).exports));
    let listed = module_with_elements(exported, shifted_elements(contents(m).elements));
    match contents(m).start {
        Some(start) => module_with_start(listed, shifted(start)),
        None => listed,
    }
}

/// The module in which the first thing of a kind is exported under its
/// canonical name.
pub open spec fn canonical_export_module(
    m: Module,
    kind: ExportKind,
    name: Seq<char>,
    present: bool,
) -> Module {
    let all = module_with_exports(
        m,
        Seq::new(contents(m).exports.len(), |i: int| renamed(contents(m).exports[i], kind, name)),
    );
    if exports_kind(contents(m).exports, kind) || !present {
        all
    } else {
        module_of(builder_with_export(builder_of(all), ExportView { name, kind, index: 0 }))
    }
}

/// The module that `export_mutable_globals` makes of a module.
pub open spec fn global_exports_module(m: Module) -> Module {
    let c = contents(m);
    let added = persistent_exports(mutability(c.globals), c.exports, c.globals.len() as int);
    if c.globals.len() == 0 {
        m
    } else {
        module_of(builder_with_exports(builder_of(m), added, added.len() as int))
    }
}

/// The module with the host functions and the exports of table, memory and
/// mutable globals.
pub open spec fn exported_module(m: Module) -> Module {
    let helped = helped_module(m);
    let tabled = canonical_export_module(
        helped,
        ExportKind::Table,
        "table"@,
        contents(helped).tables > 0,
    );
    let memoried = canonical_export_module(
        tabled,
        ExportKind::Memory,
        "memory"@,
        contents(tabled).memories.len() > 0,
    );
    global_exports_module(memoried)
}

/// The module with every body instrumented.
pub open spec fn bodies_module(m: Module, table: CostTableView, targets: MeteringTargets)
    -> Module {
    let bodies = instrumented_bodies(contents(m), table, targets);
    module_with_code(module_with_locals(m, locals_of(bodies)), code_of(bodies))
}

/// The module that `add_counter` makes of a module.
pub open spec fn counter_module(m: Module, targets: MeteringTargets, start: Option<u32>)
    -> Module {
    let c = contents(m);
    let counter = targets.counter_global;
    let exports = counter_exports(first_new_function(c), counter, start);
    let types1 = with_type(c.types, counter_set_type());
    let types2 = with_type(types1, counter_get_type());
    let set = builder_with_export(
        builder_with_function(
            builder_with_signature(builder_of(m), counter_set_type()),
            type_index(c.types, counter_set_type()) as u32,
            emitted_all(counter_set_code(counter)),
        ),
        exports[0],
    );
    let get = builder_with_export(
        builder_with_function(
            builder_with_signature(set, counter_get_type()),
            type_index(types1, counter_get_type()) as u32,
            emitted_all(counter_get_code(counter)),
        ),
        exports[1],
    );
    let decrement = builder_with_export(
        builder_with_function(
            builder_with_signature(get, decrement_type()),
            type_index(types2, decrement_type()) as u32,
            emitted_all(decrement_code(counter, targets.out_of_instructions_fn)),
        ),
        exports[2],
    );
    let started = match start {
        Some(index) => builder_with_export(decrement, exports[3]),
        None => decrement,
    };
    module_of(
        builder_with_global(started, ValueKind::I64, true, emitted_all(counter_init_code())),
    )
}

/// The instrumented module: what `instrument_module` makes of a module.
pub open spec fn instrumented_module(m: Module, table: CostTableView) -> Module {
    let exported = exported_module(m);
    let targets = metering_targets(contents(exported));
    let start = contents(exported).start;
    let cleared = if start is Some {
        module_without_start(exported)
    } else {
        exported
    };
    counter_module(module_without_data(bodies_module(cleared, table, targets)), targets, start)
}

/// The greatest length of a module in its binary form that can be
/// instrumented: 32 MiB. The lengths inside the instrumented module stay
/// below 2^32, which its binary form needs.
pub const MAX_WASM_LEN: usize = 0x200_0000;

/// The module is the instrumented form of a module that was read from at
/// most `MAX_WASM_LEN` bytes.
pub open spec fn is_writable(module: Module) -> bool {
    exists|wasm: Seq<u8>, table: CostTableView|
        wasm.len() <= MAX_WASM_LEN && (#[trigger] parsed(wasm)) is Ok && module
            == #[trigger] instrumented_module(parsed(wasm)->Ok_0, table)
}

fn emit_all(list: &Vec<Emitted>) -> (res: Vec<Instruction>)
    ensures
        res@ == emitted_all(list@),
{
    let mut out: Vec<Instruction> = Vec::new();
    let mut i: usize = 0;
    while i < list.len()
        invariant
            i <= list.len(),
            out@ == emitted_all(list@).take(i as int),
        decreases list.len() - i,
    {
        out.push(emit(list[i]));
        assert(out@ =~= emitted_all(list@).take(i + 1));
        i += 1;
    }
    assert(emitted_all(list@).take(list.len() as int) =~= emitted_all(list@));
    out
}

fn shift_calls(code: &mut Vec<Instruction>)
    ensures
        final(code)@ == shifted_code(old(code)@),
{
    let mut i: usize = 0;
    while i < code.len()
        invariant
            i <= code.len(),
            code@.len() == old(code)@.len(),
            forall|k: int| 0 <= k < i ==> code@[k] == shifted_instruction(old(code)@[k]),
            forall|k: int| i <= k < code@.len() ==> code@[k] == old(code)@[k],
        decreases code.len() - i,
    {
        match kind_of(&code[i]) {
            OpKind::Call(target) => {
                code[i] = emit(Emitted::Call(shift_index(target)));
            },
            _ => {},
        }
        i += 1;
    }
    assert(code@ =~= shifted_code(old(code)@));
}

fn shift_all_calls(code: &mut Vec<Vec<Instruction>>)
    ensures
        final(code)@.len() == old(code)@.len(),
        nested_views(final(code)@) == Seq::new(
            old(code)@.len(),
            |i: int| shifted_code(old(code)@[i]@),
        ),
{
    let mut i: usize = 0;
    while i < code.len()
        invariant
            i <= code.len(),
            code@.len() == old(code)@.len(),
            forall|k: int| 0 <= k < i ==> code@[k]@ == shifted_code(old(code)@[k]@),
            forall|k: int| i <= k < code@.len() ==> code@[k] == old(code)@[k],
        decreases code.len() - i,
    {
        shift_calls(&mut code[i]);
        i += 1;
    }
    assert(nested_views(code@) =~= Seq::new(
        old(code)@.len(),
        |i: int| shifted_code(old(code)@[i]@),
    ));
}

fn shift_all_elements(elements: &Vec<Vec<u32>>) -> (res: Vec<Vec<u32>>)
    ensures
        nested_views(res@) == shifted_elements(nested_views(elements@)),
{
    let mut out: Vec<Vec<u32>> = Vec::new();
    let mut i: usize = 0;
    while i < elements.len()
        invariant
            i <= elements.len(),
            out@.len() == i,
            forall|k: int| 0 <= k < i ==> out@[k]@ == shifted_indices(elements@[k]@),
        decreases elements.len() - i,
    {
        out.push(shift_indices(&elements[i]));
        i += 1;
    }
    assert(nested_views(out@) =~= shifted_elements(nested_views(elements@)));
    out
}

/// Imports the two host functions in front of all other imports, and raises
/// every reference to a function by two.
fn inject_helper_functions(module: Module) -> (res: Module)
    ensures
        contents(res) == with_helper_functions(contents(module)),
        res == helped_module(module),
{
    let ghost c = contents(module);
    let mut builder = from_module(module);
    let no_values: Vec<ValueKind> = Vec::new();
    let no_result: Vec<ValueKind> = Vec::new();
    let first = Signature { params: no_values, results: no_result };
    assert(first@ =~= out_of_instructions_type()) by {
        assert(first@.params =~= Seq::empty());
        assert(first@.results =~= Seq::empty());
    }
    let first_type = push_signature(&mut builder, &first);
    push_function_import(&mut builder, "__", "out_of_instructions", first_type);
    let second = Signature {
        params: vec![ValueKind::I32, ValueKind::I32],
        results: vec![ValueKind::I32],
    };
    assert(second@ =~= update_available_memory_type()) by {
        assert(second@.params =~= seq![ValueKind::I32, ValueKind::I32]);
        assert(second@.results =~= seq![ValueKind::I32]);
    }
    let second_type = push_signature(&mut builder, &second);
    push_function_import(&mut builder, "__", "update_available_memory", second_type);
    let mut module = build(builder);
    move_last_import_to_front(&mut module);
    move_last_import_to_front(&mut module);
    assert(contents(module).imports =~= helper_imports(c.types) + c.imports);

    let mut code = read_code(&module);
    assert(code@.len() == c.bodies.len()) by {
        assert(nested_views(code@).len() == code_of(c.bodies).len());
    }
    let ghost old_code = code@;
    shift_all_calls(&mut code);
    let ghost new_code = code@;
    assert(nested_views(code@) =~= code_of(shifted_bodies(c.bodies))) by {
        assert forall|i: int| 0 <= i < c.bodies.len() implies nested_views(new_code)[i]
            == code_of(shifted_bodies(c.bodies))[i] by {
            assert(nested_views(old_code)[i] == code_of(c.bodies)[i]);
        }
    }
    write_code(&mut module, code);
    assert(contents(module).bodies =~= shifted_bodies(c.bodies)) by {
        assert forall|i: int| 0 <= i < c.bodies.len() implies contents(module).bodies[i]
            == shifted_bodies(c.bodies)[i] by {
            assert(nested_views(new_code)[i] == code_of(shifted_bodies(c.bodies))[i]);
        }
    }

    let exports = read_exports(&module);
    let shifted = shift_exports(&exports);
    assert(shifted@.len() == exports@.len()) by {
        assert(export_views(shifted@).len() == export_views(exports@).len());
    }
    assert(exports@.len() == c.exports.len()) by {
        assert(export_views(exports@).len() == c.exports.len());
    }
    write_exports(&mut module, &shifted);

    let elements = read_elements(&module);
    let shifted_members = shift_all_elements(&elements);
    assert(shifted_members@.len() == c.elements.len()) by {
        assert(nested_views(shifted_members@).len() == nested_views(elements@).len());
    }
    write_elements(&mut module, shifted_members);

    match start_section(&module) {
        Some(start) => {
            set_start_section(&mut module, shift_index(start));
        },
        None => {},
    }
    module
}

fn push_exports(builder: &mut ModuleBuilder<Identity>, exports: &Vec<Export>)
    ensures
        builder_contents(*final(builder)) == (Contents {
            exports: builder_contents(*old(builder)).exports + export_views(exports@),
            ..builder_contents(*old(builder))
        }),
        *final(builder) == builder_with_exports(
            *old(builder),
            export_views(exports@),
            exports.len() as int,
        ),
{
    let ghost start = builder_contents(*builder);
    let mut i: usize = 0;
    assert(start.exports + export_views(exports@).take(0) =~= start.exports);
    while i < exports.len()
        invariant
            i <= exports.len(),
            builder_contents(*builder) == (Contents {
                exports: start.exports + export_views(exports@).take(i as int),
                ..start
            }),
            *builder == builder_with_exports(*old(builder), export_views(exports@), i as int),
        decreases exports.len() - i,
    {
        let export = Export {
            name: exports[i].name.clone(),
            kind: exports[i].kind,
            index: exports[i].index,
        };
        assert(export@ == export_views(exports@)[i as int]);
        push_export(builder, export);
        assert((start.exports + export_views(exports@).take(i as int)).push(
            export_views(exports@)[i as int],
        ) =~= start.exports + export_views(exports@).take(i + 1));
        i += 1;
    }
    assert(export_views(exports@).take(exports.len() as int) =~= export_views(exports@));
}

/// Exports the first of the given kind of thing under `name`: every export
/// of that kind gets the name; where there is none and `present` says that
/// the module has such a thing, an export is added.
fn export_canonical(module: Module, kind: ExportKind, name: &str, present: bool) -> (res: Module)
    ensures
        contents(res) == (Contents {
            exports: with_canonical_export(contents(module).exports, kind, name@, present),
            ..contents(module)
        }),
        res == canonical_export_module(module, kind, name@, present),
{
    let ghost c = contents(module);
    let mut module = module;
    let exports = read_exports(&module);
    let (renamed, already_exported) = rename_exports(&exports, kind, name);
    assert(renamed@.len() == c.exports.len()) by {
        assert(export_views(renamed@).len() == exports@.len());
        assert(export_views(exports@).len() == c.exports.len());
    }
    assert(export_views(renamed@) =~= Seq::new(
        c.exports.len(),
        |i: int| crate::exports::renamed(c.exports[i], kind, name@),
    ));
    write_exports(&mut module, &renamed);
    if already_exported || !present {
        module
    } else {
        let mut builder = from_module(module);
        push_export(&mut builder, Export { name: name.to_owned(), kind, index: 0 });
        build(builder)
    }
}

/// Exports the table, if the module has one, as `table`.
fn export_table(module: Module) -> (res: Module)
    ensures
        contents(res) == with_table_export(contents(module)),
        res == canonical_export_module(
            module,
            ExportKind::Table,
            "table"@,
            contents(module).tables > 0,
        ),
{
    let present = table_count(&module) > 0;
    export_canonical(module, ExportKind::Table, "table", present)
}

/// Exports the memory, if the module has one, as `memory`.
fn export_memory(module: Module) -> (res: Module)
    ensures
        contents(res) == with_memory_export(contents(module)),
        res == canonical_export_module(
            module,
            ExportKind::Memory,
            "memory"@,
            contents(module).memories.len() > 0,
        ),
{
    let present = read_memories(&module).len() > 0;
    export_canonical(module, ExportKind::Memory, "memory", present)
}

/// Exports every mutable global that is not exported yet: a global has to be
/// exported for its value to be kept.
fn export_mutable_globals(module: Module) -> (res: Module)
    ensures
        contents(res) == with_global_exports(contents(module)),
        res == global_exports_module(module),
{
    let globals = read_globals(&module);
    if globals.len() == 0 {
        assert(contents(module).exports + persistent_exports(
            mutability(contents(module).globals),
            contents(module).exports,
            0,
        ) =~= contents(module).exports);
        module
    } else {
        let exports = read_exports(&module);
        let added = mutable_global_exports(&globals, &exports);
        assert(added@.len() == export_views(added@).len());
        let mut builder = from_module(module);
        push_exports(&mut builder, &added);
        build(builder)
    }
}


fn function_params(types: &Vec<Signature>, functions: &Vec<u32>, index: usize) -> (res: usize)
    ensures
        res == params_of(signature_views(types@), functions@, index as int),
{
    if index < functions.len() && (functions[index] as usize) < types.len() {
        assert(signature_views(types@)[functions@[index as int] as int]
            == types@[functions@[index as int] as int]@);
        types[functions[index] as usize].params.len()
    } else {
        0
    }
}

/// Adds the metering code and the bookkeeping of memory growth to every
/// function body.
fn instrument_bodies(module: &mut Module, table: &InstructionCostTable, targets: MeteringTargets)
    ensures
        contents(*final(module)) == (Contents {
            bodies: instrumented_bodies(contents(*old(module)), table@, targets),
            ..contents(*old(module))
        }),
        *final(module) == bodies_module(*old(module), table@, targets),
{
    let ghost c = contents(*module);
    let types = read_types(module);
    let functions = read_functions(module);
    let mut locals = read_locals(module);
    let mut code = read_code(module);
    assert(code@.len() == c.bodies.len() && locals@.len() == c.bodies.len()) by {
        assert(nested_views(code@).len() == code_of(c.bodies).len());
        assert(nested_views(locals@).len() == locals_of(c.bodies).len());
    }
    assert forall|k: int| 0 <= k < c.bodies.len() implies code@[k]@ == c.bodies[k].code
        && locals@[k]@ == c.bodies[k].locals by {
        assert(nested_views(code@)[k] == code_of(c.bodies)[k]);
        assert(nested_views(locals@)[k] == locals_of(c.bodies)[k]);
    }
    let mut i: usize = 0;
    while i < code.len()
        invariant
            i <= code.len(),
            code@.len() == c.bodies.len(),
            locals@.len() == c.bodies.len(),
            signature_views(types@) == c.types,
            functions@ == c.functions,
            forall|k: int|
                0 <= k < i ==> code@[k]@ == instrumented_bodies(c, table@, targets)[k].code
                    && locals@[k]@ == instrumented_bodies(c, table@, targets)[k].locals,
            forall|k: int|
                i <= k < code@.len() ==> code@[k]@ == c.bodies[k].code && locals@[k]@
                    == c.bodies[k].locals,
        decreases code.len() - i,
    {
        let ghost old_code = code@;
        let ghost old_locals = locals@;
        inject_metering(&mut code[i], table, targets);
        let params = function_params(&types, &functions, i);
        let used = inject_update_available_memory(&mut locals[i], &mut code[i], params);
        assert forall|k: int| 0 <= k < code@.len() && k != i implies code@[k] == old_code[k]
            && locals@[k] == old_locals[k] by {}
        i += 1;
    }
    let ghost bodies = instrumented_bodies(c, table@, targets);
    assert(nested_views(locals@) =~= locals_of(bodies));
    assert(nested_views(code@) =~= code_of(bodies));
    write_locals(module, &locals);
    write_code(module, code);
    assert(contents(*module).bodies =~= bodies);
}

/// The offset of a data segment that has a constant one: the operand where
/// the code that gives the offset is `i32.const` followed by `end`.
pub open spec fn offset_of(data: DataView) -> Option<i32> {
    match data.init {
        Some(code) => if code.len() == 2 && instruction_kind(code[1]) is End {
            match instruction_kind(code[0]) {
                OpKind::I32Const(value) => Some(value),
                _ => None,
            }
        } else {
            None
        },
        None => None,
    }
}

/// The segment that a data segment with a constant offset describes. The
/// offset is taken as an unsigned number.
pub open spec fn segment_of(data: DataView) -> SegmentView {
    ((offset_of(data).unwrap() as u32) as usize, data.bytes)
}

pub open spec fn segments_of(data: Seq<DataView>) -> Seq<SegmentView> {
    Seq::new(data.len(), |i: int| segment_of(data[i]))
}

/// Every data segment has a constant offset.
pub open spec fn all_supported(data: Seq<DataView>) -> bool {
    forall|i: int| 0 <= i < data.len() ==> offset_of(#[trigger] data[i]) is Some
}

/// The `k`-th data segment is the first without a constant offset.
pub open spec fn first_unsupported(data: Seq<DataView>, k: int) -> bool {
    &&& 0 <= k < data.len()
    &&& offset_of(data[k]) is None
    &&& forall|j: int| 0 <= j < k ==> offset_of(#[trigger] data[j]) is Some
}

/// The offset of a data segment, if it is a constant.
pub fn constant_offset(data: &DataSegment) -> (res: Option<i32>)
    ensures
        res == offset_of(data@),
{
    match &data.init {
        Some(code) => {
            if code.len() != 2 {
                return None;
            }
            match (kind_of(&code[0]), kind_of(&code[1])) {
                (OpKind::I32Const(value), OpKind::End) => Some(value),
                _ => None,
            }
        },
        None => None,
    }
}

fn copy_bytes(bytes: &Vec<u8>) -> (res: Vec<u8>)
    ensures
        res@ == bytes@,
{
    let mut out: Vec<u8> = Vec::new();
    let mut i: usize = 0;
    while i < bytes.len()
        invariant
            i <= bytes.len(),
            out@ == bytes@.take(i as int),
        decreases bytes.len() - i,
    {
        out.push(bytes[i]);
        assert(out@ =~= bytes@.take(i + 1));
        i += 1;
    }
    assert(bytes@.take(bytes.len() as int) =~= bytes@);
    out
}

/// Turns the entries of the data section into segments of memory. Fails on
/// the first entry whose offset is not a constant.
pub fn get_data(data: &Vec<DataSegment>) -> (res: Result<Segments, WasmInstrumentationError>)
    ensures
        res is Ok <==> all_supported(data_views(data@)),
        res matches Ok(segments) ==> segments@ == segments_of(data_views(data@)),
        res matches Err(e) ==> exists|k: int|
            first_unsupported(data_views(data@), k) && e@
                == (InstrumentationErrorView::UnsupportedDataSegment { segment: k as usize }),
{
    let mut out: Vec<(usize, Vec<u8>)> = Vec::new();
    let mut i: usize = 0;
    while i < data.len()
        invariant
            i <= data.len(),
            out@.len() == i,
            forall|k: int| 0 <= k < i ==> offset_of(#[trigger] data_views(data@)[k]) is Some,
            forall|k: int|
                0 <= k < i ==> out@[k].0 == segment_of(data_views(data@)[k]).0 && out@[k].1@
                    == data_views(data@)[k].bytes,
        decreases data.len() - i,
    {
        assert(data_views(data@)[i as int] == data@[i as int]@);
        match constant_offset(&data[i]) {
            Some(value) => {
                let offset = #[verifier::truncate] (value as u32);
                out.push((offset as usize, copy_bytes(&data[i].bytes)));
            },
            None => {
                assert(first_unsupported(data_views(data@), i as int));
                return Err(WasmInstrumentationError::UnsupportedDataSegment { segment: i });
            },
        }
        i += 1;
    }
    let segments = Segments::new(out);
    assert(segments@ =~= segments_of(data_views(data@)));
    Ok(segments)
}

/// Adds the counter to a module: the global, the functions that set and get
/// it, the function that charges a size known at run time, and their
/// exports. `start` is the function that was to run when the module starts;
/// it is exported for the host to run it.
fn add_counter(module: Module, targets: MeteringTargets, start: Option<u32>) -> (res: Module)
    ensures
        contents(res) == with_counter(contents(module), targets, start),
        res == counter_module(module, targets, start),
{
    let ghost c = contents(module);
    let counter = targets.counter_global;
    let set_counter_fn = #[verifier::truncate] (functions_space(&module) as u32);
    let get_counter_fn = set_counter_fn.wrapping_add(1);
    let mut builder = from_module(module);

    let set_type = Signature { params: vec![ValueKind::I64], results: Vec::new() };
    assert(set_type@ =~= counter_set_type()) by {
        assert(set_type@.params =~= seq![ValueKind::I64]);
        assert(set_type@.results =~= Seq::empty());
    }
    let set_type_index = push_signature(&mut builder, &set_type);
    let set_list = vec![Emitted::GetLocal(0), Emitted::SetGlobal(counter), Emitted::End];
    assert(set_list@ =~= counter_set_code(counter));
    push_function(&mut builder, set_type_index, emit_all(&set_list));
    push_export(
        &mut builder,
        Export {
            name: "canister counter_set".to_owned(),
            kind: ExportKind::Function,
            index: set_counter_fn,
        },
    );

    let get_type = Signature { params: Vec::new(), results: vec![ValueKind::I64] };
    assert(get_type@ =~= counter_get_type()) by {
        assert(get_type@.params =~= Seq::empty());
        assert(get_type@.results =~= seq![ValueKind::I64]);
    }
    let get_type_index = push_signature(&mut builder, &get_type);
    let get_list = vec![Emitted::GetGlobal(counter), Emitted::End];
    assert(get_list@ =~= counter_get_code(counter));
    push_function(&mut builder, get_type_index, emit_all(&get_list));
    push_export(
        &mut builder,
        Export {
            name: "canister counter_get".to_owned(),
            kind: ExportKind::Function,
            index: get_counter_fn,
        },
    );

    let decrement_signature = Signature {
        params: vec![ValueKind::I32],
        results: vec![ValueKind::I32],
    };
    assert(decrement_signature@ =~= decrement_type()) by {
        assert(decrement_signature@.params =~= seq![ValueKind::I32]);
        assert(decrement_signature@.results =~= seq![ValueKind::I32]);
    }
    let decrement_type_index = push_signature(&mut builder, &decrement_signature);
    let decrement_list = vec![
        Emitted::GetGlobal(counter),
        Emitted::GetLocal(0),
        Emitted::I64ExtendUI32,
        Emitted::I64LtS,
        Emitted::IfNoResult,
        Emitted::Call(targets.out_of_instructions_fn),
        Emitted::End,
        Emitted::GetGlobal(counter),
        Emitted::GetLocal(0),
        Emitted::I64ExtendUI32,
        Emitted::I64Sub,
        Emitted::SetGlobal(counter),
        Emitted::GetLocal(0),
        Emitted::End,
    ];
    assert(decrement_list@ =~= decrement_code(counter, targets.out_of_instructions_fn));
    push_function(&mut builder, decrement_type_index, emit_all(&decrement_list));

    push_export(
        &mut builder,
        Export {
            name: "canister counter_instructions".to_owned(),
            kind: ExportKind::Global,
            index: counter,
        },
    );
    match start {
        Some(index) => {
            push_export(
                &mut builder,
                Export { name: "canister_start".to_owned(), kind: ExportKind::Function, index },
            );
        },
        None => {},
    }
    let init_list = vec![Emitted::I64Const(0), Emitted::End];
    assert(init_list@ =~= counter_init_code());
    push_global(&mut builder, ValueKind::I64, true, emit_all(&init_list));
    assert(builder_contents(builder).exports =~= c.exports + counter_exports(
        first_new_function(c),
        counter,
        start,
    ));
    build(builder)
}


/// A WebAssembly module in its binary form.
#[derive(Debug)]
pub struct BinaryEncodedWasm(Vec<u8>);

impl View for BinaryEncodedWasm {
    type V = Seq<u8>;

    closed spec fn view(&self) -> Seq<u8> {
        self.0@
    }
}

impl BinaryEncodedWasm {
    pub fn new(bytes: Vec<u8>) -> (res: Self)
        ensures
            res@ == bytes@,
    {
        BinaryEncodedWasm(bytes)
    }

    pub fn as_slice(&self) -> (res: &[u8])
        ensures
            res@ == self@,
    {
        self.0.as_slice()
    }

    pub fn len(&self) -> (res: usize)
        ensures
            res == self@.len(),
    {
        self.0.len()
    }
}

/// An instrumented module, and what the host has to know of it.
pub struct InstrumentationOutput {
    /// The exported methods that the platform calls: queries, updates and
    /// system methods. Each occurs once. Other exports are private to the
    /// module.
    pub exported_functions: Vec<WasmMethod>,
    /// The limits of the memory: initial and maximal number of pages.
    pub limits: (u32, Option<u32>),
    /// The initial contents of the memory.
    pub data: Segments,
    /// The instrumented module.
    pub binary: BinaryEncodedWasm,
}

pub struct OutputView {
    pub exported_functions: Seq<WasmMethodView>,
    pub limits: (u32, Option<u32>),
    pub data: Seq<SegmentView>,
    pub binary: Seq<u8>,
}

impl View for InstrumentationOutput {
    type V = OutputView;

    open spec fn view(&self) -> OutputView {
        OutputView {
            exported_functions: method_views(self.exported_functions@),
            limits: self.limits,
            data: self.data@,
            binary: self.binary@,
        }
    }
}

pub open spec fn result_view(res: Result<InstrumentationOutput, WasmInstrumentationError>)
    -> Result<OutputView, InstrumentationErrorView> {
    match res {
        Ok(output) => Ok(output@),
        Err(error) => Err(error@),
    }
}

/// The limits of the memory of a module; a module without a memory has none
/// of any size.
pub open spec fn memory_limits(memories: Seq<Limits>) -> (u32, Option<u32>) {
    if memories.len() == 0 {
        (0, None)
    } else {
        (memories[0].initial, memories[0].maximum)
    }
}

/// Every data segment lies inside the initial memory.
pub open spec fn data_fits(c: Contents) -> bool {
    forall|i: int|
        0 <= i < c.data.len() ==> segment_fits(
            #[trigger] segments_of(c.data)[i],
            memory_limits(c.memories).0 as usize,
        )
}

/// The module passes the checks on its data and its memories.
pub open spec fn is_accepted(c: Contents) -> bool {
    all_supported(c.data) && c.memories.len() <= 1 && data_fits(c)
}

/// The error for a module that does not pass the checks: the first of a data
/// segment without a constant offset, more than one memory, and a data
/// segment that reaches beyond the initial memory.
pub open spec fn rejection(c: Contents, error: InstrumentationErrorView) -> bool {
    if !all_supported(c.data) {
        exists|k: int|
            first_unsupported(c.data, k) && error
                == (InstrumentationErrorView::UnsupportedDataSegment { segment: k as usize })
    } else if c.memories.len() > 1 {
        error == (InstrumentationErrorView::IncorrectNumberMemorySections {
            expected: 1,
            got: c.memories.len() as usize,
        })
    } else if !data_fits(c) {
        exists|k: int|
            first_misfit(segments_of(c.data), memory_limits(c.memories).0 as usize, k) && error
                == (InstrumentationErrorView::InvalidDataSegment {
                offset: segments_of(c.data)[k].0,
                len: segments_of(c.data)[k].1.len() as usize,
            })
    } else {
        false
    }
}

/// The methods that the instrumented module exports.
pub open spec fn instrumented_methods(c: Contents, table: CostTableView) -> Seq<WasmMethodView> {
    exported_methods(
        instrumented(c, table).exports,
        instrumented(c, table).exports.len() as int,
    )
}

/// What is returned for a module with the contents `c`, given the outcome
/// `written` of writing the instrumented module.
pub open spec fn outcome(
    c: Contents,
    table: CostTableView,
    written: Result<Seq<u8>, Seq<char>>,
    res: Result<OutputView, InstrumentationErrorView>,
) -> bool {
    if !is_accepted(c) {
        res is Err && rejection(c, res->Err_0)
    } else {
        match written {
            Err(text) => res == Err::<OutputView, InstrumentationErrorView>(
                InstrumentationErrorView::ParitySerializeError(text),
            ),
            Ok(bytes) => res == Ok::<OutputView, InstrumentationErrorView>(
                OutputView {
                    exported_functions: instrumented_methods(c, table),
                    limits: memory_limits(c.memories),
                    data: segments_of(c.data),
                    binary: bytes,
                },
            ),
        }
    }
}

pub open spec fn written_view(written: Result<Seq<u8>, parity_wasm::elements::Error>) -> Result<
    Seq<u8>,
    Seq<char>,
> {
    match written {
        Ok(bytes) => Ok(bytes),
        Err(error) => Err(error_text(error)),
    }
}

/// What is said of a module that is too long to be written.
pub open spec fn too_long_text() -> Seq<char> {
    "The module is too large to be written"@
}

/// The outcome of writing the instrumented form of a module that was read
/// from `len` bytes: it is not written if it was read from more than
/// `MAX_WASM_LEN` bytes.
pub open spec fn written_of(len: nat, module: Module) -> Result<Seq<u8>, Seq<char>> {
    if len > MAX_WASM_LEN {
        Err(too_long_text())
    } else {
        written_view(serialized(module))
    }
}

/// What `instrument` returns for the bytes `wasm`: an error if they are no
/// module; otherwise what follows from the module that they describe, where
/// the binary is the binary form of the instrumented module.
pub open spec fn instrumentation_of(
    wasm: Seq<u8>,
    table: CostTableView,
    res: Result<OutputView, InstrumentationErrorView>,
) -> bool {
    match parsed(wasm) {
        Err(error) => res == Err::<OutputView, InstrumentationErrorView>(
            InstrumentationErrorView::ParityDeserializeError(error_text(error)),
        ),
        Ok(module) => outcome(
            contents(module),
            table,
            written_of(wasm.len(), instrumented_module(module, table)),
            res,
        ),
    }
}

/// An instrumented module that has not been written yet, and what the host
/// has to know of it.
pub struct InstrumentedModule {
    /// The instrumented module.
    pub module: Module,
    /// The exported methods that the platform calls, each once.
    pub exported_functions: Vec<WasmMethod>,
    /// The limits of the memory: initial and maximal number of pages.
    pub limits: (u32, Option<u32>),
    /// The initial contents of the memory.
    pub data: Segments,
}

/// What `instrument_module` returns for a module: an error if the module
/// does not pass the checks; otherwise the instrumented module, which has
/// the instrumented contents, with its methods, limits and data.
pub open spec fn module_instrumentation_of(
    module: Module,
    table: CostTableView,
    res: Result<InstrumentedModule, WasmInstrumentationError>,
) -> bool {
    let c = contents(module);
    match res {
        Err(error) => !is_accepted(c) && rejection(c, error@),
        Ok(output) => {
            &&& is_accepted(c)
            &&& output.module == instrumented_module(module, table)
            &&& contents(output.module) == instrumented(c, table)
            &&& method_views(output.exported_functions@) == instrumented_methods(c, table)
            &&& output.limits == memory_limits(c.memories)
            &&& output.data@ == segments_of(c.data)
        },
    }
}

/// Instruments a module: imports the host functions, exports table, memory
/// and mutable globals, adds the metering code and the bookkeeping of memory
/// growth to every body, takes the data out, and adds the counter.
///
/// Fails if a data segment has no constant offset or reaches beyond the
/// initial memory, or if the module declares more than one memory.
pub fn instrument_module(module: Module, table: &InstructionCostTable) -> (res: Result<
    InstrumentedModule,
    WasmInstrumentationError,
>)
    ensures
        module_instrumentation_of(module, table@, res),
{
    let ghost c = contents(module);
    let ghost given = module;
    let mut module = inject_helper_functions(module);
    module = export_table(module);
    module = export_memory(module);
    module = export_mutable_globals(module);
    let ghost exported = contents(module);
    assert(module == exported_module(given));
    let set_counter_fn = #[verifier::truncate] (functions_space(&module) as u32);
    let targets = MeteringTargets {
        counter_global: #[verifier::truncate] (globals_space(&module) as u32),
        out_of_instructions_fn: 0,
        decrement_fn: set_counter_fn.wrapping_add(2),
    };
    assert(targets == metering_targets(exported));
    let start = start_section(&module);
    if start.is_some() {
        clear_start_section(&mut module);
    }
    let ghost cleared = contents(module);
    instrument_bodies(&mut module, table, targets);
    assert(contents(module).bodies =~= instrumented_bodies(exported, table@, targets)) by {
        assert forall|i: int| 0 <= i < exported.bodies.len() implies instrumented_bodies(
            cleared,
            table@,
            targets,
        )[i] == instrumented_bodies(exported, table@, targets)[i] by {}
    }
    let data = read_data(&module);
    remove_data_sections(&mut module);
    assert(data_views(data@) == c.data);
    assert(contents(module) == prepared(c, table@));
    let module = add_counter(module, targets, start);
    assert(contents(module) == instrumented(c, table@));
    assert(module == instrumented_module(given, table@));

    let segments = match get_data(&data) {
        Ok(segments) => segments,
        Err(error) => {
            return Err(error);
        },
    };
    let exports = read_exports(&module);
    let exported_functions = collect_methods(&exports);
    let memories = read_memories(&module);
    assert(memories@ == c.memories);
    let limits = if memories.len() == 0 {
        (0, None)
    } else if memories.len() == 1 {
        (memories[0].initial, memories[0].maximum)
    } else {
        return Err(
            WasmInstrumentationError::IncorrectNumberMemorySections {
                expected: 1,
                got: memories.len(),
            },
        );
    };
    assert(limits == memory_limits(c.memories));
    match segments.validate(NumWasmPages::new(limits.0 as usize)) {
        Ok(()) => {},
        Err(error) => {
            assert(!data_fits(c));
            return Err(error);
        },
    }
    assert(data_fits(c));
    Ok(InstrumentedModule { module, exported_functions, limits, data: segments })
}

/// Takes a module in its binary form and adds the metering of instructions
/// and the bookkeeping of memory growth to it.
///
/// Returns the instrumented module with the methods that it exports, the
/// limits of its memory and the initial contents of its memory, which are
/// taken out of the module. Fails if the bytes are no module, if a data
/// segment has no constant offset or reaches beyond the initial memory, if
/// the module declares more than one memory, or if the instrumented module
/// cannot be written, as it cannot where the module is longer than
/// `MAX_WASM_LEN`.
pub fn instrument(wasm: &BinaryEncodedWasm, instruction_cost_table: &InstructionCostTable) -> (res:
    Result<InstrumentationOutput, WasmInstrumentationError>)
    ensures
        instrumentation_of(wasm@, instruction_cost_table@, result_view(res)),
{
    let module = match parse(&wasm.0) {
        Ok(module) => module,
        Err(error) => {
            return Err(
                WasmInstrumentationError::ParityDeserializeError(
                    ParityWasmError(describe(&error)),
                ),
            );
        },
    };
    let ghost given = module;
    let instrumented = match instrument_module(module, instruction_cost_table) {
        Ok(instrumented) => instrumented,
        Err(error) => {
            return Err(error);
        },
    };
    if wasm.0.len() > MAX_WASM_LEN {
        return Err(
            WasmInstrumentationError::ParitySerializeError(
                ParityWasmError("The module is too large to be written".to_owned()),
            ),
        );
    }
    let InstrumentedModule { module, exported_functions, limits, data } = instrumented;
    assert(is_writable(module)) by {
        assert(parsed(wasm@) is Ok && module == instrumented_module(
            parsed(wasm@)->Ok_0,
            instruction_cost_table@,
        ));
    }
    match serialize(module) {
        Ok(bytes) => Ok(
            InstrumentationOutput {
                exported_functions,
                limits,
                data,
                binary: BinaryEncodedWasm::new(bytes),
            },
        ),
        Err(error) => Err(
            WasmInstrumentationError::ParitySerializeError(ParityWasmError(describe(&error))),
        ),
    }
}

/// A function index behind the injected imports is two higher than before,
/// unless it is one of the two highest 32-bit numbers.
pub proof fn lemma_shifted_is_two_higher(index: u32)
    requires
        index <= u32::MAX - 2,
    ensures
        shifted(index) == index + 2,
{
}

proof fn lemma_helper_imports_counted(c: Contents)
    ensures
        function_imports(helper_imports(c.types) + c.imports) == function_imports(c.imports) + 2,
        global_imports(helper_imports(c.types) + c.imports) == global_imports(c.imports),
{
    let helpers = helper_imports(c.types);
    let functions = |import: ImportView| import.kind is Function;
    let globals = |import: ImportView| import.kind is Global;
    Seq::filter_distributes_over_add(helpers, c.imports, functions);
    Seq::filter_distributes_over_add(helpers, c.imports, globals);
    reveal_with_fuel(Seq::filter, 3);
    assert(helpers.drop_last() =~= seq![helpers[0]]);
    assert(helpers.drop_last().drop_last() =~= Seq::<ImportView>::empty());
    assert(helpers.filter(functions) =~= helpers);
    assert(helpers.filter(globals) =~= Seq::<ImportView>::empty());
}

/// The exports of a module once the host functions are imported and the
/// table, the memory and the mutable globals are exported.
pub open spec fn exports_before_counter(c: Contents) -> Seq<ExportView> {
    with_global_exports(with_memory_export(with_table_export(with_helper_functions(c)))).exports
}

/// What an instrumented module contains, next to what the module contained
/// before.
///
/// Its imports are the two host functions followed by the old imports. Its
/// globals are the old ones followed by the counter, a mutable `i64` that
/// starts at 0. It has three more functions: the ones that set and get the
/// counter and the one that charges a size known at run time, each with its
/// code and with the index of its type, which is added to the types unless
/// it is there. It has no start section and no data; its tables and
/// memories are the old ones, and so are the type indices of the old
/// functions. The
/// function indices in its element segments are shifted. Its exports begin
/// with the old ones, each of the same kind, and with a shifted index if it
/// exports a function; they end with the exports of the counter, which refer
/// to the first new global and the first two new functions, and with the
/// export of the old start function under its shifted index. Every body is
/// the instrumented form of the old body with shifted calls.
pub proof fn lemma_instrumented_surface(c: Contents, table: CostTableView)
    ensures
        ({
            let m = instrumented(c, table);
            let counter = global_space(c) as usize as u32;
            let first = (function_space(c) + 2) as usize as u32;
            let targets = MeteringTargets {
                counter_global: counter,
                out_of_instructions_fn: 0,
                decrement_fn: function_behind(first, 2),
            };
            &&& m.imports == helper_imports(c.types) + c.imports
            &&& m.imports.len() == c.imports.len() + 2
            &&& m.globals == c.globals.push(
                GlobalView {
                    kind: ValueKind::I64,
                    mutable: true,
                    init: emitted_all(counter_init_code()),
                },
            )
            &&& m.functions.len() == c.functions.len() + 3
            &&& m.functions.subrange(0, c.functions.len() as int) == c.functions
            &&& m.bodies.len() == c.bodies.len() + 3
            &&& m.types == with_type(
                with_type(
                    with_type(with_helper_functions(c).types, counter_set_type()),
                    counter_get_type(),
                ),
                decrement_type(),
            )
            &&& m.functions[c.functions.len() as int] == type_index(
                with_helper_functions(c).types,
                counter_set_type(),
            ) as u32
            &&& m.functions[c.functions.len() as int + 1] == type_index(
                with_type(with_helper_functions(c).types, counter_set_type()),
                counter_get_type(),
            ) as u32
            &&& m.functions[c.functions.len() as int + 2] == type_index(
                with_type(
                    with_type(with_helper_functions(c).types, counter_set_type()),
                    counter_get_type(),
                ),
                decrement_type(),
            ) as u32
            &&& m.bodies[c.bodies.len() as int] == (BodyView {
                locals: Seq::empty(),
                code: emitted_all(counter_set_code(counter)),
            })
            &&& m.bodies[c.bodies.len() as int + 1] == (BodyView {
                locals: Seq::empty(),
                code: emitted_all(counter_get_code(counter)),
            })
            &&& m.bodies[c.bodies.len() as int + 2] == (BodyView {
                locals: Seq::empty(),
                code: emitted_all(decrement_code(counter, 0)),
            })
            &&& m.start is None
            &&& m.data.len() == 0
            &&& m.tables == c.tables
            &&& m.memories == c.memories
            &&& m.elements == shifted_elements(c.elements)
            &&& m.exports == exports_before_counter(c) + counter_exports(
                first,
                counter,
                shifted_start(c.start),
            )
            &&& exports_before_counter(c).len() >= c.exports.len()
            &&& forall|i: int|
                0 <= i < c.exports.len() ==> (#[trigger] m.exports[i]).kind == c.exports[i].kind
                    && m.exports[i].index == shifted_export(c.exports[i]).index
            &&& forall|i: int|
                0 <= i < c.bodies.len() ==> #[trigger] m.bodies[i] == instrumented_body(
                    BodyView {
                        locals: c.bodies[i].locals,
                        code: shifted_code(c.bodies[i].code),
                    },
                    params_of(with_helper_functions(c).types, c.functions, i),
                    table,
                    targets,
                )
        }),
{
    let helped = with_helper_functions(c);
    let tabled = with_table_export(helped);
    let memoried = with_memory_export(tabled);
    let exported = with_global_exports(memoried);
    let m = instrumented(c, table);
    lemma_helper_imports_counted(c);
    assert(m.functions.subrange(0, c.functions.len() as int) =~= c.functions);
    assert forall|i: int| 0 <= i < c.exports.len() implies (#[trigger] m.exports[i]).kind
        == c.exports[i].kind && m.exports[i].index == shifted_export(c.exports[i]).index by {
        assert(helped.exports[i] == shifted_export(c.exports[i]));
        assert(tabled.exports[i].kind == helped.exports[i].kind && tabled.exports[i].index
            == helped.exports[i].index);
        assert(memoried.exports[i].kind == tabled.exports[i].kind && memoried.exports[i].index
            == tabled.exports[i].index);
        assert(exported.exports[i] == memoried.exports[i]);
        assert(m.exports[i] == exported.exports[i]);
    }
}


/// What is returned for given bytes and a given cost table is determined by
/// them: two outcomes for the same input are the same, byte for byte.
pub proof fn lemma_instrumentation_is_deterministic(
    wasm: Seq<u8>,
    table: CostTableView,
    first: Result<OutputView, InstrumentationErrorView>,
    second: Result<OutputView, InstrumentationErrorView>,
)
    requires
        instrumentation_of(wasm, table, first),
        instrumentation_of(wasm, table, second),
    ensures
        first == second,
{
    match parsed(wasm) {
        Err(_) => {},
        Ok(module) => {
            let c = contents(module);
            if !is_accepted(c) {
                lemma_rejection_is_determined(c, first->Err_0, second->Err_0);
            }
        },
    }
}

/// A module that does not pass the checks is rejected with one error.
pub proof fn lemma_rejection_is_determined(
    c: Contents,
    first: InstrumentationErrorView,
    second: InstrumentationErrorView,
)
    requires
        rejection(c, first),
        rejection(c, second),
    ensures
        first == second,
{
    if !all_supported(c.data) {
        let k1 = choose|k: int|
            first_unsupported(c.data, k) && first
                == (InstrumentationErrorView::UnsupportedDataSegment { segment: k as usize });
        let k2 = choose|k: int|
            first_unsupported(c.data, k) && second
                == (InstrumentationErrorView::UnsupportedDataSegment { segment: k as usize });
        if k1 < k2 {
            assert(offset_of(c.data[k1]) is Some);
        } else if k2 < k1 {
            assert(offset_of(c.data[k2]) is Some);
        }
    } else if c.memories.len() > 1 {
    } else if !data_fits(c) {
        let segments = segments_of(c.data);
        let pages = memory_limits(c.memories).0 as usize;
        let k1 = choose|k: int|
            first_misfit(segments, pages, k) && first
                == (InstrumentationErrorView::InvalidDataSegment {
                offset: segments[k].0,
                len: segments[k].1.len() as usize,
            });
        let k2 = choose|k: int|
            first_misfit(segments, pages, k) && second
                == (InstrumentationErrorView::InvalidDataSegment {
                offset: segments[k].0,
                len: segments[k].1.len() as usize,
            });
        if k1 < k2 {
            assert(segment_fits(segments[k1], pages));
        } else if k2 < k1 {
            assert(segment_fits(segments[k2], pages));
        }
    }
}

} // verus!
