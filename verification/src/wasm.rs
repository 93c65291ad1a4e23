//! The WebAssembly module as `parity_wasm` holds it.
//!
//! Modules and instructions are values of that crate and are opaque here.
//! The functions of this file whose bodies call into `parity_wasm` are
//! believed, not proved: each states, in terms of what a module contains,
//! what the call it makes does according to the source of that crate. Each
//! function that builds or changes a module also names the module or the
//! builder that results, so that what is built is a function of what it is
//! built from.

use crate::metering::OpKind;
use crate::model::{
    code_of, data_views, export_views, function_imports, global_imports, locals_of, mutability,
    nested_views, signature_views, type_index, with_code, with_locals, with_type, BodyView,
    Contents, DataSegment, Export, ExportKind, ExportView, GlobalView, ImportKind, ImportView,
    Limits, LocalGroup, Signature, SignatureView, ValueKind,
};
use crate::plan::Emitted;
use parity_wasm::builder::{Identity, ModuleBuilder, TypeRefBuilder};
use parity_wasm::elements::{
    BulkInstruction, Error, ExportEntry, External, GlobalEntry, GlobalType, InitExpr,
    Instruction, Instructions, Internal, Local, Module, Section, Type, ValueType,
};
use vstd::prelude::*;

verus! {

#[verifier::external_type_specification]
#[verifier::external_body]
pub struct ExModule(Module);

#[verifier::external_type_specification]
#[verifier::external_body]
pub struct ExInstruction(Instruction);

#[verifier::external_type_specification]
#[verifier::external_body]
pub struct ExError(Error);

#[verifier::external_type_specification]
#[verifier::external_body]
pub struct ExIdentity(Identity);

#[verifier::external_type_specification]
#[verifier::external_body]
#[verifier::reject_recursive_types(F)]
pub struct ExModuleBuilder<F>(ModuleBuilder<F>);

/// The kind of an instruction: which variant of `Instruction` it is, as far
/// as the instrumentation tells them apart.
pub uninterp spec fn instruction_kind(instruction: Instruction) -> OpKind;

/// The text that `Display` gives for an instruction.
pub uninterp spec fn instruction_text(instruction: Instruction) -> Seq<char>;

/// The `parity_wasm` instruction that stands for an emitted one.
pub uninterp spec fn emitted_instruction(emitted: Emitted) -> Instruction;

/// `kind` where it is none of the bulk instructions, which another function
/// tells apart.
pub open spec fn without_bulk(kind: OpKind) -> OpKind {
    if kind.is_dynamic() {
        OpKind::Other
    } else {
        kind
    }
}

/// `kind` where it is one of the bulk instructions.
pub open spec fn only_bulk(kind: OpKind) -> OpKind {
    if kind.is_dynamic() {
        kind
    } else {
        OpKind::Other
    }
}

/// Matches on the variants of `Instruction` that are not under `Bulk`: the
/// result names the variant, with the index of a `Call` and the operand of
/// an `I32Const`; every other variant is `Other`.
#[verifier::external_body]
fn plain_kind(instruction: &Instruction) -> (res: OpKind)
    ensures
        res == without_bulk(instruction_kind(*instruction)),
{
    match instruction {
        Instruction::Block(_) => OpKind::Block,
        Instruction::Loop(_) => OpKind::Loop,
        Instruction::If(_) => OpKind::If,
        Instruction::Else => OpKind::Else,
        Instruction::End => OpKind::End,
        Instruction::Br(_) => OpKind::Br,
        Instruction::BrIf(_) => OpKind::BrIf,
        Instruction::BrTable(_) => OpKind::BrTable,
        Instruction::GrowMemory(_) => OpKind::MemoryGrow,
        Instruction::Call(index) => OpKind::Call(*index),
        Instruction::I32Const(value) => OpKind::I32Const(*value),
        _ => OpKind::Other,
    }
}

/// Matches on the variants of `BulkInstruction` under `Instruction::Bulk`
/// whose cost depends on a size operand; every other instruction is `Other`.
#[verifier::external_body]
fn bulk_kind(instruction: &Instruction) -> (res: OpKind)
    ensures
        res == only_bulk(instruction_kind(*instruction)),
{
    match instruction {
        Instruction::Bulk(BulkInstruction::MemoryFill) => OpKind::MemoryFill,
        Instruction::Bulk(BulkInstruction::MemoryCopy) => OpKind::MemoryCopy,
        Instruction::Bulk(BulkInstruction::MemoryInit(_)) => OpKind::MemoryInit,
        Instruction::Bulk(BulkInstruction::TableCopy) => OpKind::TableCopy,
        Instruction::Bulk(BulkInstruction::TableInit(_)) => OpKind::TableInit,
        _ => OpKind::Other,
    }
}

/// The kind of an instruction.
pub fn kind_of(instruction: &Instruction) -> (res: OpKind)
    ensures
        res == instruction_kind(*instruction),
{
    let kind = plain_kind(instruction);
    match kind {
        OpKind::Other => bulk_kind(instruction),
        _ => kind,
    }
}

/// Formats an instruction with its `Display` impl: the mnemonic, followed by
/// the operands that `parity_wasm` prints.
#[verifier::external_body]
pub(crate) fn text_of(instruction: &Instruction) -> (res: String)
    ensures
        res@ == instruction_text(*instruction),
{
    instruction.to_string()
}

/// The kind of an emitted instruction.
pub open spec fn emitted_kind(emitted: Emitted) -> OpKind {
    match emitted {
        Emitted::Call(index) => OpKind::Call(index),
        Emitted::IfNoResult => OpKind::If,
        Emitted::End => OpKind::End,
        _ => OpKind::Other,
    }
}

/// Builds the variant of `Instruction` of the same name, with the same
/// operand; `IfNoResult` is `If` with `BlockType::NoResult`. The kind of the
/// variant is the one that `plain_kind` and `bulk_kind` find for it.
#[verifier::external_body]
pub(crate) fn emit(emitted: Emitted) -> (res: Instruction)
    ensures
        res == emitted_instruction(emitted),
        instruction_kind(res) == emitted_kind(emitted),
{
    match emitted {
        Emitted::GetGlobal(index) => Instruction::GetGlobal(index),
        Emitted::SetGlobal(index) => Instruction::SetGlobal(index),
        Emitted::GetLocal(index) => Instruction::GetLocal(index),
        Emitted::TeeLocal(index) => Instruction::TeeLocal(index),
        Emitted::I64Const(value) => Instruction::I64Const(value),
        Emitted::I64Sub => Instruction::I64Sub,
        Emitted::I64LtS => Instruction::I64LtS,
        Emitted::I64ExtendUI32 => Instruction::I64ExtendUI32,
        Emitted::IfNoResult => Instruction::If(parity_wasm::elements::BlockType::NoResult),
        Emitted::Call(index) => Instruction::Call(index),
        Emitted::End => Instruction::End,
    }
}

/// Clones an instruction. `Clone` is derived for `Instruction`, whose
/// variants hold integers and, in `BrTable`, a boxed list of integers: the
/// clone equals the instruction.
#[verifier::external_body]
pub(crate) fn clone_instruction(instruction: &Instruction) -> (res: Instruction)
    ensures
        res == *instruction,
{
    instruction.clone()
}


/// What `deserialize_buffer` makes of the bytes.
pub uninterp spec fn parsed(bytes: Seq<u8>) -> Result<Module, Error>;

/// What `serialize` makes of a module.
pub uninterp spec fn serialized(module: Module) -> Result<Seq<u8>, Error>;

/// The text that `Display` gives for an error.
pub uninterp spec fn error_text(error: Error) -> Seq<char>;

/// What a module contains. Each part is read from the first section of its
/// kind.
pub uninterp spec fn contents(module: Module) -> Contents;

/// What the module contains that a builder is building.
pub uninterp spec fn builder_contents(builder: ModuleBuilder<Identity>) -> Contents;

/// The builder that `builder::from_module` makes of a module.
pub uninterp spec fn builder_of(module: Module) -> ModuleBuilder<Identity>;

/// The module that `ModuleBuilder::build` makes of a builder.
pub uninterp spec fn module_of(builder: ModuleBuilder<Identity>) -> Module;

/// The builder after `ModuleBuilder::push_signature` with a signature.
pub uninterp spec fn builder_with_signature(
    builder: ModuleBuilder<Identity>,
    signature: SignatureView,
) -> ModuleBuilder<Identity>;

/// The builder after `ModuleBuilder::push_import` with the import of a
/// function.
pub uninterp spec fn builder_with_function_import(
    builder: ModuleBuilder<Identity>,
    module: Seq<char>,
    field: Seq<char>,
    type_index: u32,
) -> ModuleBuilder<Identity>;

/// The builder after `ModuleBuilder::push_function` with a function without
/// locals.
pub uninterp spec fn builder_with_function(
    builder: ModuleBuilder<Identity>,
    type_index: u32,
    code: Seq<Instruction>,
) -> ModuleBuilder<Identity>;

/// The builder after `ModuleBuilder::push_export` with an export.
pub uninterp spec fn builder_with_export(
    builder: ModuleBuilder<Identity>,
    export: ExportView,
) -> ModuleBuilder<Identity>;

/// The builder after `ModuleBuilder::push_global` with a global.
pub uninterp spec fn builder_with_global(
    builder: ModuleBuilder<Identity>,
    kind: ValueKind,
    mutable: bool,
    init: Seq<Instruction>,
) -> ModuleBuilder<Identity>;

/// The module after `Module::set_start_section`.
pub uninterp spec fn module_with_start(module: Module, start: u32) -> Module;

/// The module with every start section taken out of its sections.
pub uninterp spec fn module_without_start(module: Module) -> Module;

/// The module with every data section taken out of its sections.
pub uninterp spec fn module_without_data(module: Module) -> Module;

/// The module with the last entry of its import section moved to the front.
pub uninterp spec fn module_with_last_import_first(module: Module) -> Module;

/// The module with other code in the entries of its code section.
pub uninterp spec fn module_with_code(module: Module, code: Seq<Seq<Instruction>>) -> Module;

/// The module with other locals in the entries of its code section.
pub uninterp spec fn module_with_locals(module: Module, locals: Seq<Seq<LocalGroup>>) -> Module;

/// The module with other entries in its export section.
pub uninterp spec fn module_with_exports(module: Module, exports: Seq<ExportView>) -> Module;

/// The module with other function indices in the entries of its element
/// section.
pub uninterp spec fn module_with_elements(module: Module, elements: Seq<Seq<u32>>) -> Module;

/// Reads a module from its binary form with `deserialize_buffer`.
#[verifier::external_body]
pub(crate) fn parse(bytes: &Vec<u8>) -> (res: Result<Module, Error>)
    ensures
        res == parsed(bytes@),
{
    parity_wasm::deserialize_buffer::<Module>(bytes.as_slice())
}

/// Writes a module in its binary form with `serialize`.
///
/// `serialize` turns the length of every list, section and function body
/// into a 32-bit number and does not return where one does not fit. The
/// modules that are admitted are the instrumented forms of modules that
/// were read from at most `MAX_WASM_LEN` bytes. A module that was read from
/// `n` bytes holds no list of more than `n` entries and no section of more
/// than `n` bytes. Instrumenting it puts at most ten instructions, of at most
/// 38 bytes together, behind an instruction and in front of a body, adds a
/// group of locals to a body, a byte to a call, a name of six bytes to an
/// export and an export of at most 64 bytes for a global: no length grows
/// beyond `64 * n + 1024`, which fits for the lengths admitted.
#[verifier::external_body]
pub(crate) fn serialize(module: Module) -> (res: Result<Vec<u8>, Error>)
    requires
        crate::instrumentation::is_writable(module),
    ensures
        match (res, serialized(module)) {
            (Ok(bytes), Ok(expected)) => bytes@ == expected,
            (Err(error), Err(expected)) => error == expected,
            _ => false,
        },
{
    parity_wasm::serialize(module)
}

/// Formats an error of `parity_wasm` with its `Display` impl.
#[verifier::external_body]
pub(crate) fn describe(error: &Error) -> (res: String)
    ensures
        res@ == error_text(*error),
{
    error.to_string()
}

/// `Module::functions_space`: the number of imported functions plus the
/// number of entries of the function section.
#[verifier::external_body]
pub(crate) fn functions_space(module: &Module) -> (res: usize)
    ensures
        res == function_imports(contents(*module).imports) + contents(*module).functions.len(),
{
    module.functions_space()
}

/// `Module::globals_space`: the number of imported globals plus the number
/// of entries of the global section.
#[verifier::external_body]
pub(crate) fn globals_space(module: &Module) -> (res: usize)
    ensures
        res == global_imports(contents(*module).imports) + contents(*module).globals.len(),
{
    module.globals_space()
}

/// `Module::start_section`.
#[verifier::external_body]
pub(crate) fn start_section(module: &Module) -> (res: Option<u32>)
    ensures
        res == contents(*module).start,
{
    module.start_section()
}

/// `Module::set_start_section`, which replaces the start section or inserts
/// one and leaves the other sections as they are.
#[verifier::external_body]
pub(crate) fn set_start_section(module: &mut Module, start: u32)
    ensures
        contents(*final(module)) == (Contents { start: Some(start), ..contents(*old(module)) }),
        *final(module) == module_with_start(*old(module), start),
{
    module.set_start_section(start);
}

/// Removes every start section from `Module::sections_mut`, and leaves the
/// other sections as they are.
#[verifier::external_body]
pub(crate) fn clear_start_section(module: &mut Module)
    ensures
        contents(*final(module)) == (Contents { start: None, ..contents(*old(module)) }),
        *final(module) == module_without_start(*old(module)),
{
    module.sections_mut().retain(|section| !matches!(section, Section::Start(_)));
}

/// The number of entries of the table section, read with
/// `Module::table_section` and `TableSection::entries`.
#[verifier::external_body]
pub(crate) fn table_count(module: &Module) -> (res: usize)
    ensures
        res == contents(*module).tables,
{
    module.table_section().map(|section| section.entries().len()).unwrap_or(0)
}

/// The limits of every entry of the memory section, read with
/// `MemoryType::limits`, `ResizableLimits::initial` and
/// `ResizableLimits::maximum`.
#[verifier::external_body]
pub(crate) fn read_memories(module: &Module) -> (res: Vec<Limits>)
    ensures
        res@ == contents(*module).memories,
{
    match module.memory_section() {
        Some(section) => section.entries().iter().map(
            |memory| Limits {
                initial: memory.limits().initial(),
                maximum: memory.limits().maximum(),
            },
        ).collect(),
        None => Vec::new(),
    }
}

/// Whether each entry of the global section is mutable, read with
/// `GlobalEntry::global_type` and `GlobalType::is_mutable`.
#[verifier::external_body]
pub(crate) fn read_globals(module: &Module) -> (res: Vec<bool>)
    ensures
        res@ == mutability(contents(*module).globals),
{
    match module.global_section() {
        Some(section) => section.entries().iter().map(
            |global| global.global_type().is_mutable(),
        ).collect(),
        None => Vec::new(),
    }
}

/// The type index of every entry of the function section, read with
/// `Func::type_ref`.
#[verifier::external_body]
pub(crate) fn read_functions(module: &Module) -> (res: Vec<u32>)
    ensures
        res@ == contents(*module).functions,
{
    match module.function_section() {
        Some(section) => section.entries().iter().map(|function| function.type_ref()).collect(),
        None => Vec::new(),
    }
}


/// The function types of the type section, read with `TypeSection::types`,
/// `FunctionType::params` and `FunctionType::results`; each `ValueType` is
/// matched to the kind of value of the same name.
#[verifier::external_body]
pub(crate) fn read_types(module: &Module) -> (res: Vec<Signature>)
    ensures
        signature_views(res@) == contents(*module).types,
{
    let kind = |value_type: &ValueType| match value_type {
        ValueType::I32 => ValueKind::I32,
        ValueType::I64 => ValueKind::I64,
        ValueType::F32 => ValueKind::F32,
        ValueType::F64 => ValueKind::F64,
    };
    let types = module.type_section().map(|section| section.types()).unwrap_or(&[]);
    types.iter().map(|Type::Function(function)| Signature {
        params: function.params().iter().map(kind).collect(),
        results: function.results().iter().map(kind).collect(),
    }).collect()
}

/// The code of every entry of the code section, read with `FuncBody::code`
/// and `Instructions::elements`.
#[verifier::external_body]
pub(crate) fn read_code(module: &Module) -> (res: Vec<Vec<Instruction>>)
    ensures
        nested_views(res@) == code_of(contents(*module).bodies),
{
    match module.code_section() {
        Some(section) => section.bodies().iter().map(
            |body| body.code().elements().to_vec(),
        ).collect(),
        None => Vec::new(),
    }
}

/// Replaces the code of every entry of the code section through
/// `Instructions::elements_mut`, one list for each entry.
#[verifier::external_body]
pub(crate) fn write_code(module: &mut Module, code: Vec<Vec<Instruction>>)
    requires
        code@.len() == contents(*old(module)).bodies.len(),
    ensures
        contents(*final(module)) == (Contents {
            bodies: with_code(contents(*old(module)).bodies, nested_views(code@)),
            ..contents(*old(module))
        }),
        *final(module) == module_with_code(*old(module), nested_views(code@)),
{
    if let Some(section) = module.code_section_mut() {
        for (body, elements) in section.bodies_mut().iter_mut().zip(code) {
            *body.code_mut().elements_mut() = elements;
        }
    }
}

/// The groups of locals of every entry of the code section, read with
/// `FuncBody::locals`, `Local::count` and `Local::value_type`; each
/// `ValueType` is matched to the kind of value of the same name.
#[verifier::external_body]
pub(crate) fn read_locals(module: &Module) -> (res: Vec<Vec<LocalGroup>>)
    ensures
        nested_views(res@) == locals_of(contents(*module).bodies),
{
    let group = |local: &Local| LocalGroup {
        count: local.count(),
        kind: match local.value_type() {
            ValueType::I32 => ValueKind::I32,
            ValueType::I64 => ValueKind::I64,
            ValueType::F32 => ValueKind::F32,
            ValueType::F64 => ValueKind::F64,
        },
    };
    let bodies = module.code_section().map(|section| section.bodies()).unwrap_or(&[]);
    bodies.iter().map(|body| body.locals().iter().map(group).collect()).collect()
}

/// Replaces the locals of every entry of the code section through
/// `FuncBody::locals_mut`, one list of groups for each entry; a group is made
/// with `Local::new` from its size and the `ValueType` of the same name as
/// its kind.
#[verifier::external_body]
pub(crate) fn write_locals(module: &mut Module, locals: &Vec<Vec<LocalGroup>>)
    requires
        locals@.len() == contents(*old(module)).bodies.len(),
    ensures
        contents(*final(module)) == (Contents {
            bodies: with_locals(contents(*old(module)).bodies, nested_views(locals@)),
            ..contents(*old(module))
        }),
        *final(module) == module_with_locals(*old(module), nested_views(locals@)),
{
    let local = |group: &LocalGroup| match group.kind {
        ValueKind::I32 => Local::new(group.count, ValueType::I32),
        ValueKind::I64 => Local::new(group.count, ValueType::I64),
        ValueKind::F32 => Local::new(group.count, ValueType::F32),
        ValueKind::F64 => Local::new(group.count, ValueType::F64),
    };
    if let Some(section) = module.code_section_mut() {
        for (body, groups) in section.bodies_mut().iter_mut().zip(locals.iter()) {
            *body.locals_mut() = groups.iter().map(local).collect();
        }
    }
}

/// The entries of the export section, read with `ExportEntry::field` and
/// `ExportEntry::internal`; each variant of `Internal` is matched to the kind
/// of export of the same name.
#[verifier::external_body]
pub(crate) fn read_exports(module: &Module) -> (res: Vec<Export>)
    ensures
        export_views(res@) == contents(*module).exports,
{
    let entries = module.export_section().map(|section| section.entries()).unwrap_or(&[]);
    entries.iter().map(|entry| {
        let (kind, index) = match *entry.internal() {
            Internal::Function(index) => (ExportKind::Function, index),
            Internal::Table(index) => (ExportKind::Table, index),
            Internal::Memory(index) => (ExportKind::Memory, index),
            Internal::Global(index) => (ExportKind::Global, index),
        };
        Export { name: entry.field().to_string(), kind, index }
    }).collect()
}

/// Replaces every entry of the export section through
/// `ExportEntry::field_mut` and `ExportEntry::internal_mut`, one export for
/// each entry; the kind of an export is matched to the variant of `Internal`
/// of the same name.
#[verifier::external_body]
pub(crate) fn write_exports(module: &mut Module, exports: &Vec<Export>)
    requires
        exports@.len() == contents(*old(module)).exports.len(),
    ensures
        contents(*final(module)) == (Contents {
            exports: export_views(exports@),
            ..contents(*old(module))
        }),
        *final(module) == module_with_exports(*old(module), export_views(exports@)),
{
    if let Some(section) = module.export_section_mut() {
        for (entry, export) in section.entries_mut().iter_mut().zip(exports.iter()) {
            *entry.field_mut() = export.name.clone();
            *entry.internal_mut() = match export.kind {
                ExportKind::Function => Internal::Function(export.index),
                ExportKind::Table => Internal::Table(export.index),
                ExportKind::Memory => Internal::Memory(export.index),
                ExportKind::Global => Internal::Global(export.index),
            };
        }
    }
}

/// The function indices of every entry of the element section, read with
/// `ElementSegment::members`.
#[verifier::external_body]
pub(crate) fn read_elements(module: &Module) -> (res: Vec<Vec<u32>>)
    ensures
        nested_views(res@) == contents(*module).elements,
{
    match module.elements_section() {
        Some(section) => section.entries().iter().map(|segment| segment.members().to_vec()).collect(),
        None => Vec::new(),
    }
}

/// Replaces the function indices of every entry of the element section
/// through `ElementSegment::members_mut`, one list for each entry.
#[verifier::external_body]
pub(crate) fn write_elements(module: &mut Module, elements: Vec<Vec<u32>>)
    requires
        elements@.len() == contents(*old(module)).elements.len(),
    ensures
        contents(*final(module)) == (Contents {
            elements: nested_views(elements@),
            ..contents(*old(module))
        }),
        *final(module) == module_with_elements(*old(module), nested_views(elements@)),
{
    if let Some(section) = module.elements_section_mut() {
        for (segment, members) in section.entries_mut().iter_mut().zip(elements) {
            *segment.members_mut() = members;
        }
    }
}

/// The entries of the data section, read with `DataSegment::offset`,
/// `InitExpr::code` and `DataSegment::value`.
#[verifier::external_body]
pub(crate) fn read_data(module: &Module) -> (res: Vec<DataSegment>)
    ensures
        data_views(res@) == contents(*module).data,
{
    let entries = module.data_section().map(|section| section.entries()).unwrap_or(&[]);
    entries.iter().map(|segment| DataSegment {
        init: segment.offset().as_ref().map(|init| init.code().to_vec()),
        bytes: segment.value().to_vec(),
    }).collect()
}

/// Removes every data section from `Module::sections_mut`.
#[verifier::external_body]
pub(crate) fn remove_data_sections(module: &mut Module)
    ensures
        contents(*final(module)) == (Contents { data: Seq::empty(), ..contents(*old(module)) }),
        *final(module) == module_without_data(*old(module)),
{
    module.sections_mut().retain(|section| !matches!(section, Section::Data(_)));
}

/// Moves the last entry of the import section to the front: `Vec::pop` and
/// `Vec::insert` on `ImportSection::entries_mut`.
#[verifier::external_body]
pub(crate) fn move_last_import_to_front(module: &mut Module)
    requires
        contents(*old(module)).imports.len() > 0,
    ensures
        contents(*final(module)) == (Contents {
            imports: seq![contents(*old(module)).imports.last()] + contents(
                *old(module),
            ).imports.drop_last(),
            ..contents(*old(module))
        }),
        *final(module) == module_with_last_import_first(*old(module)),
{
    if let Some(section) = module.import_section_mut() {
        let last = section.entries_mut().pop().unwrap();
        section.entries_mut().insert(0, last);
    }
}

/// `builder::from_module`: the builder starts with what the module
/// contains.
#[verifier::external_body]
pub(crate) fn from_module(module: Module) -> (res: ModuleBuilder<Identity>)
    ensures
        builder_contents(res) == contents(module),
        res == builder_of(module),
{
    parity_wasm::builder::from_module(module)
}

/// `ModuleBuilder::build`: the module contains what was built.
#[verifier::external_body]
pub(crate) fn build(builder: ModuleBuilder<Identity>) -> (res: Module)
    ensures
        contents(res) == builder_contents(builder),
        res == module_of(builder),
{
    builder.build()
}

/// `ModuleBuilder::push_signature` with an inline signature: the index of
/// the first type that equals the signature, which is added behind the other
/// types if there is none.
#[verifier::external_body]
pub(crate) fn push_signature(builder: &mut ModuleBuilder<Identity>, signature: &Signature) -> (res:
    u32)
    ensures
        res == type_index(builder_contents(*old(builder)).types, signature@) as u32,
        builder_contents(*final(builder)) == (Contents {
            types: with_type(builder_contents(*old(builder)).types, signature@),
            ..builder_contents(*old(builder))
        }),
        *final(builder) == builder_with_signature(*old(builder), signature@),
{
    let value = |kind: &ValueKind| match kind {
        ValueKind::I32 => ValueType::I32,
        ValueKind::I64 => ValueType::I64,
        ValueKind::F32 => ValueType::F32,
        ValueKind::F64 => ValueType::F64,
    };
    let params = signature.params.iter().map(value).collect();
    let results = signature.results.iter().map(value).collect();
    let signature = parity_wasm::builder::signature().with_params(params).with_results(results);
    builder.push_signature(signature.build_sig())
}

/// `ModuleBuilder::push_import` with an entry that imports a function of the
/// type with the given index: the entry is added behind the other imports.
#[verifier::external_body]
pub(crate) fn push_function_import(
    builder: &mut ModuleBuilder<Identity>,
    module: &str,
    field: &str,
    type_index: u32,
)
    ensures
        builder_contents(*final(builder)) == (Contents {
            imports: builder_contents(*old(builder)).imports.push(
                ImportView { module: module@, field: field@, kind: ImportKind::Function(type_index) },
            ),
            ..builder_contents(*old(builder))
        }),
        *final(builder) == builder_with_function_import(
            *old(builder),
            module@,
            field@,
            type_index,
        ),
{
    let entry = parity_wasm::builder::import().module(module).field(field);
    builder.push_import(entry.with_external(External::Function(type_index)).build());
}

/// `ModuleBuilder::push_function` with a function that refers to its type by
/// the given index, has no locals and has the given code: one entry is added to the
/// function section and one to the code section.
#[verifier::external_body]
pub(crate) fn push_function(
    builder: &mut ModuleBuilder<Identity>,
    type_index: u32,
    code: Vec<Instruction>,
)
    ensures
        builder_contents(*final(builder)) == (Contents {
            functions: builder_contents(*old(builder)).functions.push(type_index),
            bodies: builder_contents(*old(builder)).bodies.push(
                BodyView { locals: Seq::empty(), code: code@ },
            ),
            ..builder_contents(*old(builder))
        }),
        *final(builder) == builder_with_function(*old(builder), type_index, code@),
{
    let function = TypeRefBuilder::with_callback(parity_wasm::builder::function());
    let function = function.val(type_index).build();
    builder.push_function(function.body().with_instructions(Instructions::new(code)).build().build());
}

/// `ModuleBuilder::push_export`: the entry is added behind the other
/// exports. The kind of the export is matched to the variant of `Internal`
/// of the same name.
#[verifier::external_body]
pub(crate) fn push_export(builder: &mut ModuleBuilder<Identity>, export: Export)
    ensures
        builder_contents(*final(builder)) == (Contents {
            exports: builder_contents(*old(builder)).exports.push(export@),
            ..builder_contents(*old(builder))
        }),
        *final(builder) == builder_with_export(*old(builder), export@),
{
    let internal = match export.kind {
        ExportKind::Function => Internal::Function(export.index),
        ExportKind::Table => Internal::Table(export.index),
        ExportKind::Memory => Internal::Memory(export.index),
        ExportKind::Global => Internal::Global(export.index),
    };
    builder.push_export(ExportEntry::new(export.name, internal));
}

/// `ModuleBuilder::push_global` with a global that holds a value of the
/// `ValueType` of the same name as `kind`, is mutable or not as given, and
/// has `init` as the code that gives its first value: the entry is added
/// behind the other globals.
#[verifier::external_body]
pub(crate) fn push_global(
    builder: &mut ModuleBuilder<Identity>,
    kind: ValueKind,
    mutable: bool,
    init: Vec<Instruction>,
)
    ensures
        builder_contents(*final(builder)) == (Contents {
            globals: builder_contents(*old(builder)).globals.push(
                GlobalView { kind, mutable, init: init@ },
            ),
            ..builder_contents(*old(builder))
        }),
        *final(builder) == builder_with_global(*old(builder), kind, mutable, init@),
{
    let value_type = match kind {
        ValueKind::I32 => ValueType::I32,
        ValueKind::I64 => ValueType::I64,
        ValueKind::F32 => ValueType::F32,
        ValueKind::F64 => ValueType::F64,
    };
    builder.push_global(GlobalEntry::new(GlobalType::new(value_type, mutable), InitExpr::new(init)));
}

} // verus!
