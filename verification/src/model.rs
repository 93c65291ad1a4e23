//! The parts of a module that the instrumentation reads or writes, as plain
//! values.

use parity_wasm::elements::Instruction;
use vstd::prelude::*;

verus! {

/// The type of a value.
#[derive(Clone, Copy, Debug, PartialEq, Eq, Structural)]
pub enum ValueKind {
    I32,
    I64,
    F32,
    F64,
}

/// The type of a function.
#[derive(Debug)]
pub struct Signature {
    pub params: Vec<ValueKind>,
    pub results: Vec<ValueKind>,
}

pub struct SignatureView {
    pub params: Seq<ValueKind>,
    pub results: Seq<ValueKind>,
}

impl View for Signature {
    type V = SignatureView;

    open spec fn view(&self) -> SignatureView {
        SignatureView { params: self.params@, results: self.results@ }
    }
}

/// What an export refers to.
#[derive(Clone, Copy, Debug, PartialEq, Eq, Structural)]
pub enum ExportKind {
    Function,
    Table,
    Memory,
    Global,
}

/// An entry of the export section: a name, and the index of what it names
/// in the index space of its kind.
#[derive(Debug)]
pub struct Export {
    pub name: String,
    pub kind: ExportKind,
    pub index: u32,
}

pub struct ExportView {
    pub name: Seq<char>,
    pub kind: ExportKind,
    pub index: u32,
}

impl View for Export {
    type V = ExportView;

    open spec fn view(&self) -> ExportView {
        ExportView { name: self.name@, kind: self.kind, index: self.index }
    }
}

/// What an import brings in. A function comes with the index of its type.
#[derive(Clone, Copy, Debug, PartialEq, Eq, Structural)]
pub enum ImportKind {
    Function(u32),
    Table,
    Memory,
    Global,
}

/// An entry of the import section.
pub struct ImportView {
    pub module: Seq<char>,
    pub field: Seq<char>,
    pub kind: ImportKind,
}

/// The limits of a memory, in WebAssembly pages.
#[derive(Clone, Copy, Debug, PartialEq, Eq, Structural)]
pub struct Limits {
    pub initial: u32,
    pub maximum: Option<u32>,
}

/// An entry of the data section: the code that gives the offset, if the
/// entry has one, and the bytes.
#[derive(Debug)]
pub struct DataSegment {
    pub init: Option<Vec<Instruction>>,
    pub bytes: Vec<u8>,
}

pub struct DataView {
    pub init: Option<Seq<Instruction>>,
    pub bytes: Seq<u8>,
}

impl View for DataSegment {
    type V = DataView;

    open spec fn view(&self) -> DataView {
        DataView {
            init: match self.init {
                Some(code) => Some(code@),
                None => None,
            },
            bytes: self.bytes@,
        }
    }
}

/// An entry of the global section: the type of the value, whether it can
/// change, and the code that gives the first value.
pub struct GlobalView {
    pub kind: ValueKind,
    pub mutable: bool,
    pub init: Seq<Instruction>,
}

/// Of each global, whether it is mutable.
pub open spec fn mutability(globals: Seq<GlobalView>) -> Seq<bool> {
    Seq::new(globals.len(), |i: int| globals[i].mutable)
}

/// A group of locals of one type, as a function body declares them.
#[derive(Clone, Copy, Debug, PartialEq, Eq, Structural)]
pub struct LocalGroup {
    pub count: u32,
    pub kind: ValueKind,
}

/// The sizes of groups of locals.
pub open spec fn group_counts(groups: Seq<LocalGroup>) -> Seq<u32> {
    Seq::new(groups.len(), |i: int| groups[i].count)
}

/// A function body: its groups of locals, and its code.
pub struct BodyView {
    pub locals: Seq<LocalGroup>,
    pub code: Seq<Instruction>,
}

/// What a module contains, as far as the instrumentation is concerned. A
/// section that the module lacks counts as an empty one.
pub struct Contents {
    /// The function types of the type section.
    pub types: Seq<SignatureView>,
    /// The entries of the import section.
    pub imports: Seq<ImportView>,
    /// The entries of the function section: the type index of each function
    /// that the module defines.
    pub functions: Seq<u32>,
    /// The number of entries of the table section.
    pub tables: nat,
    /// The limits of each entry of the memory section.
    pub memories: Seq<Limits>,
    /// The entries of the global section.
    pub globals: Seq<GlobalView>,
    /// The entries of the export section.
    pub exports: Seq<ExportView>,
    /// The start section.
    pub start: Option<u32>,
    /// The function indices of each entry of the element section.
    pub elements: Seq<Seq<u32>>,
    /// The entries of the code section.
    pub bodies: Seq<BodyView>,
    /// The entries of the data section.
    pub data: Seq<DataView>,
}

/// The views of a list of exports.
pub open spec fn export_views(exports: Seq<Export>) -> Seq<ExportView> {
    Seq::new(exports.len(), |i: int| exports[i]@)
}

/// The views of a list of lists.
pub open spec fn nested_views<T>(lists: Seq<Vec<T>>) -> Seq<Seq<T>> {
    Seq::new(lists.len(), |i: int| lists[i]@)
}

/// The views of a list of signatures.
pub open spec fn signature_views(signatures: Seq<Signature>) -> Seq<SignatureView> {
    Seq::new(signatures.len(), |i: int| signatures[i]@)
}

/// The views of a list of data segments.
pub open spec fn data_views(data: Seq<DataSegment>) -> Seq<DataView> {
    Seq::new(data.len(), |i: int| data[i]@)
}

/// The bodies with other code.
pub open spec fn with_code(bodies: Seq<BodyView>, code: Seq<Seq<Instruction>>) -> Seq<BodyView> {
    Seq::new(bodies.len(), |i: int| BodyView { locals: bodies[i].locals, code: code[i] })
}

/// The bodies with other locals.
pub open spec fn with_locals(bodies: Seq<BodyView>, locals: Seq<Seq<LocalGroup>>) -> Seq<
    BodyView,
> {
    Seq::new(bodies.len(), |i: int| BodyView { locals: locals[i], code: bodies[i].code })
}

/// The code of the bodies.
pub open spec fn code_of(bodies: Seq<BodyView>) -> Seq<Seq<Instruction>> {
    Seq::new(bodies.len(), |i: int| bodies[i].code)
}

/// The locals of the bodies.
pub open spec fn locals_of(bodies: Seq<BodyView>) -> Seq<Seq<LocalGroup>> {
    Seq::new(bodies.len(), |i: int| bodies[i].locals)
}

/// The index of the first type that equals `signature`; the number of types
/// if there is none.
pub open spec fn type_index(types: Seq<SignatureView>, signature: SignatureView) -> int
    decreases types.len(),
{
    if types.len() == 0 {
        0
    } else if type_index(types.drop_last(), signature) < types.len() - 1 {
        type_index(types.drop_last(), signature)
    } else if types.last() == signature {
        types.len() - 1
    } else {
        types.len() as int
    }
}

/// The types with `signature` among them: it is added at the end unless it
/// is there already.
pub open spec fn with_type(types: Seq<SignatureView>, signature: SignatureView) -> Seq<
    SignatureView,
> {
    if type_index(types, signature) < types.len() {
        types
    } else {
        types.push(signature)
    }
}

/// The number of imports that bring in a function.
pub open spec fn function_imports(imports: Seq<ImportView>) -> nat {
    imports.filter(|import: ImportView| import.kind is Function).len()
}

/// The number of imports that bring in a global.
pub open spec fn global_imports(imports: Seq<ImportView>) -> nat {
    imports.filter(|import: ImportView| import.kind is Global).len()
}

} // verus!
