//! Why a module could not be instrumented.

use vstd::prelude::*;

verus! {

/// What `parity_wasm` said about bytes that it could not read, or about a
/// module that it could not write.
#[derive(Debug)]
pub struct ParityWasmError(pub String);

/// An instrumentation error as a mathematical value.
pub enum InstrumentationErrorView {
    ParityDeserializeError(Seq<char>),
    ParitySerializeError(Seq<char>),
    IncorrectNumberMemorySections { expected: usize, got: usize },
    InvalidDataSegment { offset: usize, len: usize },
    UnsupportedDataSegment { segment: usize },
}

/// Why a module could not be instrumented.
#[derive(Debug)]
pub enum WasmInstrumentationError {
    /// The bytes are no WebAssembly module.
    ParityDeserializeError(ParityWasmError),
    /// The instrumented module could not be written.
    ParitySerializeError(ParityWasmError),
    /// The module declares memories, and not exactly one.
    IncorrectNumberMemorySections { expected: usize, got: usize },
    /// A data segment reaches beyond the initial memory.
    InvalidDataSegment { offset: usize, len: usize },
    /// The data segment with this number has no offset, or one that is not a
    /// constant.
    UnsupportedDataSegment { segment: usize },
}

impl View for WasmInstrumentationError {
    type V = InstrumentationErrorView;

    open spec fn view(&self) -> InstrumentationErrorView {
        match *self {
            Self::ParityDeserializeError(e) => InstrumentationErrorView::ParityDeserializeError(
                e.0@,
            ),
            Self::ParitySerializeError(e) => InstrumentationErrorView::ParitySerializeError(e.0@),
            Self::IncorrectNumberMemorySections { expected, got } =>
                InstrumentationErrorView::IncorrectNumberMemorySections { expected, got },
            Self::InvalidDataSegment { offset, len } =>
                InstrumentationErrorView::InvalidDataSegment { offset, len },
            Self::UnsupportedDataSegment { segment } =>
                InstrumentationErrorView::UnsupportedDataSegment { segment },
        }
    }
}

} // verus!
