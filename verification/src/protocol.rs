//! What the sandbox and the controller say to each other.

use crate::errors::WasmInstrumentationError;
use crate::methods::WasmMethod;
use crate::page_allocator::PageDeltaSerialization;
use crate::segments::NumWasmPages;
use core::time::Duration;
use vstd::prelude::*;

verus! {

/// Names a compiled module. The controller mints the ids.
#[derive(Clone, Copy, Debug, PartialEq, Eq, Structural)]
pub struct WasmId(pub u64);

/// Names a memory snapshot.
#[derive(Clone, Copy, Debug, PartialEq, Eq, Structural)]
pub struct MemoryId(pub u64);

/// Names an execution.
#[derive(Clone, Copy, Debug, PartialEq, Eq, Structural)]
pub struct ExecId(pub u64);

/// What a method hands back.
#[derive(Debug)]
pub enum WasmResult {
    Reply(Vec<u8>),
    Reject(String),
}

/// Why a module could not be opened, or why an execution ended early.
#[derive(Debug)]
pub enum HypervisorError {
    /// The engine does not accept the module.
    InvalidWasm(String),
    /// The module could not be instrumented.
    InstrumentationFailed(WasmInstrumentationError),
    /// The engine could not compile the instrumented module.
    CompilationFailed(String),
    /// The instruction counter ran out.
    OutOfInstructions,
    /// The memory could not grow.
    OutOfMemory,
    /// The code trapped for another reason.
    Trapped(String),
}

/// The value of a global. A float is held by its bits.
#[derive(Clone, Copy, Debug, PartialEq, Eq, Structural)]
pub enum Global {
    I32(i32),
    I64(i64),
    F32(u32),
    F64(u64),
}

/// How many pages an execution read and wrote.
#[derive(Clone, Copy, Debug, PartialEq, Eq, Structural)]
pub struct InstanceStats {
    pub accessed_pages: usize,
    pub dirty_pages: usize,
}

/// What the engine reports of an execution.
#[derive(Debug)]
pub struct WasmExecutionOutput {
    pub wasm_result: Result<Option<WasmResult>, HypervisorError>,
    pub num_instructions_left: u64,
    pub instance_stats: InstanceStats,
}

/// What an execution changed in one memory.
#[derive(Debug)]
pub struct MemoryModifications {
    pub page_delta: PageDeltaSerialization,
    pub size: NumWasmPages,
}

/// What an execution changed.
#[derive(Debug)]
pub struct StateModifications {
    pub globals: Vec<Global>,
    pub wasm_memory: MemoryModifications,
    pub stable_memory: MemoryModifications,
    pub subnet_available_memory: i64,
}

/// What the sandbox reports of an execution that has finished.
#[derive(Debug)]
pub struct SandboxExecOutput {
    pub wasm: WasmExecutionOutput,
    pub state: Option<StateModifications>,
    pub execute_total_duration: Duration,
    pub execute_run_duration: Duration,
}

/// What an execution is started with.
#[derive(Debug)]
pub struct SandboxExecInput {
    /// The method to run.
    pub func_ref: WasmMethod,
    /// The host interface that the method may use, in its encoded form.
    pub api_type: Vec<u8>,
    pub canister_current_memory_usage: u64,
    /// The parameters of the execution, in their encoded form.
    pub execution_parameters: Vec<u8>,
    /// The memory that is left to the subnet, which the execution shares.
    pub subnet_available_memory: i64,
    /// The state of the canister that the execution cannot change, in its
    /// encoded form.
    pub static_system_state: Vec<u8>,
    pub globals: Vec<Global>,
    /// The id under which the wasm memory is kept if the execution changes
    /// the state.
    pub next_wasm_memory_id: MemoryId,
    /// The id under which the stable memory is kept if the execution
    /// changes the state.
    pub next_stable_memory_id: MemoryId,
}

/// Tells the controller that an execution has finished.
#[derive(Debug)]
pub struct ExecutionFinishedRequest {
    pub exec_id: ExecId,
    pub exec_output: SandboxExecOutput,
}

#[derive(Debug)]
pub struct ExecutionFinishedReply {}

/// Relays a system call of a canister to the controller.
#[derive(Debug)]
pub struct CanisterSystemCallRequest {
    pub exec_id: ExecId,
    /// The system call and its arguments, in their encoded form.
    pub request: Vec<u8>,
}

#[derive(Debug)]
pub struct CanisterSystemCallReply {
    /// The answer to the system call, in its encoded form.
    pub reply: Vec<u8>,
}

/// A line for the log of the replica.
#[derive(Debug)]
pub struct LogRequest {
    pub level: u8,
    pub message: String,
}

/// What the sandbox asks of the controller.
#[derive(Debug)]
pub enum Request {
    ExecutionFinished(ExecutionFinishedRequest),
    CanisterSystemCall(CanisterSystemCallRequest),
    LogViaReplica(LogRequest),
}

/// What the controller answers.
#[derive(Debug)]
pub enum Reply {
    ExecutionFinished(ExecutionFinishedReply),
    CanisterSystemCall(CanisterSystemCallReply),
    LogViaReplica(()),
}

} // verus!
