//! The registry of a sandbox process.
//!
//! The controller opens compiled modules and memory snapshots under ids that
//! it mints, starts executions that refer to them, and closes them. An id is
//! fresh, then bound, then retired: it is an error to open one that is bound
//! or retired, and to close or to use one that is not bound. What is bound to
//! an id never changes, and an id that was closed is never bound again; an
//! execution that changes the state leaves new snapshots under fresh ids.
//!
//! The registry decides; it does not run anything. Starting an execution
//! yields the execution with the module and the snapshots that its ids were
//! bound to at that moment. The caller runs it on a worker, and hands what
//! the engine reports to `Execution::run`, which registers the new snapshots
//! and composes the message for the controller.

use crate::cost::{default_cost_table, InstructionCostTable};
use crate::instrumentation::{
    instrument, instrumentation_of, BinaryEncodedWasm, InstrumentationOutput,
};
use crate::methods::WasmMethod;
use crate::page_allocator::PageMap;
use crate::protocol::{
    ExecId, ExecutionFinishedRequest, Global, HypervisorError, MemoryId, MemoryModifications,
    SandboxExecInput, SandboxExecOutput, StateModifications, WasmExecutionOutput, WasmId,
};
use crate::segments::{NumWasmPages, PageIndex};
use core::time::Duration;
use std::collections::{HashMap, HashSet};
use std::sync::Arc;
use vstd::prelude::*;

verus! {

broadcast use vstd::std_specs::hash::group_hash_axioms;

/// A memory snapshot: its pages and its size.
#[derive(Clone, Debug)]
pub struct Memory {
    pub page_map: PageMap,
    pub size: NumWasmPages,
}

/// The code of a canister, ready to be executed.
pub struct CanisterWasm {
    pub instrumented: InstrumentationOutput,
}

impl CanisterWasm {
    /// Instruments the module with the default cost table.
    pub fn compile(wasm_src: Vec<u8>) -> (res: Result<Self, HypervisorError>)
        ensures
            res matches Err(error) ==> error is InstrumentationFailed,
            instrumentation_of(wasm_src@, default_cost_table(), compiled_view(res)),
    {
        let wasm = BinaryEncodedWasm::new(wasm_src);
        match instrument(&wasm, &InstructionCostTable::new()) {
            Ok(instrumented) => Ok(CanisterWasm { instrumented }),
            Err(error) => Err(HypervisorError::InstrumentationFailed(error)),
        }
    }
}

/// The outcome of compiling as the outcome of the instrumentation that it
/// consists of.
pub open spec fn compiled_view(res: Result<CanisterWasm, HypervisorError>) -> Result<
    crate::instrumentation::OutputView,
    crate::errors::InstrumentationErrorView,
> {
    match res {
        Ok(wasm) => Ok(wasm.instrumented@),
        Err(HypervisorError::InstrumentationFailed(error)) => Err(error@),
        Err(_) => arbitrary(),
    }
}

/// Why the registry refused a request.
#[derive(Debug)]
pub enum SandboxError {
    /// A module is open under the id, or was.
    WasmIdInUse(WasmId),
    /// No module is open under the id.
    WasmNotFound(WasmId),
    /// A memory is open under the id, or was.
    MemoryIdInUse(MemoryId),
    /// No memory is open under the id.
    MemoryNotFound(MemoryId),
    /// The module could not be compiled.
    Hypervisor(HypervisorError),
}

/// Asks for a memory to be opened.
#[derive(Debug)]
pub struct OpenMemoryRequest {
    pub memory_id: MemoryId,
    pub memory: Memory,
}

/// What the engine reports of an execution that changed the state.
#[derive(Debug)]
pub struct DirtyPageIndices {
    pub wasm_memory_delta: Vec<PageIndex>,
    pub stable_memory_delta: Vec<PageIndex>,
}

/// What the engine hands back when an execution has run.
#[derive(Debug)]
pub struct ExecutionOutcome {
    pub wasm: WasmExecutionOutput,
    /// The pages that the execution wrote and the values of the globals at
    /// its end, if it may have changed the state.
    pub deltas: Option<(DirtyPageIndices, Vec<Global>)>,
    /// The memories at the end of the execution.
    pub wasm_memory: Memory,
    pub stable_memory: Memory,
    /// The memory that is left to the subnet at the end of the execution.
    pub subnet_available_memory: i64,
}

/// An execution that has been started: the module and the memory snapshots
/// that its ids were bound to when it was started.
pub struct Execution {
    pub exec_id: ExecId,
    pub canister_wasm: Arc<CanisterWasm>,
    pub wasm_memory: Arc<Memory>,
    pub stable_memory: Arc<Memory>,
    pub exec_input: SandboxExecInput,
}

/// What is sent back when the initial state of a canister has been made.
#[derive(Debug)]
pub struct CreateExecutionStateSuccessReply {
    pub wasm_memory: MemoryModifications,
    pub exported_globals: Vec<Global>,
    pub exported_functions: Vec<WasmMethod>,
}

/// The registry: the modules and the memories that are open, and the ids
/// of those that were closed.
pub struct SandboxManager {
    canister_wasms: HashMap<u64, Arc<CanisterWasm>>,
    memories: HashMap<u64, Arc<Memory>>,
    retired_wasms: HashSet<u64>,
    retired_memories: HashSet<u64>,
}

/// `Arc::clone` of std: another handle to the same value.
#[verifier::external_body]
fn share<T>(value: &Arc<T>) -> (res: Arc<T>)
    ensures
        res == *value,
{
    Arc::clone(value)
}

impl SandboxManager {
    /// The modules that are open, by id.
    pub closed spec fn wasms(&self) -> Map<u64, Arc<CanisterWasm>> {
        self.canister_wasms@
    }

    /// The memories that are open, by id.
    pub closed spec fn memories(&self) -> Map<u64, Arc<Memory>> {
        self.memories@
    }

    /// The ids of the modules that were closed.
    pub closed spec fn retired_wasms(&self) -> Set<u64> {
        self.retired_wasms@
    }

    /// The ids of the memories that were closed.
    pub closed spec fn retired_memories(&self) -> Set<u64> {
        self.retired_memories@
    }

    /// The id can be given to a module: none is open under it, and none was.
    pub open spec fn wasm_id_is_fresh(&self, id: u64) -> bool {
        !self.wasms().contains_key(id) && !self.retired_wasms().contains(id)
    }

    /// The id can be given to a memory: none is open under it, and none was.
    pub open spec fn memory_id_is_fresh(&self, id: u64) -> bool {
        !self.memories().contains_key(id) && !self.retired_memories().contains(id)
    }

    /// The modules are the same, open and retired.
    pub open spec fn same_wasms(&self, other: &Self) -> bool {
        self.wasms() == other.wasms() && self.retired_wasms() == other.retired_wasms()
    }

    /// The memories are the same, open and retired.
    pub open spec fn same_memories(&self, other: &Self) -> bool {
        self.memories() == other.memories() && self.retired_memories()
            == other.retired_memories()
    }

    /// A registry in which nothing is open and every id is fresh.
    pub fn new() -> (res: Self)
        ensures
            res.wasms() == Map::<u64, Arc<CanisterWasm>>::empty(),
            res.memories() == Map::<u64, Arc<Memory>>::empty(),
            res.retired_wasms() == Set::<u64>::empty(),
            res.retired_memories() == Set::<u64>::empty(),
    {
        SandboxManager {
            canister_wasms: HashMap::new(),
            memories: HashMap::new(),
            retired_wasms: HashSet::new(),
            retired_memories: HashSet::new(),
        }
    }

    /// Compiles a module and opens it under `wasm_id`.
    ///
    /// Fails, and changes nothing, if the id is not fresh or if the module
    /// cannot be compiled.
    pub fn open_wasm(&mut self, wasm_id: WasmId, wasm_src: Vec<u8>) -> (res: Result<
        (),
        SandboxError,
    >)
        ensures
            final(self).same_memories(old(self)),
            final(self).retired_wasms() == old(self).retired_wasms(),
            !old(self).wasm_id_is_fresh(wasm_id.0) ==> res is Err && res->Err_0
                == SandboxError::WasmIdInUse(wasm_id),
            res is Err ==> final(self).wasms() == old(self).wasms(),
            old(self).wasm_id_is_fresh(wasm_id.0) ==> exists|compiled: Result<
                CanisterWasm,
                HypervisorError,
            >|
                {
                    &&& instrumentation_of(wasm_src@, default_cost_table(), compiled_view(compiled))
                    &&& match compiled {
                        Ok(wasm) => res is Ok && final(self).wasms() == old(self).wasms().insert(
                            wasm_id.0,
                            Arc::new(wasm),
                        ),
                        Err(error) => res is Err && res->Err_0 == SandboxError::Hypervisor(error),
                    }
                },
    {
        if !self.is_fresh_wasm_id(wasm_id) {
            return Err(SandboxError::WasmIdInUse(wasm_id));
        }
        match CanisterWasm::compile(wasm_src) {
            Ok(wasm) => {
                let ghost compiled: Result<CanisterWasm, HypervisorError> = Ok(wasm);
                self.canister_wasms.insert(wasm_id.0, Arc::new(wasm));
                assert(instrumentation_of(
                    wasm_src@,
                    default_cost_table(),
                    compiled_view(compiled),
                ));
                Ok(())
            },
            Err(error) => {
                let ghost compiled: Result<CanisterWasm, HypervisorError> = Err(error);
                assert(instrumentation_of(
                    wasm_src@,
                    default_cost_table(),
                    compiled_view(compiled),
                ));
                Err(SandboxError::Hypervisor(error))
            },
        }
    }

    /// Opens a module that has been compiled under `wasm_id`.
    ///
    /// Fails, and changes nothing, if the id is not fresh.
    pub fn open_canister_wasm(&mut self, wasm_id: WasmId, wasm: CanisterWasm) -> (res: Result<
        (),
        SandboxError,
    >)
        ensures
            final(self).same_memories(old(self)),
            final(self).retired_wasms() == old(self).retired_wasms(),
            !old(self).wasm_id_is_fresh(wasm_id.0) ==> {
                &&& res is Err
                &&& res->Err_0 == SandboxError::WasmIdInUse(wasm_id)
                &&& final(self).wasms() == old(self).wasms()
            },
            old(self).wasm_id_is_fresh(wasm_id.0) ==> res is Ok && final(self).wasms() == old(self).wasms().insert(wasm_id.0, Arc::new(wasm)),
    {
        if !self.is_fresh_wasm_id(wasm_id) {
            return Err(SandboxError::WasmIdInUse(wasm_id));
        }
        self.canister_wasms.insert(wasm_id.0, Arc::new(wasm));
        Ok(())
    }

    /// Closes the module that is open under `wasm_id` and hands it back, for
    /// the caller to drop it where that costs nothing. The id is retired: no
    /// module can be opened under it again.
    ///
    /// Fails, and changes nothing, if no module is open under the id.
    pub fn close_wasm(&mut self, wasm_id: WasmId) -> (res: Result<Arc<CanisterWasm>, SandboxError>)
        ensures
            final(self).same_memories(old(self)),
            old(self).wasms().contains_key(wasm_id.0) ==> {
                &&& res == Ok::<Arc<CanisterWasm>, SandboxError>(old(self).wasms()[wasm_id.0])
                &&& final(self).wasms() == old(self).wasms().remove(wasm_id.0)
                &&& final(self).retired_wasms() == old(self).retired_wasms().insert(wasm_id.0)
            },
            !old(self).wasms().contains_key(wasm_id.0) ==> {
                &&& res is Err
                &&& res->Err_0 == SandboxError::WasmNotFound(wasm_id)
                &&& final(self).same_wasms(old(self))
            },
    {
        match self.canister_wasms.remove(&wasm_id.0) {
            Some(removed) => {
                self.retired_wasms.insert(wasm_id.0);
                Ok(removed)
            },
            None => {
                assert(self.canister_wasms@ =~= old(self).canister_wasms@);
                Err(SandboxError::WasmNotFound(wasm_id))
            },
        }
    }

    /// Opens a memory that the controller sends.
    ///
    /// Fails, and changes nothing, if the id is not fresh.
    pub fn open_memory(&mut self, request: OpenMemoryRequest) -> (res: Result<(), SandboxError>)
        ensures
            final(self).same_wasms(old(self)),
            final(self).retired_memories() == old(self).retired_memories(),
            !old(self).memory_id_is_fresh(request.memory_id.0) ==> {
                &&& res is Err
                &&& res->Err_0 == SandboxError::MemoryIdInUse(request.memory_id)
                &&& final(self).memories() == old(self).memories()
            },
            old(self).memory_id_is_fresh(request.memory_id.0) ==> res is Ok && final(self).memories() == old(self).memories().insert(
                request.memory_id.0,
                Arc::new(request.memory),
            ),
    {
        self.add_memory(request.memory_id, request.memory)
    }

    /// Opens a memory under `memory_id`.
    ///
    /// Fails, and changes nothing, if the id is not fresh.
    pub fn add_memory(&mut self, memory_id: MemoryId, memory: Memory) -> (res: Result<
        (),
        SandboxError,
    >)
        ensures
            final(self).same_wasms(old(self)),
            final(self).retired_memories() == old(self).retired_memories(),
            !old(self).memory_id_is_fresh(memory_id.0) ==> {
                &&& res is Err
                &&& res->Err_0 == SandboxError::MemoryIdInUse(memory_id)
                &&& final(self).memories() == old(self).memories()
            },
            old(self).memory_id_is_fresh(memory_id.0) ==> res is Ok && final(self).memories()
                == old(self).memories().insert(memory_id.0, Arc::new(memory)),
    {
        if !self.is_fresh_memory_id(memory_id) {
            return Err(SandboxError::MemoryIdInUse(memory_id));
        }
        self.memories.insert(memory_id.0, Arc::new(memory));
        Ok(())
    }

    /// Closes the memory that is open under `memory_id` and hands it back,
    /// for the caller to drop it where that costs nothing. The id is retired:
    /// no memory can be opened under it again.
    ///
    /// Fails, and changes nothing, if no memory is open under the id.
    pub fn close_memory(&mut self, memory_id: MemoryId) -> (res: Result<Arc<Memory>, SandboxError>)
        ensures
            final(self).same_wasms(old(self)),
            old(self).memories().contains_key(memory_id.0) ==> {
                &&& res == Ok::<Arc<Memory>, SandboxError>(old(self).memories()[memory_id.0])
                &&& final(self).memories() == old(self).memories().remove(memory_id.0)
                &&& final(self).retired_memories() == old(self).retired_memories().insert(
                    memory_id.0,
                )
            },
            !old(self).memories().contains_key(memory_id.0) ==> {
                &&& res is Err
                &&& res->Err_0 == SandboxError::MemoryNotFound(memory_id)
                &&& final(self).same_memories(old(self))
            },
    {
        match self.memories.remove(&memory_id.0) {
            Some(removed) => {
                self.retired_memories.insert(memory_id.0);
                Ok(removed)
            },
            None => {
                assert(self.memories@ =~= old(self).memories@);
                Err(SandboxError::MemoryNotFound(memory_id))
            },
        }
    }

    /// Whether a memory can be opened under the id: none is open under it,
    /// and none was.
    pub fn is_fresh_memory_id(&self, memory_id: MemoryId) -> (res: bool)
        ensures
            res == self.memory_id_is_fresh(memory_id.0),
    {
        !self.memories.contains_key(&memory_id.0) && !self.retired_memories.contains(
            &memory_id.0,
        )
    }

    /// Whether a module can be opened under the id: none is open under it,
    /// and none was.
    pub fn is_fresh_wasm_id(&self, wasm_id: WasmId) -> (res: bool)
        ensures
            res == self.wasm_id_is_fresh(wasm_id.0),
    {
        !self.canister_wasms.contains_key(&wasm_id.0) && !self.retired_wasms.contains(&wasm_id.0)
    }

    /// The module that is open under the id.
    pub fn canister_wasm(&self, wasm_id: WasmId) -> (res: Option<Arc<CanisterWasm>>)
        ensures
            res == if self.wasms().contains_key(wasm_id.0) {
                Some(self.wasms()[wasm_id.0])
            } else {
                None
            },
    {
        match self.canister_wasms.get(&wasm_id.0) {
            Some(wasm) => Some(share(wasm)),
            None => None,
        }
    }

    /// Whether a module is open under the id.
    pub fn has_wasm(&self, wasm_id: WasmId) -> (res: bool)
        ensures
            res == self.wasms().contains_key(wasm_id.0),
    {
        self.canister_wasms.contains_key(&wasm_id.0)
    }

    /// Whether a memory is open under the id.
    pub fn has_memory(&self, memory_id: MemoryId) -> (res: bool)
        ensures
            res == self.memories().contains_key(memory_id.0),
    {
        self.memories.contains_key(&memory_id.0)
    }

    /// Starts an execution of the module under `wasm_id` on the memories
    /// under `wasm_memory_id` and `stable_memory_id`.
    ///
    /// The execution gets what the ids are bound to now: what happens to the
    /// registry later does not reach it. Fails if one of the ids is not
    /// bound; the error names the first such id, in the order module, wasm
    /// memory, stable memory.
    pub fn start_execution(
        &self,
        exec_id: ExecId,
        wasm_id: WasmId,
        wasm_memory_id: MemoryId,
        stable_memory_id: MemoryId,
        exec_input: SandboxExecInput,
    ) -> (res: Result<Execution, SandboxError>)
        ensures
            !self.wasms().contains_key(wasm_id.0) ==> res is Err && res->Err_0 == SandboxError::WasmNotFound(wasm_id),
            self.wasms().contains_key(wasm_id.0) && !self.memories().contains_key(
                wasm_memory_id.0,
            ) ==> res is Err && res->Err_0 == SandboxError::MemoryNotFound(wasm_memory_id),
            self.wasms().contains_key(wasm_id.0) && self.memories().contains_key(wasm_memory_id.0)
                && !self.memories().contains_key(stable_memory_id.0) ==> res is Err && res->Err_0 == SandboxError::MemoryNotFound(stable_memory_id),
            self.wasms().contains_key(wasm_id.0) && self.memories().contains_key(wasm_memory_id.0)
                && self.memories().contains_key(stable_memory_id.0) ==> res == Ok::<
                Execution,
                SandboxError,
            >(
                Execution {
                    exec_id,
                    canister_wasm: self.wasms()[wasm_id.0],
                    wasm_memory: self.memories()[wasm_memory_id.0],
                    stable_memory: self.memories()[stable_memory_id.0],
                    exec_input,
                },
            ),
    {
        let canister_wasm = match self.canister_wasms.get(&wasm_id.0) {
            Some(wasm) => share(wasm),
            None => {
                return Err(SandboxError::WasmNotFound(wasm_id));
            },
        };
        let wasm_memory = match self.memories.get(&wasm_memory_id.0) {
            Some(memory) => share(memory),
            None => {
                return Err(SandboxError::MemoryNotFound(wasm_memory_id));
            },
        };
        let stable_memory = match self.memories.get(&stable_memory_id.0) {
            Some(memory) => share(memory),
            None => {
                return Err(SandboxError::MemoryNotFound(stable_memory_id));
            },
        };
        Ok(Execution { exec_id, canister_wasm, wasm_memory, stable_memory, exec_input })
    }

    /// Composes the answer to a request for the initial state of a canister
    /// from what the engine made of the module under `wasm_id`: the functions
    /// and globals that it exports, the size of its memory, and the pages of
    /// `wasm_page_map` that its data fills.
    ///
    /// Fails if no module is open under the id.
    pub fn create_execution_state(
        &self,
        wasm_id: WasmId,
        wasm_page_map: &PageMap,
        wasm_memory_delta: &Vec<PageIndex>,
        wasm_memory_size: NumWasmPages,
        exported_globals: Vec<Global>,
        exported_functions: Vec<WasmMethod>,
    ) -> (res: Result<CreateExecutionStateSuccessReply, SandboxError>)
        ensures
            !self.wasms().contains_key(wasm_id.0) ==> res is Err && res->Err_0 == SandboxError::WasmNotFound(wasm_id),
            self.wasms().contains_key(wasm_id.0) ==> (res matches Ok(reply) && {
                &&& reply.exported_globals == exported_globals
                &&& reply.exported_functions == exported_functions
                &&& reply.wasm_memory.size == wasm_memory_size
                &&& is_delta_of(reply.wasm_memory.page_delta, *wasm_page_map, wasm_memory_delta@)
            }),
    {
        if !self.canister_wasms.contains_key(&wasm_id.0) {
            return Err(SandboxError::WasmNotFound(wasm_id));
        }
        let wasm_memory = MemoryModifications {
            page_delta: wasm_page_map.serialize_delta(wasm_memory_delta),
            size: wasm_memory_size,
        };
        Ok(CreateExecutionStateSuccessReply { wasm_memory, exported_globals, exported_functions })
    }
}

/// `delta` lists the pages of `page_map` with the given indices, in their
/// order.
pub open spec fn is_delta_of(
    delta: crate::page_allocator::PageDeltaSerialization,
    page_map: PageMap,
    indices: Seq<PageIndex>,
) -> bool {
    if indices.len() == 0 {
        delta is Empty
    } else {
        delta matches crate::page_allocator::PageDeltaSerialization::Heap(pages) && {
            &&& pages@.len() == indices.len()
            &&& forall|i: int|
                0 <= i < pages@.len() ==> (#[trigger] pages@[i]).index == indices[i]
                    && pages@[i].bytes@ == page_map.page(indices[i].0)
        }
    }
}


/// The execution may have changed the state: it ended without an error, and
/// the engine reports what it wrote.
pub open spec fn changes_state(outcome: ExecutionOutcome) -> bool {
    outcome.wasm.wasm_result is Ok && outcome.deltas is Some
}

/// What an execution with this outcome changed.
pub open spec fn is_state_of(state: StateModifications, outcome: ExecutionOutcome) -> bool {
    &&& outcome.deltas is Some
    &&& state.globals == outcome.deltas->Some_0.1
    &&& state.subnet_available_memory == outcome.subnet_available_memory
    &&& state.wasm_memory.size == outcome.wasm_memory.size
    &&& state.stable_memory.size == outcome.stable_memory.size
    &&& is_delta_of(
        state.wasm_memory.page_delta,
        outcome.wasm_memory.page_map,
        outcome.deltas->Some_0.0.wasm_memory_delta@,
    )
    &&& is_delta_of(
        state.stable_memory.page_delta,
        outcome.stable_memory.page_map,
        outcome.deltas->Some_0.0.stable_memory_delta@,
    )
}

impl Execution {
    /// The ids under which an execution that changes the state leaves its
    /// memories are fresh, and they differ.
    pub open spec fn next_ids_free(self, sandbox_manager: SandboxManager) -> bool {
        &&& sandbox_manager.memory_id_is_fresh(self.exec_input.next_wasm_memory_id.0)
        &&& sandbox_manager.memory_id_is_fresh(self.exec_input.next_stable_memory_id.0)
        &&& self.exec_input.next_wasm_memory_id != self.exec_input.next_stable_memory_id
    }

    /// Finishes an execution that has run: registers the memories that it
    /// leaves, and composes the message that tells the controller.
    ///
    /// Where the execution ended with an error, or the engine reports no
    /// changes, the registry stays as it is and the message holds no state.
    /// Otherwise the two memories are opened under the ids that the input
    /// names for them, both or neither, and the message holds the changes.
    /// Fails, and changes nothing, if one of those ids is not fresh or if
    /// they are the same.
    pub fn run(
        self,
        sandbox_manager: &mut SandboxManager,
        outcome: ExecutionOutcome,
        execute_total_duration: Duration,
        execute_run_duration: Duration,
    ) -> (res: Result<ExecutionFinishedRequest, SandboxError>)
        ensures
            final(sandbox_manager).same_wasms(old(sandbox_manager)),
            final(sandbox_manager).retired_memories() == old(sandbox_manager).retired_memories(),
            res is Err ==> final(sandbox_manager).memories() == old(sandbox_manager).memories(),
            res is Ok <==> (changes_state(outcome) ==> self.next_ids_free(*old(sandbox_manager))),
            res matches Ok(request) ==> {
                &&& request.exec_id == self.exec_id
                &&& request.exec_output.wasm == outcome.wasm
                &&& request.exec_output.execute_total_duration == execute_total_duration
                &&& request.exec_output.execute_run_duration == execute_run_duration
                &&& request.exec_output.state is Some <==> changes_state(outcome)
                &&& !changes_state(outcome) ==> final(sandbox_manager).memories() == old(
                    sandbox_manager,
                ).memories()
                &&& changes_state(outcome) ==> is_state_of(
                    request.exec_output.state->Some_0,
                    outcome,
                ) && final(sandbox_manager).memories() == old(sandbox_manager).memories().insert(
                    self.exec_input.next_wasm_memory_id.0,
                    Arc::new(outcome.wasm_memory),
                ).insert(self.exec_input.next_stable_memory_id.0, Arc::new(outcome.stable_memory))
            },
            res matches Err(error) ==> error == SandboxError::MemoryIdInUse(
                self.exec_input.next_wasm_memory_id,
            ) || error == SandboxError::MemoryIdInUse(self.exec_input.next_stable_memory_id),
    {
        let next_wasm_memory_id = self.exec_input.next_wasm_memory_id;
        let next_stable_memory_id = self.exec_input.next_stable_memory_id;
        let ExecutionOutcome { wasm, deltas, wasm_memory, stable_memory, subnet_available_memory } =
            outcome;
        let changed = match &wasm.wasm_result {
            Ok(_) => deltas,
            Err(_) => None,
        };
        let state = match changed {
            None => None,
            Some((dirty, globals)) => {
                if !sandbox_manager.is_fresh_memory_id(next_wasm_memory_id) {
                    return Err(SandboxError::MemoryIdInUse(next_wasm_memory_id));
                }
                if !sandbox_manager.is_fresh_memory_id(next_stable_memory_id)
                    || next_stable_memory_id.0 == next_wasm_memory_id.0 {
                    return Err(SandboxError::MemoryIdInUse(next_stable_memory_id));
                }
                let state = StateModifications {
                    globals,
                    wasm_memory: MemoryModifications {
                        page_delta: wasm_memory.page_map.serialize_delta(&dirty.wasm_memory_delta),
                        size: wasm_memory.size,
                    },
                    stable_memory: MemoryModifications {
                        page_delta: stable_memory.page_map.serialize_delta(
                            &dirty.stable_memory_delta,
                        ),
                        size: stable_memory.size,
                    },
                    subnet_available_memory,
                };
                let wasm_opened = sandbox_manager.add_memory(next_wasm_memory_id, wasm_memory);
                let stable_opened = sandbox_manager.add_memory(
                    next_stable_memory_id,
                    stable_memory,
                );
                assert(wasm_opened is Ok && stable_opened is Ok);
                Some(state)
            },
        };
        Ok(
            ExecutionFinishedRequest {
                exec_id: self.exec_id,
                exec_output: SandboxExecOutput {
                    wasm,
                    state,
                    execute_total_duration,
                    execute_run_duration,
                },
            },
        )
    }
}

/// A call that opens or closes an id of one kind. An opening call says
/// whether what it brings can be opened at all: a module that cannot be
/// compiled is not opened.
pub enum RegistryCall {
    Open { id: u64, sound: bool },
    Close { id: u64 },
}

/// The ids that were closed by the first `n` calls to a new registry.
pub open spec fn retired_after(calls: Seq<RegistryCall>, n: int) -> Set<u64>
    decreases n,
{
    if n <= 0 {
        Set::empty()
    } else {
        match calls[n - 1] {
            RegistryCall::Open { id, sound } => retired_after(calls, n - 1),
            RegistryCall::Close { id } => if bound_after(calls, n - 1).contains(id) {
                retired_after(calls, n - 1).insert(id)
            } else {
                retired_after(calls, n - 1)
            },
        }
    }
}

/// The ids that are bound after the first `n` calls to a new registry.
pub open spec fn bound_after(calls: Seq<RegistryCall>, n: int) -> Set<u64>
    decreases n,
{
    if n <= 0 {
        Set::empty()
    } else {
        match calls[n - 1] {
            RegistryCall::Open { id, sound } => if sound && !retired_after(calls, n - 1).contains(
                id,
            ) {
                bound_after(calls, n - 1).insert(id)
            } else {
                bound_after(calls, n - 1)
            },
            RegistryCall::Close { id } => bound_after(calls, n - 1).remove(id),
        }
    }
}

/// The `i`-th call completes: it opens an id that is fresh, or closes one
/// that is bound.
pub open spec fn completes(calls: Seq<RegistryCall>, i: int) -> bool {
    match calls[i] {
        RegistryCall::Open { id, sound } => sound && !bound_after(calls, i).contains(id)
            && !retired_after(calls, i).contains(id),
        RegistryCall::Close { id } => bound_after(calls, i).contains(id),
    }
}

/// How many of the first `n` calls opened `id` and completed.
pub open spec fn completed_opens(calls: Seq<RegistryCall>, id: u64, n: int) -> int
    decreases n,
{
    if n <= 0 {
        0
    } else if calls[n - 1] is Open && calls[n - 1]->Open_id == id && completes(calls, n - 1) {
        completed_opens(calls, id, n - 1) + 1
    } else {
        completed_opens(calls, id, n - 1)
    }
}

/// How many of the first `n` calls closed `id` and completed.
pub open spec fn completed_closes(calls: Seq<RegistryCall>, id: u64, n: int) -> int
    decreases n,
{
    if n <= 0 {
        0
    } else if calls[n - 1] is Close && calls[n - 1]->Close_id == id && completes(calls, n - 1) {
        completed_closes(calls, id, n - 1) + 1
    } else {
        completed_closes(calls, id, n - 1)
    }
}

/// After any sequence of calls an id is bound if and only if more calls
/// that opened it have completed than calls that closed it. An id is opened
/// at most once: it is retired exactly if a call that closed it has
/// completed, and then no call opens it again.
pub proof fn lemma_bound_iff_more_opens(calls: Seq<RegistryCall>, id: u64, n: int)
    requires
        0 <= n <= calls.len(),
    ensures
        bound_after(calls, n).contains(id) <==> completed_opens(calls, id, n) > completed_closes(
            calls,
            id,
            n,
        ),
        retired_after(calls, n).contains(id) <==> completed_closes(calls, id, n) == 1,
        0 <= completed_closes(calls, id, n) <= completed_opens(calls, id, n) <= 1,
        !(bound_after(calls, n).contains(id) && retired_after(calls, n).contains(id)),
    decreases n,
{
    if n > 0 {
        lemma_bound_iff_more_opens(calls, id, n - 1);
    }
}

} // verus!
