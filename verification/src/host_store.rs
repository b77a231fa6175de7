//! A wasmtime store kept together with the instance, the linear memory and
//! the `process` export obtained from it. Each handle lives beside the store
//! that owns it and is used only with that store, so no call can hand a
//! handle to a store it does not belong to.
//!
//! Beside the runtime objects the store carries a model of what the host
//! has handed it: the fuel it holds, its epoch deadline, the size of its
//! memory and the bytes last written into it, its memory cap, and the calls
//! of `process` made in it.

use vstd::prelude::*;
use vstd::pervasive::arbitrary;
use wasmtime::{Engine, Instance, Memory, Module, Store, StoreLimits, StoreLimitsBuilder, TypedFunc};

verus! {

/// A compiled module, with the names of its exports that the host looks
/// up: its memory exports, and its function exports of type
/// `(i32, i32) -> i64`.
pub struct WasmModule {
    module: Module,
    memories: Ghost<Set<Seq<char>>>,
    process_fns: Ghost<Set<Seq<char>>>,
}

impl WasmModule {
    /// Names of the module's memory exports.
    pub closed spec fn memory_exports(&self) -> Set<Seq<char>> {
        self.memories@
    }

    /// Names of the module's function exports of type `(i32, i32) -> i64`.
    pub closed spec fn process_exports(&self) -> Set<Seq<char>> {
        self.process_fns@
    }
}

/// A store-limits builder, with the linear-memory cap it has been given.
pub struct LimitsBuilder {
    builder: StoreLimitsBuilder,
    memory_size: Ghost<Option<usize>>,
}

impl LimitsBuilder {
    /// The linear-memory cap given so far, if any.
    pub closed spec fn memory_cap(&self) -> Option<usize> {
        self.memory_size@
    }
}

/// A store's data: its resource limits, with their linear-memory cap.
pub struct HostState {
    limits: StoreLimits,
    memory_size: Ghost<Option<usize>>,
}

impl HostState {
    /// The linear-memory cap of these limits, if any.
    pub closed spec fn memory_cap(&self) -> Option<usize> {
        self.memory_size@
    }
}

/// A call of a module's `process` export, with what the store held when
/// it began.
pub struct ModuleCall {
    /// The `ptr` argument.
    pub ptr: i32,
    /// The `len` argument.
    pub len: i32,
    /// The fuel in the store.
    pub fuel: u64,
    /// The epoch deadline, in ticks ahead, as it was last set.
    pub deadline: u64,
    /// The offset and the bytes most recently written into linear memory.
    pub written: (usize, Seq<u8>),
    /// The value the call returned, if it returned one.
    pub returned: Option<i64>,
}

/// A store with the instance, memory and `process` export found in it.
pub struct HostStore {
    store: Store<HostState>,
    instance: Option<Instance>,
    memory: Option<Memory>,
    process: Option<TypedFunc<(i32, i32), i64>>,
    fuel: Ghost<u64>,
    deadline: Ghost<u64>,
    memory_size: Ghost<nat>,
    written: Ghost<(usize, Seq<u8>)>,
    data_memory_size: Ghost<Option<usize>>,
    memory_cap: Ghost<Option<usize>>,
    memories: Ghost<Set<Seq<char>>>,
    process_fns: Ghost<Set<Seq<char>>>,
    calls: Ghost<nat>,
    last_call: Ghost<Option<ModuleCall>>,
}

impl HostStore {
    /// Whether the memory and the `process` export have both been found.
    pub fn is_loaded(&self) -> (r: bool)
        ensures
            r == (self.has_memory() && self.has_process()),
    {
        self.memory.is_some() && self.process.is_some()
    }

    /// A module has been instantiated in the store.
    pub closed spec fn has_instance(&self) -> bool {
        self.instance is Some
    }

    /// The instance's linear memory has been found.
    pub closed spec fn has_memory(&self) -> bool {
        self.memory is Some
    }

    /// The instance's `process` export has been found.
    pub closed spec fn has_process(&self) -> bool {
        self.process is Some
    }

    /// The fuel the store holds.
    pub closed spec fn fuel(&self) -> u64 {
        self.fuel@
    }

    /// The epoch deadline, in ticks ahead, as it was last set.
    pub closed spec fn deadline(&self) -> u64 {
        self.deadline@
    }

    /// The size of the linear memory, in bytes.
    pub closed spec fn memory_size(&self) -> nat {
        self.memory_size@
    }

    /// The offset and the bytes most recently written into linear memory.
    pub closed spec fn written(&self) -> (usize, Seq<u8>) {
        self.written@
    }

    /// The memory cap of the data the store was created with.
    pub closed spec fn data_memory_cap(&self) -> Option<usize> {
        self.data_memory_size@
    }

    /// The memory cap the store's limiter enforces.
    pub closed spec fn memory_cap(&self) -> Option<usize> {
        self.memory_cap@
    }

    /// Names of the memory exports of the instantiated module.
    pub closed spec fn memory_exports(&self) -> Set<Seq<char>> {
        self.memories@
    }

    /// Names of the `(i32, i32) -> i64` function exports of the
    /// instantiated module.
    pub closed spec fn process_exports(&self) -> Set<Seq<char>> {
        self.process_fns@
    }

    /// How many calls of `process` have been made in the store.
    pub closed spec fn calls(&self) -> nat {
        self.calls@
    }

    /// The last call of `process` made in the store.
    pub closed spec fn last_call(&self) -> Option<ModuleCall> {
        self.last_call@
    }

    /// What stays as it was when the store is only configured: the
    /// handles, the exports, the calls and the memory cap.
    pub open spec fn same_setup(&self, other: &HostStore) -> bool {
        &&& self.has_instance() == other.has_instance()
        &&& self.has_memory() == other.has_memory()
        &&& self.has_process() == other.has_process()
        &&& self.memory_exports() == other.memory_exports()
        &&& self.process_exports() == other.process_exports()
        &&& self.data_memory_cap() == other.data_memory_cap()
        &&& self.memory_cap() == other.memory_cap()
        &&& self.calls() == other.calls()
        &&& self.last_call() == other.last_call()
    }
}

/// The exports of the module that the bytes `bytes` (binary or text)
/// describe: the names of its memory exports, and of its function exports
/// of type `(i32, i32) -> i64`.
pub uninterp spec fn module_exports(bytes: Seq<u8>) -> (Set<Seq<char>>, Set<Seq<char>>);

/// `wasmtime::Module::new`: compile a binary (or text) module. A module
/// compiled from `bytes` has the exports those bytes describe, named
/// [`module_exports`].
#[verifier::external_body]
pub fn module_new(engine: &Engine, bytes: &[u8]) -> (r: Result<WasmModule, wasmtime::Error>)
    ensures
        r matches Ok(m) ==> m.memory_exports() == module_exports(bytes@).0 && m.process_exports()
            == module_exports(bytes@).1,
{
    match Module::new(engine, bytes) {
        Ok(module) => Ok(
            WasmModule {
                module,
                memories: Ghost(arbitrary()),
                process_fns: Ghost(arbitrary()),
            },
        ),
        Err(e) => Err(e),
    }
}

/// `wasmtime::StoreLimitsBuilder::new`.
#[verifier::external_body]
pub fn limits_builder_new() -> LimitsBuilder {
    LimitsBuilder {
        builder: StoreLimitsBuilder::new(),
        memory_size: Ghost(arbitrary()),
    }
}

/// `wasmtime::StoreLimitsBuilder::memory_size`: linear memories are then
/// capped at `limit` bytes.
#[verifier::external_body]
pub fn limits_memory_size(b: LimitsBuilder, limit: usize) -> (r: LimitsBuilder)
    ensures
        r.memory_cap() == Some(limit),
{
    LimitsBuilder { builder: b.builder.memory_size(limit), memory_size: b.memory_size }
}

/// `wasmtime::StoreLimitsBuilder::build`: limits with the builder's memory
/// cap, as a store's data.
#[verifier::external_body]
pub fn limits_build(b: LimitsBuilder) -> (r: HostState)
    ensures
        r.memory_cap() == b.memory_cap(),
{
    HostState { limits: b.builder.build(), memory_size: b.memory_size }
}

/// `wasmtime::Store::new`: a store holding `data`, with nothing
/// instantiated in it and no call made.
#[verifier::external_body]
pub fn store_new(engine: &Engine, data: HostState) -> (r: HostStore)
    ensures
        r.data_memory_cap() == data.memory_cap(),
        !r.has_instance(),
        !r.has_memory(),
        !r.has_process(),
        r.calls() == 0,
        r.last_call() is None,
{
    let cap = data.memory_size;
    HostStore {
        store: Store::new(engine, data), instance: None, memory: None, process: None,
        fuel: Ghost(arbitrary()), deadline: Ghost(arbitrary()),
        memory_size: Ghost(arbitrary()), written: Ghost(arbitrary()),
        data_memory_size: cap, memory_cap: Ghost(arbitrary()),
        memories: Ghost(arbitrary()), process_fns: Ghost(arbitrary()),
        calls: Ghost(0), last_call: Ghost(None),
    }
}

/// `wasmtime::Store::limiter`, with the store's own limits as the limiter:
/// linear memory is then capped as the store's data says.
#[verifier::external_body]
pub fn store_use_own_limits(store: &mut HostStore)
    ensures
        final(store).memory_cap() == old(store).data_memory_cap(),
        final(store).data_memory_cap() == old(store).data_memory_cap(),
        final(store).has_instance() == old(store).has_instance(),
        final(store).has_memory() == old(store).has_memory(),
        final(store).has_process() == old(store).has_process(),
        final(store).calls() == old(store).calls(),
        final(store).last_call() == old(store).last_call(),
{
    store.store.limiter(|s| &mut s.limits);
}

/// `wasmtime::Store::set_epoch_deadline`: the deadline is then `ticks`
/// ahead.
#[verifier::external_body]
pub fn store_set_epoch_deadline(store: &mut HostStore, ticks: u64)
    ensures
        final(store).deadline() == ticks,
        final(store).fuel() == old(store).fuel(),
        final(store).memory_size() == old(store).memory_size(),
        final(store).written() == old(store).written(),
        final(store).same_setup(&*old(store)),
{
    store.store.set_epoch_deadline(ticks);
}

/// `wasmtime::Store::set_fuel`; fails when fuel is not enabled. On success
/// the store holds `fuel`.
#[verifier::external_body]
pub fn store_set_fuel(store: &mut HostStore, fuel: u64) -> (r: Result<(), wasmtime::Error>)
    ensures
        r is Ok ==> final(store).fuel() == fuel,
        final(store).deadline() == old(store).deadline(),
        final(store).memory_size() == old(store).memory_size(),
        final(store).written() == old(store).written(),
        final(store).same_setup(&*old(store)),
{
    store.store.set_fuel(fuel)
}

/// `wasmtime::Instance::new`, with no imports; the instance is kept in the
/// store. A start function may run, so nothing is claimed of the fuel or
/// the memory afterwards.
#[verifier::external_body]
pub fn instantiate(store: &mut HostStore, module: &WasmModule) -> (r: Result<(), wasmtime::Error>)
    ensures
        r is Ok ==> final(store).has_instance() && final(store).memory_exports()
            == module.memory_exports() && final(store).process_exports()
            == module.process_exports(),
        !old(store).has_instance() && r is Err ==> !final(store).has_instance(),
        final(store).has_memory() == old(store).has_memory(),
        final(store).has_process() == old(store).has_process(),
        final(store).data_memory_cap() == old(store).data_memory_cap(),
        final(store).memory_cap() == old(store).memory_cap(),
        final(store).calls() == old(store).calls(),
        final(store).last_call() == old(store).last_call(),
{
    match Instance::new(&mut store.store, &module.module, &[]) {
        Ok(i) => {
            store.instance = Some(i);
            Ok(())
        },
        Err(e) => Err(e),
    }
}

/// `wasmtime::Instance::get_memory` on the store's instance; a memory found
/// is kept in the store. It is found exactly when the module exports a
/// memory named `name`.
#[verifier::external_body]
pub fn find_memory(store: &mut HostStore, name: &str) -> (r: bool)
    requires
        old(store).has_instance(),
    ensures
        r == old(store).memory_exports().contains(name@),
        r ==> final(store).has_memory(),
        !r ==> final(store).has_memory() == old(store).has_memory(),
        final(store).has_instance(),
        final(store).has_process() == old(store).has_process(),
        final(store).memory_exports() == old(store).memory_exports(),
        final(store).process_exports() == old(store).process_exports(),
        final(store).data_memory_cap() == old(store).data_memory_cap(),
        final(store).memory_cap() == old(store).memory_cap(),
        final(store).calls() == old(store).calls(),
        final(store).last_call() == old(store).last_call(),
{
    match store.instance.unwrap().get_memory(&mut store.store, name) {
        Some(m) => {
            store.memory = Some(m);
            true
        },
        None => false,
    }
}

/// `wasmtime::Instance::get_typed_func::<(i32, i32), i64>` on the store's
/// instance; a function found is kept in the store. It fails when the
/// module exports no such function named `name` (and may fail when memory
/// runs out).
#[verifier::external_body]
pub fn find_process(store: &mut HostStore, name: &str) -> (r: Result<(), wasmtime::Error>)
    requires
        old(store).has_instance(),
    ensures
        r is Ok ==> old(store).process_exports().contains(name@) && final(store).has_process(),
        !old(store).process_exports().contains(name@) ==> r is Err,
        r is Err ==> final(store).has_process() == old(store).has_process(),
        final(store).has_instance(),
        final(store).has_memory() == old(store).has_memory(),
        final(store).memory_exports() == old(store).memory_exports(),
        final(store).process_exports() == old(store).process_exports(),
        final(store).data_memory_cap() == old(store).data_memory_cap(),
        final(store).memory_cap() == old(store).memory_cap(),
        final(store).calls() == old(store).calls(),
        final(store).last_call() == old(store).last_call(),
{
    match store.instance.unwrap().get_typed_func::<(i32, i32), i64>(&mut store.store, name) {
        Ok(f) => {
            store.process = Some(f);
            Ok(())
        },
        Err(e) => Err(e),
    }
}

/// `wasmtime::Memory::data_size` of the store's memory, in bytes.
#[verifier::external_body]
pub fn memory_data_size(store: &HostStore) -> (r: usize)
    requires
        store.has_memory(),
    ensures
        r == store.memory_size(),
{
    store.memory.unwrap().data_size(&store.store)
}

/// `wasmtime::Memory::grow` of the store's memory by `pages` pages; the
/// bytes already in memory stay as they are.
#[verifier::external_body]
pub fn memory_grow(store: &mut HostStore, pages: u64) -> (r: Result<u64, wasmtime::Error>)
    requires
        old(store).has_memory(),
    ensures
        final(store).fuel() == old(store).fuel(),
        final(store).deadline() == old(store).deadline(),
        final(store).written() == old(store).written(),
        final(store).same_setup(&*old(store)),
{
    store.memory.unwrap().grow(&mut store.store, pages)
}

/// `wasmtime::Memory::write` of `bytes` at `offset` into the store's
/// memory. It succeeds exactly when the bytes fit the memory's current
/// size; then those are the bytes last written.
#[verifier::external_body]
pub fn memory_write(store: &mut HostStore, offset: usize, bytes: &[u8]) -> (r: Result<
    (),
    wasmtime::MemoryAccessError,
>)
    requires
        old(store).has_memory(),
    ensures
        r is Ok <==> offset + bytes@.len() <= old(store).memory_size(),
        r is Ok ==> final(store).written() == (offset, bytes@),
        r is Err ==> final(store).written() == old(store).written(),
        final(store).memory_size() == old(store).memory_size(),
        final(store).fuel() == old(store).fuel(),
        final(store).deadline() == old(store).deadline(),
        final(store).same_setup(&*old(store)),
{
    store.memory.unwrap().write(&mut store.store, offset, bytes)
}

/// `wasmtime::TypedFunc::call` of the store's `process` export with the two
/// `i32` arguments. The call is counted and recorded with what the store
/// held when it began and what it returned; the module may consume fuel,
/// grow and write memory, so nothing is claimed of those afterwards.
#[verifier::external_body]
pub fn call_process(store: &mut HostStore, ptr: i32, len: i32) -> (r: Result<i64, wasmtime::Error>)
    requires
        old(store).has_process(),
    ensures
        final(store).calls() == old(store).calls() + 1,
        final(store).last_call() == Some(
            ModuleCall {
                ptr,
                len,
                fuel: old(store).fuel(),
                deadline: old(store).deadline(),
                written: old(store).written(),
                returned: match r {
                    Ok(v) => Some(v),
                    Err(_) => None,
                },
            },
        ),
        final(store).deadline() == old(store).deadline(),
        final(store).has_instance() == old(store).has_instance(),
        final(store).has_memory() == old(store).has_memory(),
        final(store).has_process() == old(store).has_process(),
        final(store).memory_exports() == old(store).memory_exports(),
        final(store).process_exports() == old(store).process_exports(),
        final(store).data_memory_cap() == old(store).data_memory_cap(),
        final(store).memory_cap() == old(store).memory_cap(),
{
    store.process.as_ref().unwrap().call(&mut store.store, (ptr, len))
}

} // verus!
