//! Wasm host: the institutional layer.
//!
//! Each generation's module exports `memory` and
//! `process(ptr, len) -> i64`. A non-negative result is the terminal node
//! id reached; a negative result `v` packs an unmapped position as
//! `packed = -v - 1`, `offset = packed >> 8`, `byte = packed & 0xff`. The
//! `+ 1` keeps `Unmapped { offset: 0, byte: 0 }` strictly negative, apart
//! from the terminal node `0`.

use vstd::prelude::*;
use std::sync::Arc;
use wasmtime::{Config, Engine};
use crate::host_store::{
    call_process, find_memory, find_process, instantiate, limits_build, limits_builder_new,
    limits_memory_size, memory_data_size, memory_grow, memory_write, module_exports, module_new,
    store_new, store_set_epoch_deadline, store_set_fuel, store_use_own_limits, HostStore, ModuleCall,
    WasmModule,
};

verus! {

#[verifier::external_type_specification]
#[verifier::external_body]
pub struct ExEngine(wasmtime::Engine);

#[verifier::external_type_specification]
#[verifier::external_body]
pub struct ExModule(wasmtime::Module);

#[verifier::external_type_specification]
#[verifier::external_body]
pub struct ExConfig(wasmtime::Config);

#[verifier::external_type_specification]
#[verifier::external_body]
#[verifier::reject_recursive_types(T)]
pub struct ExStore<T: 'static>(wasmtime::Store<T>);

#[verifier::external_type_specification]
#[verifier::external_body]
pub struct ExMemory(wasmtime::Memory);

#[verifier::external_type_specification]
#[verifier::external_body]
#[verifier::reject_recursive_types(Params)]
#[verifier::reject_recursive_types(Results)]
pub struct ExTypedFunc<Params, Results>(wasmtime::TypedFunc<Params, Results>);

#[verifier::external_type_specification]
#[verifier::external_body]
pub struct ExInstance(wasmtime::Instance);

#[verifier::external_type_specification]
#[verifier::external_body]
pub struct ExStoreLimits(wasmtime::StoreLimits);

#[verifier::external_type_specification]
#[verifier::external_body]
pub struct ExStoreLimitsBuilder(wasmtime::StoreLimitsBuilder);

#[verifier::external_type_specification]
#[verifier::external_body]
pub struct ExWasmError(wasmtime::Error);

#[verifier::external_type_specification]
#[verifier::external_body]
pub struct ExMemoryAccessError(wasmtime::MemoryAccessError);

#[verifier::external_type_specification]
#[verifier::external_body]
pub struct ExWatError(wat::Error);

/// Linear-memory cap per store, in bytes.
pub const MEMORY_LIMIT_BYTES: usize = 16777216;

/// Size of a wasm page in bytes.
pub const WASM_PAGE_BYTES: usize = 65536;

/// An unmapped position reported by a module.
#[derive(Debug, Clone, Copy, PartialEq, Eq, Structural)]
pub struct Unmapped {
    pub offset: usize,
    pub byte: u8,
}

/// Outcome of a single `process()` call.
#[derive(Debug, Clone, Copy, PartialEq, Eq, Structural)]
pub enum StepOutcome {
    /// The module returned a non-negative node id.
    Terminal(u64),
    /// The module returned a packed negative value.
    Unmapped(Unmapped),
}

#[derive(Debug)]
pub enum HostError {
    /// `process()` exhausted its fuel budget before reaching a terminal state.
    OutOfFuel,
    /// The epoch deadline passed before `process()` returned.
    EpochDeadline,
    /// The module lacks a required export, or the input did not fit.
    Abi(String),
    /// Any other failure reported by the runtime.
    Wasmtime(wasmtime::Error),
}

impl From<wasmtime::Error> for HostError {
    fn from(e: wasmtime::Error) -> (r: Self) {
        HostError::Wasmtime(e)
    }
}

impl vstd::std_specs::convert::FromSpecImpl<wasmtime::Error> for HostError {
    open spec fn obeys_from_spec() -> bool {
        true
    }

    open spec fn from_spec(v: wasmtime::Error) -> Self {
        HostError::Wasmtime(v)
    }
}

/// Which trap, if any, a runtime error stands for.
#[derive(Debug, Clone, Copy, PartialEq, Eq, Structural)]
pub enum TrapKind {
    OutOfFuel,
    Interrupt,
    Other,
}

/// The outcome a `process()` result `v` encodes.
pub open spec fn decoded(v: i64) -> StepOutcome {
    if v >= 0 {
        StepOutcome::Terminal(v as u64)
    } else {
        let packed = -(v + 1);
        StepOutcome::Unmapped(Unmapped { offset: (packed / 256) as usize, byte: (packed % 256) as u8 })
    }
}

/// The `process()` result that encodes `Unmapped { offset, byte }`.
pub open spec fn encoded_unmapped(offset: int, byte: int) -> int {
    -(offset * 256 + byte) - 1
}

/// Decode the `i64` a module's `process` returned.
pub fn decode_process_result(v: i64) -> (r: StepOutcome)
    ensures
        r == decoded(v),
{
    if v >= 0 {
        StepOutcome::Terminal(v as u64)
    } else {
        let packed: u64 = (-(v + 1)) as u64;
        let byte: u8 = (packed % 256) as u8;
        let offset: usize = (packed / 256) as usize;
        StepOutcome::Unmapped(Unmapped { offset, byte })
    }
}

/// Decoding inverts the encoding: every unmapped position whose packed
/// value fits an `i64` decodes back to itself, every non-negative result to
/// a terminal node, and the two never meet.
pub proof fn lemma_decode_encode(offset: usize, byte: u8)
    requires
        offset as int * 256 + byte as int <= i64::MAX,
    ensures
        decoded(encoded_unmapped(offset as int, byte as int) as i64) == StepOutcome::Unmapped(
            Unmapped { offset, byte },
        ),
        encoded_unmapped(offset as int, byte as int) < 0,
{
    let packed = offset as int * 256 + byte as int;
    assert(packed / 256 == offset && packed % 256 == byte) by (nonlinear_arith)
        requires
            packed == offset as int * 256 + byte as int,
            0 <= byte < 256,
            0 <= offset,
    ;
}

/// Non-negative results are terminal nodes.
pub proof fn lemma_decode_terminal(v: i64)
    requires
        v >= 0,
    ensures
        decoded(v) == StepOutcome::Terminal(v as u64),
{
}

/// Pages to grow a memory of `have` bytes by so it holds `needed` bytes.
pub fn pages_needed(needed: usize, have: usize) -> (r: u64)
    requires
        have < needed <= i32::MAX,
    ensures
        r as int == (needed - have + 65535) / 65536,
        have + r * 65536 >= needed,
{
    let extra = ((needed - have) + 0xFFFF) / 0x10000;
    assert((needed - have + 65535) / 65536 * 65536 >= needed - have) by (nonlinear_arith)
        requires
            needed - have > 0,
    ;
    extra as u64
}

/// The error a runtime failure of kind `kind` stands for.
pub fn error_for_trap(kind: TrapKind, e: wasmtime::Error) -> (r: HostError)
    ensures
        kind == TrapKind::OutOfFuel ==> r is OutOfFuel,
        kind == TrapKind::Interrupt ==> r is EpochDeadline,
        kind == TrapKind::Other ==> r == HostError::Wasmtime(e),
{
    match kind {
        TrapKind::OutOfFuel => HostError::OutOfFuel,
        TrapKind::Interrupt => HostError::EpochDeadline,
        TrapKind::Other => HostError::Wasmtime(e),
    }
}

/// Classify a runtime failure of a `process()` call: running out of fuel
/// and epoch interruption are told apart from every other error.
pub fn classify_trap(e: wasmtime::Error) -> (r: HostError)
    ensures
        r is OutOfFuel || r is EpochDeadline || r == HostError::Wasmtime(e),
{
    let kind = trap_kind(&e);
    error_for_trap(kind, e)
}

/// `wasmtime::Error::downcast_ref::<wasmtime::Trap>`, reduced to the two
/// traps the host distinguishes. Nothing is claimed of which kind comes back.
#[verifier::external_body]
fn trap_kind(e: &wasmtime::Error) -> (r: TrapKind) {
    match e.downcast_ref::<wasmtime::Trap>() {
        Some(wasmtime::Trap::OutOfFuel) => TrapKind::OutOfFuel,
        Some(wasmtime::Trap::Interrupt) => TrapKind::Interrupt,
        _ => TrapKind::Other,
    }
}

/// A configuration, with the two settings the host relies on.
struct HostConfig {
    config: Config,
    /// Whether fuel metering is enabled.
    consume_fuel: Ghost<bool>,
    /// Whether epoch interruption is enabled.
    epoch_interruption: Ghost<bool>,
}

/// An engine, with the two settings of the configuration it was built from.
pub struct MeteredEngine {
    engine: Engine,
    consume_fuel: Ghost<bool>,
    epoch_interruption: Ghost<bool>,
}

impl MeteredEngine {
    /// The engine meters the fuel that running code consumes.
    pub closed spec fn meters_fuel(&self) -> bool {
        self.consume_fuel@
    }

    /// The engine interrupts running code once a store's epoch deadline
    /// has passed.
    pub closed spec fn interrupts_on_epochs(&self) -> bool {
        self.epoch_interruption@
    }

    /// The engine handle itself.
    pub closed spec fn handle(&self) -> Engine {
        self.engine
    }

    /// The engine handle.
    pub fn engine(&self) -> (r: &Engine)
        ensures
            *r == self.handle(),
    {
        &self.engine
    }

    /// The engine handle, taken out.
    pub fn into_engine(self) -> (r: Engine)
        ensures
            r == self.handle(),
    {
        self.engine
    }
}

/// `wasmtime::Config::new`: a default configuration.
#[verifier::external_body]
fn config_new() -> Config {
    Config::new()
}

/// `wasmtime::Config::consume_fuel`: fuel metering is then `enable`.
#[verifier::external_body]
fn config_consume_fuel(config: &mut HostConfig, enable: bool)
    ensures
        final(config).consume_fuel@ == enable,
        final(config).epoch_interruption@ == old(config).epoch_interruption@,
{
    config.config.consume_fuel(enable);
}

/// `wasmtime::Config::epoch_interruption`: epoch interruption is then
/// `enable`.
#[verifier::external_body]
fn config_epoch_interruption(config: &mut HostConfig, enable: bool)
    ensures
        final(config).epoch_interruption@ == enable,
        final(config).consume_fuel@ == old(config).consume_fuel@,
{
    config.config.epoch_interruption(enable);
}

/// `wasmtime::Engine::new`; whether it succeeds depends on the host. An
/// engine it builds has the configuration's settings.
#[verifier::external_body]
fn engine_new(config: &HostConfig) -> (r: Result<MeteredEngine, wasmtime::Error>)
    ensures
        r matches Ok(m) ==> m.consume_fuel@ == config.consume_fuel@ && m.epoch_interruption@
            == config.epoch_interruption@,
{
    match Engine::new(&config.config) {
        Ok(engine) => Ok(
            MeteredEngine {
                engine,
                consume_fuel: config.consume_fuel,
                epoch_interruption: config.epoch_interruption,
            },
        ),
        Err(e) => Err(e),
    }
}

/// `<wasmtime::Engine as Clone>::clone`: another handle to the same engine.
/// Its documentation says cloning creates no new engine, only a new
/// reference to the existing one; the clone is stated to be that engine.
#[verifier::external_body]
fn engine_clone(engine: &Engine) -> (r: Engine)
    ensures
        r == *engine,
{
    engine.clone()
}

/// `format!("{prefix}{e}")` of a runtime error: the prefix followed by the
/// error's `Display` text, of which nothing is claimed.
#[verifier::external_body]
fn describe_wasm_error(prefix: &str, e: &wasmtime::Error) -> (r: String)
    ensures
        r@.len() >= prefix@.len(),
        r@.take(prefix@.len() as int) == prefix@,
{
    format!("{prefix}{e}")
}

/// `format!("{prefix}{e}")` of a text-format error, as above.
#[verifier::external_body]
fn describe_wat_error(prefix: &str, e: &wat::Error) -> (r: String)
    ensures
        r@.len() >= prefix@.len(),
        r@.take(prefix@.len() as int) == prefix@,
{
    format!("{prefix}{e}")
}

/// The binary module that `wat::parse_str` makes of a text `text`, or
/// `None` where it reports an error.
pub uninterp spec fn wat_binary(text: Seq<char>) -> Option<Seq<u8>>;

/// `wat::parse_str`: assemble WebAssembly text into a binary module. The
/// result is a function of the text alone, named [`wat_binary`].
#[verifier::external_body]
fn wat_parse_str(text: &str) -> (r: Result<Vec<u8>, wat::Error>)
    ensures
        match r {
            Ok(v) => wat_binary(text@) == Some(v@),
            Err(_) => wat_binary(text@) is None,
        },
{
    wat::parse_str(text)
}

/// `<Arc<[u8]> as From<Vec<u8>>>::from`: the same bytes, shared.
#[verifier::external_body]
fn arc_from_vec(v: Vec<u8>) -> (r: Arc<[u8]>)
    ensures
        r@ == v@,
{
    Arc::from(v)
}

/// Build the engine shared by every FSM: fuel metering and epoch
/// interruption are both enabled.
pub fn build_engine() -> (r: Result<MeteredEngine, HostError>)
    ensures
        r matches Ok(m) ==> m.meters_fuel() && m.interrupts_on_epochs(),
        r matches Err(e) ==> e is Wasmtime,
{
    let mut config = HostConfig {
        config: config_new(),
        consume_fuel: Ghost(vstd::pervasive::arbitrary()),
        epoch_interruption: Ghost(vstd::pervasive::arbitrary()),
    };
    config_consume_fuel(&mut config, true);
    config_epoch_interruption(&mut config, true);
    match engine_new(&config) {
        Ok(e) => Ok(e),
        Err(e) => Err(HostError::Wasmtime(e)),
    }
}

/// Compile a module (binary or text) for `engine`. Whether the bytes
/// compile is the runtime's verdict; its error is carried as is. A module
/// compiled has the exports the bytes describe.
pub fn compile_module(engine: &Engine, wasm_bytes: &[u8]) -> (r: Result<WasmModule, HostError>)
    ensures
        r matches Err(e) ==> e is Wasmtime,
        r matches Ok(m) ==> m.memory_exports() == module_exports(wasm_bytes@).0
            && m.process_exports() == module_exports(wasm_bytes@).1,
{
    match module_new(engine, wasm_bytes) {
        Ok(m) => Ok(m),
        Err(e) => Err(HostError::Wasmtime(e)),
    }
}

/// The generation-0 bootstrap module, as text. For an empty input it
/// returns the root node `0`; for any other input it reports the first
/// byte as unmapped at offset `0`, so the first packet triggers growth.
pub const GEN_000_WAT: &'static str = "
(module
  (memory (export \"memory\") 1)
  (func (export \"process\") (param $ptr i32) (param $len i32) (result i64)
    ;; if len == 0 -> return 0 (root NodeId, success).
    (if (i32.eqz (local.get $len))
      (then (return (i64.const 0))))
    ;; packed = (offset=0 << 8) | byte0 = byte0
    ;; result = -(packed + 1)
    (i64.sub
      (i64.const 0)
      (i64.add
        (i64.extend_i32_u (i32.load8_u (local.get $ptr)))
        (i64.const 1)))))
";

/// What [`gen_000_wasm`] makes of the result of assembling the bootstrap
/// text: the bytes, or an ABI error naming the assembler's complaint.
pub fn gen_000_from_parse(parsed: Result<Vec<u8>, wat::Error>) -> (r: Result<Arc<[u8]>, HostError>)
    ensures
        match parsed {
            Ok(v) => (r matches Ok(b) && b@ == v@),
            Err(_) => (r matches Err(HostError::Abi(m)) && m@.take("gen_000 wat: "@.len() as int)
                == "gen_000 wat: "@),
        },
{
    match parsed {
        Ok(v) => Ok(arc_from_vec(v)),
        Err(e) => Err(HostError::Abi(describe_wat_error("gen_000 wat: ", &e))),
    }
}

/// Assemble the bootstrap module [`GEN_000_WAT`] into a binary.
pub fn gen_000_wasm() -> (r: Result<Arc<[u8]>, HostError>)
    ensures
        match wat_binary(GEN_000_WAT@) {
            Some(b) => (r matches Ok(v) && v@ == b),
            None => r matches Err(HostError::Abi(_)),
        },
{
    gen_000_from_parse(wat_parse_str(GEN_000_WAT))
}

/// The call of `process` that runs the module on exactly `input`: with
/// `ptr` 0 and `len` the input's length, `input` last written at offset 0,
/// and a full fuel grant and a fresh deadline.
pub open spec fn runs_on_input(c: ModuleCall, input: Seq<u8>, fuel: u64, deadline: u64) -> bool {
    &&& c.ptr == 0
    &&& c.len == input.len()
    &&& c.written == (0usize, input)
    &&& c.fuel == fuel
    &&& c.deadline == deadline
}

/// What `process` answers for a call recorded as `c`: the decoded value
/// when the module returned one, otherwise a trap (out of fuel, past the
/// epoch deadline, or another runtime error).
pub open spec fn answer_of_call(c: ModuleCall, r: Result<StepOutcome, HostError>) -> bool {
    match c.returned {
        Some(v) => r == Ok::<StepOutcome, HostError>(decoded(v)),
        None => r matches Err(e) && (e is OutOfFuel || e is EpochDeadline || e is Wasmtime),
    }
}

/// The last call ran the module on exactly `input`, and `r` is its answer.
pub open spec fn called_on_input(
    last: Option<ModuleCall>,
    input: Seq<u8>,
    fuel: u64,
    deadline: u64,
    r: Result<StepOutcome, HostError>,
) -> bool {
    match last {
        Some(c) => runs_on_input(c, input, fuel, deadline) && answer_of_call(c, r),
        None => false,
    }
}

/// The errors `process` gives without calling the module: an input longer
/// than an `i32`, no module loaded, a refused memory growth, an input that
/// does not fit the memory, or a refused fuel grant.
pub open spec fn error_before_call(r: Result<StepOutcome, HostError>) -> bool {
    match r {
        Err(HostError::Abi(m)) => m@ == "input larger than i32"@ || m@ == "no module loaded"@
            || m@ == "input does not fit linear memory"@ || m@.take(
            "memory.grow failed: "@.len() as int,
        ) == "memory.grow failed: "@,
        Err(HostError::Wasmtime(_)) => true,
        _ => false,
    }
}

/// A loaded module's instance, memory and typed `process` handle, kept in
/// one store.
pub struct WasmHost {
    engine: Engine,
    store: HostStore,
    /// Fuel granted to every `process()` call.
    fuel_per_call: u64,
    /// Epoch ticks granted to every `process()` call.
    epoch_deadline: u64,
}

impl WasmHost {
    /// Fuel granted to every call.
    pub closed spec fn fuel(&self) -> u64 {
        self.fuel_per_call
    }

    /// Epoch ticks granted to every call.
    pub closed spec fn deadline(&self) -> u64 {
        self.epoch_deadline
    }

    /// The engine this host runs on.
    pub closed spec fn runs_on(&self) -> Engine {
        self.engine
    }

    /// The cap on the store's linear memory, in bytes.
    pub closed spec fn memory_cap(&self) -> Option<usize> {
        self.store.memory_cap()
    }

    /// The memory and the `process` export have both been found.
    pub closed spec fn loaded(&self) -> bool {
        self.store.has_memory() && self.store.has_process()
    }

    /// The size of the linear memory, in bytes.
    pub closed spec fn memory_size(&self) -> nat {
        self.store.memory_size()
    }

    /// How many calls of the module's `process` export have been made.
    pub closed spec fn calls(&self) -> nat {
        self.store.calls()
    }

    /// The last call of the module's `process` export, if any.
    pub closed spec fn last_call(&self) -> Option<ModuleCall> {
        self.store.last_call()
    }

    /// Load a module from raw binary (or text) bytes.
    pub fn from_bytes(engine: &Engine, wasm_bytes: &[u8], fuel_per_call: u64, epoch_deadline: u64) -> (r:
        Result<Self, HostError>)
        ensures
            r matches Ok(h) ==> h.fuel() == fuel_per_call && h.deadline() == epoch_deadline
                && h.runs_on() == *engine && h.memory_cap() == Some(MEMORY_LIMIT_BYTES)
                && h.loaded() && h.calls() == 0 && h.last_call() is None
                && module_exports(wasm_bytes@).0.contains("memory"@)
                && module_exports(wasm_bytes@).1.contains("process"@),
            r matches Err(HostError::Abi(m)) ==> (m@ == "missing `memory` export"@ && !module_exports(
                wasm_bytes@,
            ).0.contains("memory"@)) || (m@.take("missing/wrong `process` export: "@.len() as int)
                == "missing/wrong `process` export: "@ && module_exports(wasm_bytes@).0.contains(
                "memory"@,
            )),
    {
        let module = compile_module(engine, wasm_bytes)?;
        Self::from_module(engine, &module, fuel_per_call, epoch_deadline)
    }

    /// Instantiate `module` in a fresh store capped at
    /// [`MEMORY_LIMIT_BYTES`] of linear memory, with the given per-call
    /// fuel and epoch budgets. The module must export a memory named
    /// `memory` and a function `process` of type `(i32, i32) -> i64`.
    pub fn from_module(engine: &Engine, module: &WasmModule, fuel_per_call: u64, epoch_deadline: u64) -> (r:
        Result<Self, HostError>)
        ensures
            r matches Ok(h) ==> h.fuel() == fuel_per_call && h.deadline() == epoch_deadline
                && h.runs_on() == *engine && h.memory_cap() == Some(MEMORY_LIMIT_BYTES)
                && h.loaded() && h.calls() == 0 && h.last_call() is None
                && module.memory_exports().contains("memory"@)
                && module.process_exports().contains("process"@),
            r matches Err(HostError::Abi(m)) ==> (m@ == "missing `memory` export"@
                && !module.memory_exports().contains("memory"@)) || (m@.take(
                "missing/wrong `process` export: "@.len() as int,
            ) == "missing/wrong `process` export: "@ && module.memory_exports().contains(
                "memory"@,
            )),
    {
        proof {
            reveal_strlit("memory");
            reveal_strlit("process");
        }
        let data = limits_build(limits_memory_size(limits_builder_new(), MEMORY_LIMIT_BYTES));
        let mut store = store_new(engine, data);
        store_use_own_limits(&mut store);
        store_set_epoch_deadline(&mut store, epoch_deadline);
        match store_set_fuel(&mut store, fuel_per_call) {
            Ok(()) => {},
            Err(e) => return Err(HostError::Wasmtime(e)),
        }
        match instantiate(&mut store, module) {
            Ok(()) => {},
            Err(e) => return Err(HostError::Wasmtime(e)),
        }
        if !find_memory(&mut store, "memory") {
            return Err(HostError::Abi("missing `memory` export".to_owned()));
        }
        match find_process(&mut store, "process") {
            Ok(()) => {},
            Err(e) => return Err(
                HostError::Abi(describe_wasm_error("missing/wrong `process` export: ", &e)),
            ),
        }
        Ok(WasmHost { engine: engine_clone(engine), store, fuel_per_call, epoch_deadline })
    }

    /// The engine this host runs on.
    pub fn engine(&self) -> (r: &Engine)
        ensures
            *r == self.runs_on(),
    {
        &self.engine
    }

    /// Feed one input buffer through the module: write it into linear
    /// memory at offset 0 (growing the memory if needed), refill fuel and
    /// epoch deadline, call `process(0, len)` and decode its result.
    pub fn process(&mut self, input: &[u8]) -> (r: Result<StepOutcome, HostError>)
        ensures
            input@.len() > i32::MAX <==> (r matches Err(HostError::Abi(m)) && m@
                == "input larger than i32"@),
            !old(self).loaded() && input@.len() <= i32::MAX ==> (r matches Err(HostError::Abi(m))
                && m@ == "no module loaded"@),
            final(self).calls() == old(self).calls() || final(self).calls() == old(self).calls()
                + 1,
            final(self).calls() == old(self).calls() + 1 ==> called_on_input(
                final(self).last_call(),
                input@,
                old(self).fuel(),
                old(self).deadline(),
                r,
            ),
            final(self).calls() == old(self).calls() ==> error_before_call(r),
            input@.len() > i32::MAX || !old(self).loaded() ==> final(self).calls()
                == old(self).calls(),
            (r matches Err(HostError::Abi(m)) && m@ == "input does not fit linear memory"@)
                ==> input@.len() > final(self).memory_size(),
            final(self).loaded() == old(self).loaded(),
            final(self).fuel() == old(self).fuel(),
            final(self).deadline() == old(self).deadline(),
            final(self).runs_on() == old(self).runs_on(),
            final(self).memory_cap() == old(self).memory_cap(),
    {
        proof {
            reveal_strlit("input larger than i32");
            reveal_strlit("no module loaded");
            reveal_strlit("input does not fit linear memory");
            reveal_strlit("memory.grow failed: ");
        }
        if input.len() > 2147483647 {
            proof {
                assert("input larger than i32"@.len() != "input does not fit linear memory"@.len());
            }
            return Err(HostError::Abi("input larger than i32".to_owned()));
        }
        if !self.store.is_loaded() {
            proof {
                assert("no module loaded"@.len() != "input larger than i32"@.len());
                assert("no module loaded"@.len() != "input does not fit linear memory"@.len());
            }
            return Err(HostError::Abi("no module loaded".to_owned()));
        }
        let needed = input.len();
        let have = memory_data_size(&self.store);
        if needed > have {
            let pages = pages_needed(needed, have);
            match memory_grow(&mut self.store, pages) {
                Ok(_) => {},
                Err(e) => {
                    let m = describe_wasm_error("memory.grow failed: ", &e);
                    proof {
                        assert(m@.take("memory.grow failed: "@.len() as int)[0] == m@[0]);
                        assert(m@[0] != "input larger than i32"@[0]);
                    }
                    return Err(HostError::Abi(m));
                },
            }
        }
        match memory_write(&mut self.store, 0, input) {
            Ok(()) => {},
            Err(_) => {
                proof {
                    assert("input does not fit linear memory"@.len() != "input larger than i32"@.len());
                }
                return Err(HostError::Abi("input does not fit linear memory".to_owned()));
            },
        }
        match store_set_fuel(&mut self.store, self.fuel_per_call) {
            Ok(()) => {},
            Err(e) => return Err(HostError::Wasmtime(e)),
        }
        store_set_epoch_deadline(&mut self.store, self.epoch_deadline);
        match call_process(&mut self.store, 0, needed as i32) {
            Ok(v) => {
                let o = decode_process_result(v);
                assert(o == decoded(v));
                Ok(o)
            },
            Err(e) => {
                let h = classify_trap(e);
                Err(h)
            },
        }
    }
}

} // verus!
