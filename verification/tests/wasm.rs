use ecdysis::incubator::{
    compile_outcome, fossil_stem, fossil_text, over_budget, CompileRun, GenerationCounter,
    IncubatorError,
};
use ecdysis::wasm::{
    build_engine, classify_trap, compile_module, decode_process_result, gen_000_from_parse, gen_000_wasm,
    pages_needed, HostError, StepOutcome, Unmapped, WasmHost, GEN_000_WAT,
};
use std::path::PathBuf;
use std::time::Duration;

// The engine of `build_engine` reserves several GiB of virtual address space
// per linear memory, which fails where address space is limited; the tests
// run the host on an engine with the same metering but a small reservation.
fn small_engine() -> wasmtime::Engine {
    let mut config = wasmtime::Config::new();
    config.consume_fuel(true);
    config.epoch_interruption(true);
    config.memory_reservation(1 << 25);
    config.memory_guard_size(1 << 16);
    config.memory_reservation_for_growth(1 << 16);
    wasmtime::Engine::new(&config).unwrap()
}

fn host() -> WasmHost {
    let engine = small_engine();
    let bytes = gen_000_wasm().unwrap();
    WasmHost::from_bytes(&engine, &bytes, 1_000_000, 1).unwrap()
}

#[test]
fn build_engine_succeeds() {
    assert!(build_engine().is_ok());
}

#[test]
fn empty_input_returns_root_terminal() {
    let mut h = host();
    assert_eq!(h.process(b"").unwrap(), StepOutcome::Terminal(0));
}

#[test]
fn first_byte_is_unmapped_at_offset_zero() {
    let mut h = host();
    match h.process(b"hello").unwrap() {
        StepOutcome::Unmapped(u) => {
            assert_eq!(u.offset, 0);
            assert_eq!(u.byte, b'h');
        }
        other => panic!("expected Unmapped, got {other:?}"),
    }
}

#[test]
fn unmapped_zero_byte_is_distinguishable_from_terminal_zero() {
    let mut h = host();
    match h.process(&[0u8]).unwrap() {
        StepOutcome::Unmapped(u) => {
            assert_eq!(u.offset, 0);
            assert_eq!(u.byte, 0);
        }
        other => panic!("expected Unmapped, got {other:?}"),
    }
}

#[test]
fn epoch_tick_interrupts_runaway_module() {
    let engine = small_engine();
    let bytes = gen_000_wasm().unwrap();
    let mut h = WasmHost::from_bytes(&engine, &bytes, 1_000_000, 1).unwrap();
    engine.increment_epoch();
    engine.increment_epoch();
    assert!(matches!(h.process(b"x").unwrap(), StepOutcome::Unmapped(_)));
}

#[test]
fn large_input_grows_memory() {
    let mut h = host();
    let input = vec![7u8; 200_000];
    assert_eq!(
        h.process(&input).unwrap(),
        StepOutcome::Unmapped(Unmapped { offset: 0, byte: 7 })
    );
}

#[test]
fn decode_follows_abi() {
    assert_eq!(decode_process_result(0), StepOutcome::Terminal(0));
    assert_eq!(decode_process_result(42), StepOutcome::Terminal(42));
    assert_eq!(decode_process_result(-1), StepOutcome::Unmapped(Unmapped { offset: 0, byte: 0 }));
    // offset 3, byte 0x41 -> packed 0x341 -> -(0x341) - 1
    assert_eq!(
        decode_process_result(-(0x341) - 1),
        StepOutcome::Unmapped(Unmapped { offset: 3, byte: 0x41 })
    );
    assert!(matches!(decode_process_result(i64::MIN), StepOutcome::Unmapped(_)));
}

#[test]
fn pages_needed_rounds_up() {
    assert_eq!(pages_needed(1, 0), 1);
    assert_eq!(pages_needed(65536, 0), 1);
    assert_eq!(pages_needed(65537, 0), 2);
    assert_eq!(pages_needed(200_000, 65536), 3);
}

#[test]
fn module_without_exports_is_abi_error() {
    let engine = small_engine();
    let bytes = wat::parse_str("(module)").unwrap();
    let r = WasmHost::from_bytes(&engine, &bytes, 10, 1);
    match r {
        Err(HostError::Abi(m)) => assert_eq!(m, "missing `memory` export"),
        _ => panic!("expected an ABI error"),
    }
}

#[test]
fn other_runtime_errors_are_not_traps() {
    let e = wasmtime::Error::msg("boom");
    assert!(matches!(classify_trap(e), HostError::Wasmtime(_)));
    let e = wasmtime::Error::new(wasmtime::Trap::OutOfFuel);
    assert!(matches!(classify_trap(e), HostError::OutOfFuel));
    let e = wasmtime::Error::new(wasmtime::Trap::Interrupt);
    assert!(matches!(classify_trap(e), HostError::EpochDeadline));
}

#[test]
fn fossil_stems_are_zero_padded() {
    assert_eq!(fossil_stem(0), "gen_000");
    assert_eq!(fossil_stem(7), "gen_007");
    assert_eq!(fossil_stem(42), "gen_042");
    assert_eq!(fossil_stem(1234), "gen_1234");
    assert_eq!(fossil_stem(u32::MAX), "gen_4294967295");
    assert_eq!(fossil_text("fn main() {}".to_string()), "fn main() {}\n");
}

#[test]
fn compile_outcomes_are_classified() {
    let rs = PathBuf::from("gen_001.rs");
    let wasm = PathBuf::from("gen_001.wasm");
    match compile_outcome(1, rs.clone(), wasm.clone(), CompileRun::Failed { code: None, stderr: "e".to_string() }) {
        Err(IncubatorError::Rustc { status, stderr }) => {
            assert_eq!(status, -1);
            assert_eq!(stderr, "e");
        }
        _ => panic!("expected a compiler error"),
    }
    match compile_outcome(1, rs.clone(), wasm.clone(), CompileRun::Finished { elapsed: Duration::from_secs(30), over_budget: true }) {
        Err(IncubatorError::Slow { wasm: w, elapsed }) => {
            assert_eq!(w, wasm);
            assert_eq!(elapsed, Duration::from_secs(30));
        }
        _ => panic!("expected Slow"),
    }
    let ok = compile_outcome(1, rs.clone(), wasm.clone(), CompileRun::Finished { elapsed: Duration::from_secs(1), over_budget: false }).unwrap();
    assert_eq!(ok.generation, 1);
    assert_eq!(ok.rs_path, rs);
    assert_eq!(ok.wasm_path, wasm);
}

#[test]
fn gen_000_is_the_assembled_bootstrap_text() {
    let bytes = gen_000_wasm().unwrap();
    let expected = wat::parse_str(GEN_000_WAT).unwrap();
    assert_eq!(&bytes[..], &expected[..]);
    assert_eq!(&bytes[..4], b"\0asm");
}

#[test]
fn bootstrap_parse_errors_are_abi_errors() {
    let err = wat::parse_str("(module").unwrap_err();
    let text = err.to_string();
    match gen_000_from_parse(Err(err)) {
        Err(HostError::Abi(m)) => {
            assert!(m.starts_with("gen_000 wat: "));
            assert_eq!(m, format!("gen_000 wat: {text}"));
        }
        _ => panic!("expected an ABI error"),
    }
}

#[test]
fn module_without_process_export_is_abi_error() {
    let engine = small_engine();
    let bytes = wat::parse_str("(module (memory (export \"memory\") 1))").unwrap();
    match WasmHost::from_bytes(&engine, &bytes, 10, 1) {
        Err(HostError::Abi(m)) => assert!(m.starts_with("missing/wrong `process` export: ")),
        _ => panic!("expected an ABI error"),
    }
}

#[test]
fn host_runs_on_the_engine_it_was_built_with() {
    let engine = small_engine();
    let bytes = gen_000_wasm().unwrap();
    let h = WasmHost::from_bytes(&engine, &bytes, 10_000, 1).unwrap();
    assert!(wasmtime::Engine::same(h.engine(), &engine));
}

#[test]
fn linear_memory_is_capped_at_sixteen_mib() {
    let mut h = host();
    let input = vec![7u8; 17 * 1024 * 1024];
    match h.process(&input) {
        Err(HostError::Abi(m)) => assert!(m.starts_with("memory.grow failed: ")),
        _ => panic!("expected the memory cap to refuse the growth"),
    }
}

#[test]
fn text_modules_are_accepted() {
    let engine = small_engine();
    let mut h = WasmHost::from_bytes(&engine, GEN_000_WAT.as_bytes(), 1_000_000, 1).unwrap();
    assert_eq!(h.process(b"").unwrap(), StepOutcome::Terminal(0));
    assert!(compile_module(&engine, b"(module").is_err());
    assert!(matches!(compile_module(&engine, b"(module"), Err(HostError::Wasmtime(_))));
}

#[test]
fn generations_count_up_from_zero() {
    let c = GenerationCounter::new();
    assert_eq!(c.next_generation(), 0);
    assert_eq!(c.next_generation(), 1);
    assert_eq!(c.next_generation(), 2);
}

#[test]
fn over_budget_is_strict() {
    assert!(!over_budget(5, 5));
    assert!(over_budget(6, 5));
    assert!(!over_budget(4, 5));
}
