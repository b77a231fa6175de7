//! Cooperative per-FSM allocation meter and the stagnation heartbeat.
//!
//! Both are shared between concurrently running tasks through atomics, so a
//! value read from them depends on what the other tasks did meanwhile.

use vstd::prelude::*;
use std::sync::atomic::{AtomicBool, AtomicU64, AtomicUsize};

verus! {

/// Whether an allocation of `n` bytes on top of `prev` already-metered bytes
/// stays within `ceiling`.
pub fn fits_within(prev: usize, n: usize, ceiling: usize) -> (r: bool)
    ensures
        r == (prev + n <= ceiling),
{
    match prev.checked_add(n) {
        Some(total) => total <= ceiling,
        None => false,
    }
}

/// Per-FSM arena: a soft, cooperative allocation meter. When the metered
/// total crosses the ceiling the FSM is considered dead.
#[derive(Debug)]
pub struct FsmArena {
    used: AtomicUsize,
    ceiling: usize,
}

impl FsmArena {
    /// The ceiling this arena was made with.
    pub closed spec fn limit(&self) -> usize {
        self.ceiling
    }

    pub fn new(ceiling: usize) -> (r: Self)
        ensures
            r.limit() == ceiling,
    {
        FsmArena { used: AtomicUsize::new(0), ceiling }
    }

    /// Account for `n` more bytes. Returns `false` once the metered total
    /// (the bytes metered before this call, as the atomic counter reports
    /// them, plus `n`) exceeds the ceiling; the caller must then surrender.
    pub fn allocate(&self, n: usize) -> (r: bool)
        ensures
            r ==> n <= self.limit(),
            n > self.limit() ==> !r,
    {
        let metered: (usize, bool) = self.allocate_metered(n);
        metered.1
    }

    /// [`Self::allocate`], also returning the bytes metered before this
    /// call as the atomic counter reported them: the answer is exactly
    /// whether those bytes plus `n` stay within the ceiling.
    pub fn allocate_metered(&self, n: usize) -> (r: (usize, bool))
        ensures
            r.1 == (r.0 + n <= self.limit()),
    {
        let prev = self.used.fetch_add(n, std::sync::atomic::Ordering::Relaxed);
        (prev, fits_within(prev, n, self.ceiling))
    }

    /// The bytes metered so far (as concurrently observed).
    pub fn used(&self) -> usize {
        self.used.load(std::sync::atomic::Ordering::Relaxed)
    }
}

/// Heartbeat the Reaper reads to detect stagnation: the FSM bumps it once
/// per loop iteration.
#[derive(Debug)]
pub struct Heartbeat {
    counter: AtomicU64,
}

impl Heartbeat {
    pub fn bump(&self) {
        self.counter.fetch_add(1, std::sync::atomic::Ordering::Relaxed);
    }

    pub fn snapshot(&self) -> u64 {
        self.counter.load(std::sync::atomic::Ordering::Relaxed)
    }
}

impl Default for Heartbeat {
    fn default() -> Self {
        Heartbeat { counter: AtomicU64::new(0) }
    }
}

/// Single-slot guard that keeps at most one rebirth of an FSM in flight.
#[derive(Debug)]
pub struct RebirthSlot {
    busy: AtomicBool,
}

impl RebirthSlot {
    /// A free slot.
    pub fn new() -> Self {
        RebirthSlot { busy: AtomicBool::new(false) }
    }

    /// Claim the slot. Returns `false` when another rebirth holds it.
    pub fn try_claim(&self) -> bool {
        match self.busy.compare_exchange(
            false,
            true,
            std::sync::atomic::Ordering::AcqRel,
            std::sync::atomic::Ordering::Relaxed,
        ) {
            Ok(_) => true,
            Err(_) => false,
        }
    }

    /// Release the slot, whether the rebirth succeeded or not.
    pub fn release(&self) {
        self.busy.store(false, std::sync::atomic::Ordering::Release);
    }
}

} // verus!
