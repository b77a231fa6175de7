use ecdysis::firehose::Health;
use ecdysis::arena::{fits_within, FsmArena, Heartbeat, RebirthSlot};
use ecdysis::graph::{StateGraph, ROOT};
use ecdysis::kernel::{
    atrophied, excrete, feeding_for, on_firehose_byte, ByteStep, Maintenance, grow_ephemeral, handle_bus, irritation_response,
    maintenance_due, needs_reinstantiation, rebirth_worthwhile, Feeding, BusFrame, BusRecvError, GraphResponse, Growth, ShortcutLearner,
    SHORTCUT_LEARN_THRESHOLD,
};
use ecdysis::wasm::{HostError, StepOutcome, Unmapped};

#[test]
fn learner_installs_shortcut_after_threshold_flushes() {
    let mut l = ShortcutLearner::new();
    for i in 0..SHORTCUT_LEARN_THRESHOLD {
        l.observe_peer_byte(0xFF);
        let r = l.on_flush(0);
        if i + 1 < SHORTCUT_LEARN_THRESHOLD {
            assert_eq!(r, None);
            assert_eq!(l.correlation(0xFF), i + 1);
        } else {
            assert_eq!(r, Some(0xFF));
        }
    }
    assert_eq!(l.shortcut(), Some(0xFF));
    // Once installed nothing more is learned.
    l.observe_peer_byte(0x01);
    assert_eq!(l.on_flush(0), None);
    assert_eq!(l.correlation(0x01), 0);
}

#[test]
fn learner_prefers_smallest_byte_crossing_in_same_flush() {
    let mut l = ShortcutLearner::new();
    for _ in 0..SHORTCUT_LEARN_THRESHOLD {
        l.observe_peer_byte(0x90);
        l.observe_peer_byte(0x10);
        l.on_flush(3);
    }
    assert_eq!(l.shortcut(), Some(0x10));
    assert_eq!(l.correlation(0x90), SHORTCUT_LEARN_THRESHOLD);
}

#[test]
fn check_fire_counts_only_frames_with_shortcut() {
    let mut l = ShortcutLearner::new();
    let hit = BusFrame { origin: 1, bytes: vec![1, 2, 0xFF] };
    assert!(!l.check_fire(0, &hit));
    for _ in 0..SHORTCUT_LEARN_THRESHOLD {
        l.observe_peer_byte(0xFF);
        l.on_flush(0);
    }
    let miss = BusFrame { origin: 1, bytes: vec![1, 2, 3] };
    assert!(l.check_fire(0, &hit));
    assert!(!l.check_fire(0, &miss));
    assert!(l.check_fire(0, &hit));
    assert_eq!(l.firings(), 2);
}

#[test]
fn handle_bus_drops_buffer_when_shortcut_fires() {
    let mut l = ShortcutLearner::new();
    let mut excretion = vec![9u8, 9, 9];
    let frame = BusFrame { origin: 2, bytes: vec![0xFF] };
    for _ in 0..SHORTCUT_LEARN_THRESHOLD {
        handle_bus(0, Ok(frame.clone()), &mut excretion, &mut l);
        l.on_flush(0);
    }
    assert_eq!(l.shortcut(), Some(0xFF));
    assert_eq!(excretion, vec![9u8, 9, 9]);
    handle_bus(0, Ok(frame.clone()), &mut excretion, &mut l);
    assert!(excretion.is_empty());
    assert_eq!(l.firings(), 1);
}

#[test]
fn handle_bus_ignores_own_frames_and_errors() {
    let mut l = ShortcutLearner::new();
    let mut excretion = vec![1u8];
    handle_bus(4, Ok(BusFrame { origin: 4, bytes: vec![7] }), &mut excretion, &mut l);
    handle_bus(4, Err(BusRecvError::Lagged(3)), &mut excretion, &mut l);
    handle_bus(4, Err(BusRecvError::Closed), &mut excretion, &mut l);
    l.on_flush(4);
    assert_eq!(l.correlation(7), 0);
    assert_eq!(excretion, vec![1u8]);
}

#[test]
fn arena_allocation_respects_ceiling() {
    let a = FsmArena::new(10);
    assert!(a.allocate(4));
    assert!(a.allocate(6));
    assert!(!a.allocate(1));
    assert_eq!(a.used(), 11);
    let b = FsmArena::new(3);
    assert!(!b.allocate(usize::MAX));
    assert!(fits_within(5, 5, 10));
    assert!(!fits_within(usize::MAX, 1, usize::MAX));
}

#[test]
fn heartbeat_counts_bumps() {
    let h = Heartbeat::default();
    assert_eq!(h.snapshot(), 0);
    h.bump();
    h.bump();
    assert_eq!(h.snapshot(), 2);
}

#[test]
fn rebirth_slot_is_single() {
    let s = RebirthSlot::new();
    assert!(s.try_claim());
    assert!(!s.try_claim());
    s.release();
    assert!(s.try_claim());
}

#[test]
fn growth_at_unmapped_offset_maps_the_byte() {
    let mut g: StateGraph<f64> = StateGraph::new();
    let a = g.grow(ROOT, b'a', 1.0);
    let bytes = b"abc";
    let u = g.traverse(bytes).unwrap_err();
    assert_eq!(u.offset, 1);
    let grown = grow_ephemeral(&mut g, bytes, u.offset, 1.0);
    assert_eq!(grown, Growth::Grew(2));
    assert_eq!(g.traverse(b"ab"), Ok(2));
    assert_eq!(g.edge(a, b'b').unwrap().target, 2);
    assert_eq!(grow_ephemeral(&mut g, bytes, 1, 1.0), Growth::Reinforce { from: a, byte: b'b' });
    assert_eq!(grow_ephemeral(&mut g, bytes, 3, 1.0), Growth::Skipped);
}

#[test]
fn growth_after_unmapped_prefix_starts_at_root() {
    let mut g: StateGraph<u32> = StateGraph::new();
    assert_eq!(grow_ephemeral(&mut g, b"xy", 1, 0), Growth::Grew(1));
    assert_eq!(g.edge(ROOT, b'y').unwrap().target, 1);
}

#[test]
fn irritation_response_follows_outcome() {
    assert_eq!(irritation_response(&Ok(StepOutcome::Terminal(4))), GraphResponse::RecordHits);
    assert_eq!(
        irritation_response(&Ok(StepOutcome::Unmapped(Unmapped { offset: 5, byte: 1 }))),
        GraphResponse::GrowAt(5)
    );
    assert_eq!(irritation_response(&Err(HostError::OutOfFuel)), GraphResponse::GrowAt(0));
    assert_eq!(irritation_response(&Err(HostError::EpochDeadline)), GraphResponse::GrowAt(0));
    assert_eq!(
        irritation_response(&Err(HostError::Abi("x".to_string()))),
        GraphResponse::Nothing
    );
}

#[test]
fn maintenance_schedule() {
    let m = maintenance_due(32);
    assert!(m.harvest && !m.rebirth);
    let m = maintenance_due(256);
    assert!(m.harvest && m.rebirth);
    let m = maintenance_due(33);
    assert!(!m.harvest && !m.rebirth);
    assert!(rebirth_worthwhile(8));
    assert!(!rebirth_worthwhile(7));
}

#[test]
fn excretion_fills_at_sixty_four_bytes() {
    let mut v = Vec::new();
    for i in 0..63u8 {
        assert!(!excrete(&mut v, i));
    }
    assert!(excrete(&mut v, 63));
    assert_eq!(v.len(), 64);
}

#[test]
fn atrophied_lists_stalled_heartbeats() {
    assert_eq!(atrophied(&vec![1, 5, 7, 7], &vec![2, 5, 8, 7]), vec![1, 3]);
    assert_eq!(atrophied(&vec![], &vec![]), Vec::<usize>::new());
}

#[test]
fn feeding_follows_health() {
    assert_eq!(feeding_for(Health::FirehoseFeeding), Feeding::FirehoseOrBus);
    assert_eq!(feeding_for(Health::BusFeeding), Feeding::BusOnly);
    assert_eq!(feeding_for(Health::Starved), Feeding::BusOnly);
}

#[test]
fn reinstantiation_only_on_new_generation() {
    assert!(!needs_reinstantiation(3, 3));
    assert!(needs_reinstantiation(4, 3));
}

#[test]
fn growth_lets_the_whole_walk_past_the_unmapped_offset() {
    let mut g: StateGraph<f64> = StateGraph::new();
    let a = g.grow(ROOT, b'a', 1.0);
    let bytes: &[u8] = b"abcd";
    let u = g.traverse(bytes).unwrap_err();
    assert_eq!(u.offset, 1);
    let grown = grow_ephemeral(&mut g, bytes, u.offset, 1.0);
    assert_eq!(grown, Growth::Grew(2));
    assert_eq!(g.traverse(&bytes[..2]), Ok(2));
    let v = g.traverse(bytes).unwrap_err();
    assert!(v.offset > u.offset);
    assert_eq!(g.edge(a, b'b').unwrap().target, 2);
}

#[test]
fn firehose_bytes_buffer_then_flush_with_due_work() {
    let mut buf: Vec<u8> = Vec::new();
    assert_eq!(on_firehose_byte(false, &mut buf, 1, 0), ByteStep::Surrender);
    assert!(buf.is_empty());
    for i in 0..63u8 {
        assert_eq!(on_firehose_byte(true, &mut buf, i, 31), ByteStep::Buffered);
    }
    assert_eq!(
        on_firehose_byte(true, &mut buf, 63, 31),
        ByteStep::Flush { flush: 32, due: Maintenance { harvest: true, rebirth: false } }
    );
    assert_eq!(buf.len(), 64);
}
