//! Kernel-side decision logic: bus frames, the per-FSM parasitic-shortcut
//! learner, and the bus receive handler.

use vstd::prelude::*;
use crate::graph::{landing_node, walk, Edge, Node, NodeId, StateGraph, Unmapped as GraphUnmapped, ROOT};
use crate::firehose::Health;
use crate::wasm::{HostError, StepOutcome};

verus! {

/// Number of flushes a peer byte must coincide with before it is installed
/// as the structural shortcut.
pub const SHORTCUT_LEARN_THRESHOLD: u32 = 8;

/// A frame on the Societal Bus: a raw byte excretion of FSM `origin`.
#[derive(Clone, Debug)]
pub struct BusFrame {
    pub origin: usize,
    pub bytes: Vec<u8>,
}

/// Abstract state of a [`ShortcutLearner`].
pub struct LearnerState {
    /// Correlation count per byte value (256 entries).
    pub correlation: Seq<u32>,
    /// Peer bytes seen since the last flush (256 entries).
    pub pending: Seq<bool>,
    /// Installed shortcut byte, once learned.
    pub shortcut: Option<u8>,
    /// How often the installed shortcut has fired.
    pub firings: u64,
}

/// Per-FSM parasitic-shortcut learner. Every flush of the FSM's own buffer
/// bumps the correlation count of each distinct peer byte observed since
/// the previous flush; the first byte whose count reaches
/// [`SHORTCUT_LEARN_THRESHOLD`] becomes the shortcut, which from then on
/// fires whenever a peer frame contains it.
pub struct ShortcutLearner {
    correlation: [u32; 256],
    pending_peer: [bool; 256],
    shortcut: Option<u8>,
    firings: u64,
}

/// The byte `b` coincided with the flush and its count reaches the threshold.
pub open spec fn crosses(c: Seq<u32>, p: Seq<bool>, b: int) -> bool {
    p[b] && c[b] + 1 >= SHORTCUT_LEARN_THRESHOLD
}

/// The smallest byte below `n` that crosses the threshold in this flush.
pub open spec fn first_crossing_below(c: Seq<u32>, p: Seq<bool>, n: int) -> Option<u8>
    decreases n,
{
    if n <= 0 {
        None
    } else {
        match first_crossing_below(c, p, n - 1) {
            Some(x) => Some(x),
            None => if crosses(c, p, n - 1) {
                Some((n - 1) as u8)
            } else {
                None
            },
        }
    }
}

/// Correlation counts after a flush: every pending byte gains one.
pub open spec fn flushed_counts(c: Seq<u32>, p: Seq<bool>) -> Seq<u32> {
    Seq::new(256, |i: int| if p[i] { (c[i] + 1) as u32 } else { c[i] })
}

/// Learner state after one flush.
pub open spec fn after_flush(s: LearnerState) -> LearnerState {
    if s.shortcut is Some {
        s
    } else {
        LearnerState {
            correlation: flushed_counts(s.correlation, s.pending),
            pending: Seq::new(256, |i: int| false),
            shortcut: first_crossing_below(s.correlation, s.pending, 256),
            firings: s.firings,
        }
    }
}

/// Learner state after observing one peer byte.
pub open spec fn after_observe(s: LearnerState, b: u8) -> LearnerState {
    if s.shortcut is Some {
        s
    } else {
        LearnerState { pending: s.pending.update(b as int, true), ..s }
    }
}

/// Learner state after observing every byte of `bytes`, in order.
pub open spec fn after_observe_all(s: LearnerState, bytes: Seq<u8>) -> LearnerState
    decreases bytes.len(),
{
    if bytes.len() == 0 {
        s
    } else {
        after_observe(after_observe_all(s, bytes.drop_last()), bytes.last())
    }
}

/// Whether a frame fires the installed shortcut.
pub open spec fn fires(s: LearnerState, bytes: Seq<u8>) -> bool {
    match s.shortcut {
        Some(b) => bytes.contains(b),
        None => false,
    }
}

/// Learner state after checking a frame against the shortcut.
pub open spec fn after_check(s: LearnerState, bytes: Seq<u8>) -> LearnerState {
    if fires(s, bytes) {
        LearnerState { firings: (s.firings + 1) as u64, ..s }
    } else {
        s
    }
}

impl LearnerState {
    /// The learner's invariant.
    pub open spec fn wf(self) -> bool {
        &&& self.correlation.len() == 256
        &&& self.pending.len() == 256
        &&& forall|i: int| 0 <= i < 256 ==> self.correlation[i] <= SHORTCUT_LEARN_THRESHOLD
        &&& self.shortcut is None ==> forall|i: int|
            0 <= i < 256 ==> self.correlation[i] < SHORTCUT_LEARN_THRESHOLD
        &&& self.shortcut matches Some(b) ==> self.correlation[b as int]
            == SHORTCUT_LEARN_THRESHOLD
        &&& self.shortcut is Some ==> forall|i: int| 0 <= i < 256 ==> !self.pending[i]
    }
}

impl View for ShortcutLearner {
    type V = LearnerState;

    closed spec fn view(&self) -> LearnerState {
        LearnerState {
            correlation: self.correlation@,
            pending: self.pending_peer@,
            shortcut: self.shortcut,
            firings: self.firings,
        }
    }
}

impl ShortcutLearner {
    #[verifier::type_invariant]
    spec fn inv(self) -> bool {
        self@.wf()
    }

    /// A fresh learner: no counts, nothing pending, no shortcut.
    pub fn new() -> (r: Self)
        ensures
            r@.wf(),
            r@.correlation == Seq::new(256, |i: int| 0u32),
            r@.pending == Seq::new(256, |i: int| false),
            r@.shortcut is None,
            r@.firings == 0,
    {
        let r = ShortcutLearner {
            correlation: [0u32; 256],
            pending_peer: [false; 256],
            shortcut: None,
            firings: 0,
        };
        assert(r@.correlation =~= Seq::new(256, |i: int| 0u32));
        assert(r@.pending =~= Seq::new(256, |i: int| false));
        r
    }

    /// The installed shortcut byte, if any.
    pub fn shortcut(&self) -> (r: Option<u8>)
        ensures
            r == self@.shortcut,
    {
        self.shortcut
    }

    /// How often the installed shortcut has fired.
    pub fn firings(&self) -> (r: u64)
        ensures
            r == self@.firings,
    {
        self.firings
    }

    /// The correlation count of byte `b`.
    pub fn correlation(&self, b: u8) -> (r: u32)
        ensures
            r == self@.correlation[b as int],
    {
        proof {
            use_type_invariant(self);
        }
        self.correlation[b as usize]
    }

    /// Record a byte observed in a peer's bus frame. Once a shortcut is
    /// installed nothing more is learned.
    pub fn observe_peer_byte(&mut self, b: u8)
        ensures
            final(self)@.wf(),
            final(self)@ == after_observe(old(self)@, b),
    {
        proof {
            use_type_invariant(&*self);
        }
        if self.shortcut.is_some() {
            return ;
        }
        self.pending_peer[b as usize] = true;
        proof {
            assert(self@.pending =~= old(self)@.pending.update(b as int, true));
        }
    }

    /// Called when the FSM flushes its buffer. Returns `Some(byte)` exactly
    /// when a shortcut was installed by this call.
    pub fn on_flush(&mut self, fsm: usize) -> (r: Option<u8>)
        ensures
            final(self)@.wf(),
            final(self)@ == after_flush(old(self)@),
            old(self)@.shortcut is Some ==> r is None,
            old(self)@.shortcut is None ==> r == final(self)@.shortcut,
            old(self)@.shortcut is None ==> forall|i: int|
                0 <= i < 256 ==> #[trigger] final(self)@.correlation[i] == if old(self)@.pending[i] {
                    old(self)@.correlation[i] + 1
                } else {
                    old(self)@.correlation[i] as int
                },
            old(self)@.shortcut is None ==> forall|i: int|
                0 <= i < 256 ==> !#[trigger] final(self)@.pending[i],
    {
        proof {
            use_type_invariant(&*self);
        }
        if self.shortcut.is_some() {
            return None;
        }
        let ghost c0 = self.correlation@;
        let ghost p0 = self.pending_peer@;
        let mut correlation = self.correlation;
        let mut pending = self.pending_peer;
        let mut newly_installed: Option<u8> = None;
        let mut i: usize = 0;
        while i < 256
            invariant
                0 <= i <= 256,
                c0 == old(self)@.correlation,
                p0 == old(self)@.pending,
                old(self)@.wf(),
                old(self)@.shortcut is None,
                correlation@.len() == 256,
                pending@.len() == 256,
                forall|j: int| 0 <= j < i ==> correlation@[j] == flushed_counts(c0, p0)[j],
                forall|j: int| i <= j < 256 ==> correlation@[j] == c0[j],
                forall|j: int| 0 <= j < i ==> !pending@[j],
                forall|j: int| i <= j < 256 ==> pending@[j] == p0[j],
                newly_installed == first_crossing_below(c0, p0, i as int),
            decreases 256 - i,
        {
            let b: u8 = i as u8;
            if pending[i] {
                let c = correlation[i].saturating_add(1);
                correlation[i] = c;
                if c >= SHORTCUT_LEARN_THRESHOLD && newly_installed.is_none() {
                    newly_installed = Some(b);
                }
            }
            pending[i] = false;
            i = i + 1;
        }
        proof {
            assert(correlation@ =~= flushed_counts(c0, p0));
            assert(pending@ =~= Seq::new(256, |j: int| false));
            lemma_first_crossing_props(c0, p0, 256);
            assert forall|j: int| 0 <= j < 256 implies correlation@[j] <= SHORTCUT_LEARN_THRESHOLD
                && (newly_installed is None ==> correlation@[j] < SHORTCUT_LEARN_THRESHOLD) by {
                if newly_installed is None {
                    assert(!crosses(c0, p0, j));
                }
            }
        }
        *self = ShortcutLearner {
            correlation,
            pending_peer: pending,
            shortcut: newly_installed,
            firings: self.firings,
        };
        newly_installed
    }

    /// Check a peer frame against the installed shortcut. Returns `true`
    /// and counts a firing when the frame contains the shortcut byte.
    pub fn check_fire(&mut self, fsm: usize, frame: &BusFrame) -> (r: bool)
        requires
            old(self)@.firings < u64::MAX,
        ensures
            final(self)@.wf(),
            r == fires(old(self)@, frame.bytes@),
            r <==> (old(self)@.shortcut is Some && exists|i: int|
                0 <= i < frame.bytes@.len() && frame.bytes@[i] == old(self)@.shortcut->0),
            r ==> final(self)@.firings == old(self)@.firings + 1,
            !r ==> final(self)@.firings == old(self)@.firings,
            final(self)@ == after_check(old(self)@, frame.bytes@),
    {
        proof {
            use_type_invariant(&*self);
        }
        let shortcut = match self.shortcut {
            Some(b) => b,
            None => return false,
        };
        if bytes_contain(&frame.bytes, shortcut) {
            self.firings = self.firings + 1;
            true
        } else {
            false
        }
    }
}

/// Once a shortcut is installed it never changes: observing, flushing and
/// firing all keep it, and flushing learns nothing more.
pub proof fn lemma_shortcut_is_permanent(s: LearnerState, b: u8, bytes: Seq<u8>)
    requires
        s.shortcut is Some,
    ensures
        after_observe(s, b) == s,
        after_flush(s) == s,
        after_observe_all(s, bytes) == s,
        after_check(s, bytes).shortcut == s.shortcut,
        after_check(s, bytes).correlation == s.correlation,
    decreases bytes.len(),
{
    if bytes.len() > 0 {
        lemma_shortcut_is_permanent(s, b, bytes.drop_last());
    }
}

/// A flush installs a shortcut only for a byte that coincided with it, and
/// then that byte's count has reached the threshold.
pub proof fn lemma_flush_installs_only_pending_bytes(s: LearnerState)
    requires
        s.wf(),
        s.shortcut is None,
    ensures
        after_flush(s).shortcut matches Some(b) ==> s.pending[b as int]
            && after_flush(s).correlation[b as int] == SHORTCUT_LEARN_THRESHOLD,
        after_flush(s).shortcut is None ==> forall|i: int|
            0 <= i < 256 ==> after_flush(s).correlation[i] < SHORTCUT_LEARN_THRESHOLD,
{
    lemma_first_crossing_props(s.correlation, s.pending, 256);
    if after_flush(s).shortcut is None {
        assert forall|i: int| 0 <= i < 256 implies after_flush(s).correlation[i]
            < SHORTCUT_LEARN_THRESHOLD by {
            assert(!crosses(s.correlation, s.pending, i));
        }
    }
}

/// A flush adds one to the count of every byte that coincided with it,
/// leaves the count of every other byte as it was (counts accumulate over
/// flushes, however far apart), and leaves nothing pending.
pub proof fn lemma_flush_counts(s: LearnerState)
    requires
        s.wf(),
        s.shortcut is None,
    ensures
        forall|i: int|
            0 <= i < 256 ==> #[trigger] after_flush(s).correlation[i] == if s.pending[i] {
                s.correlation[i] + 1
            } else {
                s.correlation[i] as int
            },
        forall|i: int| 0 <= i < 256 ==> !#[trigger] after_flush(s).pending[i],
        forall|i: int|
            0 <= i < 256 ==> #[trigger] after_flush(s).correlation[i] >= s.correlation[i],
{
}

/// A peer frame fires the shortcut exactly when a shortcut is installed
/// and its byte occurs anywhere in the frame.
pub proof fn lemma_fires_iff_shortcut_occurs(s: LearnerState, bytes: Seq<u8>)
    ensures
        fires(s, bytes) <==> (s.shortcut is Some && exists|i: int|
            0 <= i < bytes.len() && bytes[i] == s.shortcut->0),
{
}

/// Facts about the first crossing byte of a flush.
pub proof fn lemma_first_crossing_props(c: Seq<u32>, p: Seq<bool>, n: int)
    requires
        0 <= n <= 256,
    ensures
        first_crossing_below(c, p, n) matches Some(b) ==> 0 <= b < n && crosses(c, p, b as int)
            && forall|j: int| 0 <= j < b ==> !crosses(c, p, j),
        first_crossing_below(c, p, n) is None ==> forall|j: int| 0 <= j < n ==> !crosses(c, p, j),
    decreases n,
{
    if n > 0 {
        lemma_first_crossing_props(c, p, n - 1);
    }
}

/// Whether `bytes` contains `b`.
pub fn bytes_contain(bytes: &Vec<u8>, b: u8) -> (r: bool)
    ensures
        r == bytes@.contains(b),
{
    let mut i: usize = 0;
    while i < bytes.len()
        invariant
            0 <= i <= bytes.len(),
            forall|j: int| 0 <= j < i ==> bytes@[j] != b,
        decreases bytes.len() - i,
    {
        if bytes[i] == b {
            assert(bytes@[i as int] == b);
            return true;
        }
        i = i + 1;
    }
    false
}

/// Size in bytes of an excretion buffer: once it holds this many bytes it
/// is run through the module and shipped to the bus.
pub const EXCRETION_BYTES: usize = 64;

/// Number of flushes between decay passes.
pub const HARVEST_INTERVAL: u64 = 32;

/// Number of flushes between rebirth attempts.
pub const REBIRTH_INTERVAL: u64 = 256;

/// Minimum number of edges in the graph before a rebirth is worth it.
pub const REBIRTH_MIN_EDGES: usize = 8;

/// Why receiving a bus frame failed.
#[derive(Debug, Clone, Copy, PartialEq, Eq, Structural)]
pub enum BusRecvError {
    /// The receiver fell behind and this many frames were lost.
    Lagged(u64),
    /// Every sender is gone.
    Closed,
}

/// What growth did to the graph.
#[derive(Debug, Clone, Copy, PartialEq, Eq, Structural)]
pub enum Growth {
    /// The offset is past the end of the input: nothing to grow.
    Skipped,
    /// The edge already exists: it should be reinforced instead.
    Reinforce { from: NodeId, byte: u8 },
    /// A new node was allocated, reached by a new edge.
    Grew(NodeId),
}

/// Growth on `bytes` at `offset`: walk the graph as far as `bytes[..offset]`
/// maps (falling back to the root), then allocate a new edge for
/// `bytes[offset]` from there, carrying `score`. If that edge already
/// exists nothing changes and the edge is reported for reinforcement.
pub fn grow_ephemeral<S>(graph: &mut StateGraph<S>, bytes: &[u8], offset: usize, score: S) -> (r:
    Growth)
    requires
        old(graph).view().nodes.len() <= u32::MAX,
    ensures
        offset >= bytes@.len() ==> r == Growth::Skipped && final(graph).view() == old(graph).view(),
        offset < bytes@.len() ==> ({
            let from = landing_node(old(graph).view().edges, bytes@.take(offset as int));
            let byte = bytes@[offset as int];
            if old(graph).view().edges.contains_key((from, byte)) {
                &&& r == Growth::Reinforce { from, byte }
                &&& final(graph).view() == old(graph).view()
            } else {
                let id = old(graph).view().nodes.len() as NodeId;
                &&& r == Growth::Grew(id)
                &&& final(graph).view().nodes == old(graph).view().nodes.push(Node { visits: 0 })
                &&& final(graph).view().edges == old(graph).view().edges.insert(
                    (from, byte),
                    Edge { target: id, score },
                )
                &&& walk(old(graph).view().edges, ROOT, bytes@.take(offset as int), 0) is Ok
                    ==> walk(final(graph).view().edges, ROOT, bytes@.take(offset + 1), 0)
                    == Ok::<NodeId, GraphUnmapped>(id)
            }
        }),
{
    if offset >= bytes.len() {
        return Growth::Skipped;
    }
    let byte = bytes[offset];
    let from = match graph.traverse_prefix(bytes, offset) {
        Ok(n) => n,
        Err(_) => ROOT,
    };
    match graph.edge(from, byte) {
        Some(_) => Growth::Reinforce { from, byte },
        None => {
            let ghost old_edges = graph.view().edges;
            let id = graph.grow(from, byte, score);
            proof {
                if walk(old_edges, ROOT, bytes@.take(offset as int), 0) is Ok {
                    assert(bytes@.take(offset as int).push(byte) =~= bytes@.take(offset + 1));
                    crate::graph::lemma_growth_maps_extended_input(
                        old_edges,
                        bytes@.take(offset as int),
                        from,
                        byte,
                        Edge { target: id, score },
                    );
                }
            }
            Growth::Grew(id)
        },
    }
}

/// What the module's verdict on a flushed buffer asks of the graph.
#[derive(Debug, Clone, Copy, PartialEq, Eq, Structural)]
pub enum GraphResponse {
    /// The buffer was already structurally known: reinforce the edges it
    /// walks.
    RecordHits,
    /// Irritation: grow at this offset.
    GrowAt(usize),
    /// The module failed for another reason: leave the graph alone.
    Nothing,
}

/// The graph's response to the outcome of running a buffer through the
/// module. Running out of fuel or hitting the epoch deadline counts as
/// irritation at offset 0.
pub fn irritation_response(outcome: &Result<StepOutcome, HostError>) -> (r: GraphResponse)
    ensures
        r == match outcome {
            Ok(StepOutcome::Terminal(_)) => GraphResponse::RecordHits,
            Ok(StepOutcome::Unmapped(u)) => GraphResponse::GrowAt(u.offset),
            Err(HostError::OutOfFuel) => GraphResponse::GrowAt(0),
            Err(HostError::EpochDeadline) => GraphResponse::GrowAt(0),
            Err(_) => GraphResponse::Nothing,
        },
{
    match outcome {
        Ok(StepOutcome::Terminal(_)) => GraphResponse::RecordHits,
        Ok(StepOutcome::Unmapped(u)) => GraphResponse::GrowAt(u.offset),
        Err(HostError::OutOfFuel) => GraphResponse::GrowAt(0),
        Err(HostError::EpochDeadline) => GraphResponse::GrowAt(0),
        Err(_) => GraphResponse::Nothing,
    }
}

/// Periodic work due after a flush.
#[derive(Debug, Clone, Copy, PartialEq, Eq, Structural)]
pub struct Maintenance {
    /// A decay pass is due.
    pub harvest: bool,
    /// A rebirth attempt is due.
    pub rebirth: bool,
}

/// The periodic work due after the `flush_count`-th flush.
pub fn maintenance_due(flush_count: u64) -> (r: Maintenance)
    ensures
        r.harvest == (flush_count % HARVEST_INTERVAL == 0),
        r.rebirth == (flush_count % REBIRTH_INTERVAL == 0),
{
    Maintenance {
        harvest: flush_count % HARVEST_INTERVAL == 0,
        rebirth: flush_count % REBIRTH_INTERVAL == 0,
    }
}

/// Whether a graph with `edge_count` edges is worth a rebirth.
pub fn rebirth_worthwhile(edge_count: usize) -> (r: bool)
    ensures
        r == (edge_count >= REBIRTH_MIN_EDGES),
{
    edge_count >= REBIRTH_MIN_EDGES
}

/// Append a firehose byte to the excretion buffer. Returns `true` when the
/// buffer is full and must be flushed.
pub fn excrete(excretion: &mut Vec<u8>, b: u8) -> (full: bool)
    ensures
        final(excretion)@ == old(excretion)@.push(b),
        full == (final(excretion)@.len() >= EXCRETION_BYTES),
{
    excretion.push(b);
    excretion.len() >= EXCRETION_BYTES
}

/// What an FSM waits for in one turn of its loop, besides a change of the
/// firehose's health.
#[derive(Debug, Clone, Copy, PartialEq, Eq, Structural)]
pub enum Feeding {
    /// The next firehose byte or the next bus frame.
    FirehoseOrBus,
    /// The next bus frame only.
    BusOnly,
}

/// The feeding that follows the firehose's health: raw bytes while it is
/// up, the bus alone while it is down or starved.
pub fn feeding_for(health: Health) -> (r: Feeding)
    ensures
        r == match health {
            Health::FirehoseFeeding => Feeding::FirehoseOrBus,
            _ => Feeding::BusOnly,
        },
{
    match health {
        Health::FirehoseFeeding => Feeding::FirehoseOrBus,
        _ => Feeding::BusOnly,
    }
}

/// Whether an FSM running a module of generation `current` must
/// instantiate the live module of generation `live` afresh.
pub fn needs_reinstantiation(live: u32, current: u32) -> (r: bool)
    ensures
        r == (live != current),
{
    live != current
}

/// What an FSM does with one byte from the firehose.
#[derive(Debug, Clone, Copy, PartialEq, Eq, Structural)]
pub enum ByteStep {
    /// The arena refused the byte: the FSM surrenders.
    Surrender,
    /// The byte was buffered; the buffer is not full yet.
    Buffered,
    /// The buffer is full: run it through the module and ship it. This is
    /// flush number `flush`, after which the work `due` is to be done.
    Flush { flush: u64, due: Maintenance },
}

/// The flush that follows `flushes` earlier ones, with the periodic work
/// due after it.
pub open spec fn flush_step(flushes: u64) -> ByteStep {
    ByteStep::Flush {
        flush: (flushes + 1) as u64,
        due: Maintenance {
            harvest: (flushes + 1) % (HARVEST_INTERVAL as int) == 0,
            rebirth: (flushes + 1) % (REBIRTH_INTERVAL as int) == 0,
        },
    }
}

/// One firehose byte, given whether the arena accounted for it (`fits`) and
/// how many flushes came before: surrender when it did not; otherwise
/// buffer the byte, and once the buffer is full, flush it and do the
/// periodic work due after that flush.
pub fn on_firehose_byte(fits: bool, excretion: &mut Vec<u8>, b: u8, flushes: u64) -> (r: ByteStep)
    requires
        flushes < u64::MAX,
    ensures
        !fits ==> r == ByteStep::Surrender && final(excretion)@ == old(excretion)@,
        fits ==> final(excretion)@ == old(excretion)@.push(b),
        fits && final(excretion)@.len() >= EXCRETION_BYTES ==> r == flush_step(flushes),
        fits && final(excretion)@.len() < EXCRETION_BYTES ==> r == ByteStep::Buffered,
{
    if !fits {
        return ByteStep::Surrender;
    }
    if excrete(excretion, b) {
        let flush = flushes + 1;
        ByteStep::Flush { flush, due: maintenance_due(flush) }
    } else {
        ByteStep::Buffered
    }
}

/// Observing bytes never changes the firing count.
pub proof fn lemma_observe_keeps_firings(s: LearnerState, bytes: Seq<u8>)
    ensures
        after_observe_all(s, bytes).firings == s.firings,
        after_observe_all(s, bytes).shortcut == s.shortcut,
    decreases bytes.len(),
{
    if bytes.len() > 0 {
        lemma_observe_keeps_firings(s, bytes.drop_last());
    }
}

/// Receive a bus frame from a peer: feed its bytes to the learner and, if
/// the installed shortcut fires, drop the current excretion buffer. Frames
/// from this FSM itself and receive errors change nothing.
pub fn handle_bus(
    id: usize,
    msg: Result<BusFrame, BusRecvError>,
    excretion: &mut Vec<u8>,
    learner: &mut ShortcutLearner,
)
    requires
        old(learner)@.firings < u64::MAX,
    ensures
        match msg {
            Ok(frame) => if frame.origin != id {
                let s1 = after_observe_all(old(learner)@, frame.bytes@);
                &&& final(learner)@ == after_check(s1, frame.bytes@)
                &&& final(excretion)@ == if fires(s1, frame.bytes@) {
                    Seq::<u8>::empty()
                } else {
                    old(excretion)@
                }
            } else {
                final(learner)@ == old(learner)@ && final(excretion)@ == old(excretion)@
            },
            Err(_) => final(learner)@ == old(learner)@ && final(excretion)@ == old(excretion)@,
        },
{
    match msg {
        Ok(frame) => {
            if frame.origin != id {
                let ghost s0 = learner@;
                let mut i: usize = 0;
                while i < frame.bytes.len()
                    invariant
                        0 <= i <= frame.bytes@.len(),
                        learner@ == after_observe_all(s0, frame.bytes@.take(i as int)),
                    decreases frame.bytes.len() - i,
                {
                    learner.observe_peer_byte(frame.bytes[i]);
                    proof {
                        assert(frame.bytes@.take(i + 1).drop_last() =~= frame.bytes@.take(i as int));
                    }
                    i = i + 1;
                }
                proof {
                    assert(frame.bytes@.take(frame.bytes@.len() as int) =~= frame.bytes@);
                    lemma_observe_keeps_firings(s0, frame.bytes@);
                }
                if learner.check_fire(id, &frame) {
                    excretion.clear();
                }
            }
        },
        Err(_) => {},
    }
}

/// The FSMs whose heartbeat did not advance between two reaper ticks.
pub fn atrophied(prev: &Vec<u64>, now: &Vec<u64>) -> (r: Vec<usize>)
    requires
        prev.len() == now.len(),
    ensures
        forall|k: int| 0 <= k < r.len() ==> r[k] < prev.len() && prev[r[k] as int] == now[r[k] as int],
        forall|j: int| 0 <= j < prev.len() && prev[j] == now[j] ==> r@.contains(j as usize),
        forall|k1: int, k2: int| 0 <= k1 < k2 < r.len() ==> r[k1] < r[k2],
{
    let mut r: Vec<usize> = Vec::new();
    let mut i: usize = 0;
    while i < prev.len()
        invariant
            prev.len() == now.len(),
            0 <= i <= prev.len(),
            forall|k: int| 0 <= k < r.len() ==> r[k] < i && prev[r[k] as int] == now[r[k] as int],
            forall|j: int| 0 <= j < i && prev[j] == now[j] ==> r@.contains(j as usize),
            forall|k1: int, k2: int| 0 <= k1 < k2 < r.len() ==> r[k1] < r[k2],
        decreases prev.len() - i,
    {
        let ghost r0 = r@;
        if prev[i] == now[i] {
            r.push(i);
            assert(r@[r.len() - 1] == i);
        }
        assert forall|j: int| 0 <= j < i + 1 && prev[j] == now[j] implies r@.contains(j as usize) by {
            if j < i {
                let k = choose|k: int| 0 <= k < r0.len() && r0[k] == j as usize;
                assert(r@[k] == r0[k]);
            } else {
                assert(r@[r.len() - 1] == i);
            }
        }
        i = i + 1;
    }
    r
}

} // verus!
