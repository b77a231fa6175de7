//! The live, lock-free handle around the state graph.
//!
//! Readers take a snapshot of the current graph; writers clone it, modify
//! the clone and publish it. Concurrent readers see either the old or the
//! new graph, never a torn intermediate. What a snapshot holds depends on
//! the writers running meanwhile, so nothing is stated of it.

use vstd::prelude::*;
use std::sync::Arc;
use arc_swap::ArcSwap;
use crate::graph::StateGraph;

verus! {

/// Lock-free, swap-on-mutate handle around a [`StateGraph`]. The swap cell
/// (`arc_swap::ArcSwap`, whose default strategy type is private to its
/// crate and cannot be declared) is kept in a field hidden from
/// verification.
#[verifier::external_body]
#[verifier::reject_recursive_types(S)]
pub struct LiveGraph<S> {
    inner: ArcSwap<StateGraph<S>>,
}

impl<S: Clone> LiveGraph<S> {
    /// A handle whose first published graph is a fresh one (the root node
    /// only).
    pub fn new() -> Self {
        Self::from_graph(StateGraph::new())
    }

    /// `arc_swap::ArcSwap::from_pointee`: a handle publishing `graph`.
    #[verifier::external_body]
    fn from_graph(graph: StateGraph<S>) -> Self {
        LiveGraph { inner: ArcSwap::from_pointee(graph) }
    }

    /// `arc_swap::ArcSwapAny::load_full`: a snapshot of the graph most
    /// recently published. Which one that is depends on concurrent writers;
    /// nothing is claimed. The snapshot stays unchanged afterwards.
    #[verifier::external_body]
    pub fn load(&self) -> Arc<StateGraph<S>> {
        self.inner.load_full()
    }

    /// `arc_swap::ArcSwapAny::store`: publish `graph`.
    #[verifier::external_body]
    fn publish(&self, graph: Arc<StateGraph<S>>) {
        self.inner.store(graph)
    }

    /// Clone-modify-swap: apply `f` to a clone of the current graph and
    /// publish the result.
    pub fn mutate<F: FnOnce(&mut StateGraph<S>)>(&self, f: F)
        requires
            forall|g: &mut StateGraph<S>| f.requires((g,)),
    {
        let current = self.load();
        let mut next = (*current).clone();
        f(&mut next);
        self.publish(Arc::new(next));
    }
}

impl<S: Clone> Default for LiveGraph<S> {
    fn default() -> Self {
        Self::new()
    }
}

} // verus!
