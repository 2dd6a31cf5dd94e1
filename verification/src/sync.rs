//! The sync coordinator's decision core: the debounced trigger and the
//! per-turn decision of the sync loop. The surrounding plumbing owns the
//! channels, locks and timers; it feeds the loop the shutdown flag and the
//! node's fresh data, and performs the action decided here.

use vstd::prelude::*;
use crate::indexer::{Indexer, IndexUpdate, TxEntry, sync_updates_ok};

verus! {

/// The debounce window applied to external sync triggers, in seconds.
pub const DEBOUNCE_SECS: u64 = 7;

/// Whether the debouncer may emit at time `now`: only when a full window
/// has passed since the last emission.
pub open spec fn may_emit(d: Debouncer, now: u64) -> bool {
    match d.last_emit {
        None => true,
        Some(t) => now >= t + d.window_secs,
    }
}

/// Collapses bursts of triggers: at most one delivery per window, and a
/// trigger arriving inside the window is held as pending rather than lost,
/// to be delivered by the next poll once the window has passed.
#[derive(Clone, Copy, Debug)]
pub struct Debouncer {
    pub window_secs: u64,
    pub last_emit: Option<u64>,
    pub pending: bool,
}

impl Debouncer {
    /// A debouncer that has never emitted.
    pub fn new(window_secs: u64) -> (r: Debouncer)
        ensures
            r.window_secs == window_secs,
            r.last_emit is None,
            !r.pending,
    {
        Debouncer { window_secs, last_emit: None, pending: false }
    }

    /// An incoming trigger at time `now` (the clock never runs backwards):
    /// emits exactly when a full window has passed since the last emission;
    /// otherwise the trigger is held as pending.
    pub fn on_trigger(&mut self, now: u64) -> (emit: bool)
        requires
            match old(self).last_emit {
                Some(t) => t <= now,
                None => true,
            },
        ensures
            final(self).window_secs == old(self).window_secs,
            emit == may_emit(*old(self), now),
            emit ==> final(self).last_emit == Some(now) && !final(self).pending,
            !emit ==> final(self).last_emit == old(self).last_emit && final(self).pending,
    {
        let ok = match self.last_emit {
            None => true,
            Some(t) => now - t >= self.window_secs,
        };
        if ok {
            self.last_emit = Some(now);
            self.pending = false;
            true
        } else {
            self.pending = true;
            false
        }
    }

    /// A poll at time `now`: delivers a held trigger once the window has
    /// passed, so no last-in-window trigger is ever lost.
    pub fn on_poll(&mut self, now: u64) -> (emit: bool)
        requires
            match old(self).last_emit {
                Some(t) => t <= now,
                None => true,
            },
        ensures
            final(self).window_secs == old(self).window_secs,
            emit == (old(self).pending && may_emit(*old(self), now)),
            emit ==> final(self).last_emit == Some(now) && !final(self).pending,
            !emit ==> *final(self) == *old(self),
    {
        if !self.pending {
            return false;
        }
        let ok = match self.last_emit {
            None => true,
            Some(t) => now - t >= self.window_secs,
        };
        if ok {
            self.last_emit = Some(now);
            self.pending = false;
            true
        } else {
            false
        }
    }
}

/// What one turn of the sync loop asks the plumbing to do.
#[derive(Debug)]
pub enum SyncAction {
    /// Shutdown was observed: leave the loop.
    Stop,
    /// Fan the updates out to every subscriber, then wait for the next
    /// trigger or poll timeout.
    FanOut(Vec<IndexUpdate>),
    /// Nothing changed: wait for the next trigger or poll timeout.
    Idle,
}

/// The application core owned by the sync coordinator: the indexer and the
/// loop's configuration. The single-writer discipline holds because the
/// coordinator thread alone holds `&mut` access.
#[derive(Debug)]
pub struct App {
    pub indexer: Indexer,
    pub poll_interval_secs: u64,
    pub debouncer: Debouncer,
}

impl App {
    /// Well-formedness: the indexer's watcher is well-formed.
    pub open spec fn wf(&self) -> bool {
        self.indexer.wf()
    }

    /// Wraps the indexer for the sync loop.
    pub fn new(indexer: Indexer, poll_interval_secs: u64) -> (r: App)
        requires
            indexer.wf(),
        ensures
            r.wf(),
            r.indexer == indexer,
            r.poll_interval_secs == poll_interval_secs,
            r.debouncer.window_secs == DEBOUNCE_SECS,
            r.debouncer.last_emit is None,
            !r.debouncer.pending,
    {
        App { indexer, poll_interval_secs, debouncer: Debouncer::new(DEBOUNCE_SECS) }
    }

    /// One turn of the sync loop. With shutdown observed the loop stops at
    /// once and nothing changes. Otherwise the freshly listed transactions
    /// and the node's tip are digested, and the updates — if there are any
    /// — are handed out for fan-out; a round that observed nothing new is
    /// idle.
    pub fn sync(&mut self, shutdown: bool, txs: &Vec<TxEntry>, node_tip: u32) -> (a: SyncAction)
        requires
            old(self).wf(),
        ensures
            final(self).wf(),
            final(self).poll_interval_secs == old(self).poll_interval_secs,
            final(self).debouncer == old(self).debouncer,
            shutdown ==> a is Stop && *final(self) == *old(self),
            !shutdown ==> {
                &&& !(a is Stop)
                &&& final(self).indexer.tip == Some(node_tip)
                &&& (a is Idle <==> (txs@.len() == 0 && old(self).indexer.tip == Some(node_tip)))
                &&& match a {
                    SyncAction::FanOut(upds) => upds@.len() > 0 && sync_updates_ok(
                        old(self).indexer.tip,
                        node_tip,
                        txs@,
                        upds@,
                    ),
                    _ => true,
                }
            },
    {
        if shutdown {
            return SyncAction::Stop;
        }
        let upds = self.indexer.sync_step(txs, node_tip);
        if upds.is_empty() {
            SyncAction::Idle
        } else {
            SyncAction::FanOut(upds)
        }
    }
}

} // verus!
