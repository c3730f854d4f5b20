//! The monitor scheduler: one watch per mission that is triggered by
//! changes under its source path.
//!
//! Raw events are debounced per watch. When a burst has settled the
//! scheduler asks the registry for the permit to run the mission; if a
//! run is under way the trigger is dropped, not queued. A watch that was
//! lost stays in place, marked as lost, and takes no events until the
//! mission is watched anew.

use vstd::prelude::*;
use vstd::string::StringExecFns;
use crate::db::mission::{MissionStatus, PathType};
use crate::db::table::{first_at, lemma_count_of_next, none_of, rewritten};
use crate::debounce::{after, triggers, Debouncer, Input};
use crate::registry::{
    hands_out, is_live, mission_of, step, BeginOutcome, ExecutionTicket, Registry, RegistryError,
    SnapshotView, Step,
};
use crate::time::Timestamp;

verus! {

/// The watch of one mission.
#[derive(Debug, PartialEq, Eq)]
pub struct Watch {
    pub mission_id: String,
    /// The path that is watched: the source path of the mission.
    pub root: String,
    /// Whether everything below the path is watched too, as it is for a
    /// directory.
    pub recursive: bool,
    pub debouncer: Debouncer,
    /// Whether the watch was lost: the path is gone, may no longer be
    /// read, or nothing has been heard of the watch for too long.
    pub lost: bool,
    /// When the last sign of life of the watch came, an event or a
    /// heartbeat; nothing before the first.
    pub last_seen_ms: Option<u64>,
}

/// The mathematical content of a [`Watch`].
pub struct WatchView {
    pub mission_id: Seq<char>,
    pub root: Seq<char>,
    pub recursive: bool,
    pub window: int,
    pub pending: Option<int>,
    pub lost: bool,
    pub last_seen: Option<int>,
}

impl View for Watch {
    type V = WatchView;

    open spec fn view(&self) -> WatchView {
        WatchView {
            mission_id: self.mission_id@,
            root: self.root@,
            recursive: self.recursive,
            window: self.debouncer.window_ms as int,
            pending: self.debouncer.spec_pending(),
            lost: self.lost,
            last_seen: match self.last_seen_ms {
                Some(t) => Some(t as int),
                None => None,
            },
        }
    }
}

impl Clone for Watch {
    fn clone(&self) -> (r: Self)
        ensures
            r@ == self@,
    {
        Watch {
            mission_id: self.mission_id.clone(),
            root: self.root.clone(),
            recursive: self.recursive,
            debouncer: self.debouncer,
            lost: self.lost,
            last_seen_ms: self.last_seen_ms,
        }
    }
}

/// The views of a sequence of watches, one by one.
pub open spec fn watch_views(watches: Seq<Watch>) -> Seq<WatchView> {
    watches.map_values(|w: Watch| w@)
}

/// The watches of the mission `id`.
pub open spec fn watch_of(id: Seq<char>) -> spec_fn(WatchView) -> bool {
    |w: WatchView| w.mission_id == id
}

/// The watches of the other missions.
pub open spec fn watch_of_other(id: Seq<char>) -> spec_fn(WatchView) -> bool {
    |w: WatchView| w.mission_id != id
}

/// The watches that are overdue at `now`: those that were not lost and of
/// which nothing has been heard for more than `timeout`.
pub open spec fn is_overdue(now: int, timeout: int) -> spec_fn(WatchView) -> bool {
    |w: WatchView| !w.lost && (w.last_seen matches Some(t) && now - t > timeout)
}

/// Gives a watch up: it is lost and forgets what was pending.
pub open spec fn given_up() -> spec_fn(WatchView) -> WatchView {
    |w: WatchView| WatchView { pending: None, lost: true, ..w }
}

/// What a settle call led to.
#[derive(Debug)]
pub enum SettleOutcome {
    /// The burst has settled and the mission runs; this is the permit.
    Started(ExecutionTicket),
    /// The burst has settled, but a run was under way: the trigger is
    /// dropped.
    Dropped,
    /// The burst has settled, but the registry refused.
    Refused(RegistryError),
    /// Nothing has settled: no event is pending, or the window has not
    /// gone by yet.
    Quiet,
    /// The mission has no watch, or its watch was lost.
    Unwatched,
}

/// The watches of all monitor missions.
pub struct MonitorScheduler {
    watches: Vec<Watch>,
}

impl View for MonitorScheduler {
    type V = Seq<WatchView>;

    closed spec fn view(&self) -> Seq<WatchView> {
        watch_views(self.watches@)
    }
}

/// What [`MonitorScheduler::settle`] does to the watches and to the
/// registry. Only the first watch of the mission counts. Without one, or
/// with one that was lost, nothing happens. Else the watch is polled at
/// `now_ms`; a poll that does not trigger leaves everything as it is. A
/// poll that triggers makes the watch idle and asks the registry for the
/// permit to run the mission.
pub open spec fn settled(
    pre: Seq<WatchView>,
    post: Seq<WatchView>,
    missions: Seq<SnapshotView>,
    missions_after: Seq<SnapshotView>,
    id: Seq<char>,
    now_ms: int,
    now: Timestamp,
    r: SettleOutcome,
) -> bool {
    if none_of(pre, watch_of(id)) {
        r is Unwatched && post == pre && missions_after == missions
    } else {
        exists|i: int|
            #![trigger pre[i]]
            first_at(pre, watch_of(id), i) && if pre[i].lost {
                r is Unwatched && post == pre && missions_after == missions
            } else if !triggers(pre[i].pending, pre[i].window, Input::Poll(now_ms)) {
                r is Quiet && post == pre && missions_after == missions
            } else {
                &&& post == pre.update(i, WatchView { pending: None, ..pre[i] })
                &&& missions_after == step(missions, Step::Begin(id))
                &&& match r {
                    SettleOutcome::Started(ticket) => {
                        &&& hands_out(missions, Step::Begin(id), id)
                        &&& ticket.id() == id
                        &&& ticket.fired() == now
                    },
                    SettleOutcome::Dropped => {
                        &&& is_live(missions, id)
                        &&& mission_of(missions, id).status == MissionStatus::Backuping
                    },
                    SettleOutcome::Refused(e) => match e {
                        RegistryError::NotFound => !is_live(missions, id),
                        RegistryError::InvalidTransition => is_live(missions, id) && mission_of(
                            missions,
                            id,
                        ).status == MissionStatus::Paused,
                    },
                    _ => false,
                }
            }
    }
}

impl MonitorScheduler {
    /// A scheduler without watches.
    pub fn new() -> (r: MonitorScheduler)
        ensures
            r@ == Seq::<WatchView>::empty(),
    {
        let r = MonitorScheduler { watches: Vec::new() };
        r
    }

    /// How many watches there are.
    pub fn len(&self) -> (n: usize)
        ensures
            n == self@.len(),
    {
        self.watches.len()
    }

    /// The place of the first watch of the mission `id`.
    fn find(&self, id: &String) -> (r: Option<usize>)
        ensures
            match r {
                Some(i) => first_at(self@, watch_of(id@), i as int),
                None => none_of(self@, watch_of(id@)),
            },
    {
        let mut i: usize = 0;
        while i < self.watches.len()
            invariant
                i <= self.watches.len(),
                forall|j: int| 0 <= j < i ==> !(watch_of(id@))(#[trigger] self@[j]),
            decreases self.watches.len() - i,
        {
            if self.watches[i].mission_id == *id {
                return Some(i);
            }
            i = i + 1;
        }
        None
    }

    /// Watches the source path `src_path` of the mission `mission_id`,
    /// with everything below it if it is a directory, and with a debounce
    /// window of `window_ms` milliseconds. A watch that the mission had
    /// before, lost or not, is replaced.
    pub fn watch(&mut self, mission_id: &str, src_path: &str, path_type: PathType, window_ms: u64)
        ensures
            final(self)@ == old(self)@.filter(watch_of_other(mission_id@)).push(
                WatchView {
                    mission_id: mission_id@,
                    root: src_path@,
                    recursive: path_type == PathType::Directory,
                    window: window_ms as int,
                    pending: None,
                    lost: false,
                    last_seen: None,
                },
            ),
    {
        let _ = self.unwatch(mission_id);
        let recursive = match path_type {
            PathType::Directory => true,
            _ => false,
        };
        let w = Watch {
            mission_id: String::from_str(mission_id),
            root: String::from_str(src_path),
            recursive,
            debouncer: Debouncer::new(window_ms),
            lost: false,
            last_seen_ms: None,
        };
        self.watches.push(w);
    }

    /// Ends the watch of the mission `mission_id`. The answer is whether
    /// there was one.
    pub fn unwatch(&mut self, mission_id: &str) -> (r: bool)
        ensures
            final(self)@ == old(self)@.filter(watch_of_other(mission_id@)),
            r == !none_of(old(self)@, watch_of(mission_id@)),
    {
        let key = String::from_str(mission_id);
        let ghost all = self@;
        let ghost p = watch_of_other(mission_id@);
        let mut kept: Vec<Watch> = Vec::new();
        let mut found = false;
        let mut i: usize = 0;
        while i < self.watches.len()
            invariant
                i <= self.watches.len(),
                all == self@,
                key@ == mission_id@,
                p == watch_of_other(mission_id@),
                watch_views(kept@) == all.take(i as int).filter(p),
                found == exists|j: int| 0 <= j < i && (watch_of(mission_id@))(#[trigger] all[j]),
            decreases self.watches.len() - i,
        {
            proof {
                lemma_count_of_next(all, p, i as int);
            }
            if self.watches[i].mission_id == key {
                found = true;
            } else {
                kept.push(self.watches[i].clone());
            }
            i = i + 1;
        }
        assert(all.take(i as int) =~= all);
        self.watches = kept;
        found
    }

    /// A sign of life of the watch of the mission `mission_id` at `at_ms`.
    /// It is noted at the first watch of the mission, unless that watch
    /// was lost. The answer is whether it was taken.
    pub fn heartbeat(&mut self, mission_id: &str, at_ms: u64) -> (taken: bool)
        ensures
            if none_of(old(self)@, watch_of(mission_id@)) {
                !taken && final(self)@ == old(self)@
            } else {
                exists|i: int|
                    #![trigger old(self)@[i]]
                    first_at(old(self)@, watch_of(mission_id@), i) && taken == !old(self)@[i].lost
                        && final(self)@ == if taken {
                        old(self)@.update(
                            i,
                            WatchView { last_seen: Some(at_ms as int), ..old(self)@[i] },
                        )
                    } else {
                        old(self)@
                    }
            },
    {
        let key = String::from_str(mission_id);
        match self.find(&key) {
            Some(i) => {
                if self.watches[i].lost {
                    false
                } else {
                    let mut w = self.watches[i].clone();
                    w.last_seen_ms = Some(at_ms);
                    self.watches.set(i, w);
                    true
                }
            },
            None => false,
        }
    }

    /// Gives up the watches of which nothing has been heard for more than
    /// `timeout_ms` milliseconds at `now_ms`: each of them is marked as
    /// lost and forgets what was pending. A watch of which nothing was
    /// heard yet is not given up. The answer is the missions of the watches
    /// that were given up, in their order.
    pub fn expire(&mut self, now_ms: u64, timeout_ms: u64) -> (gone: Vec<String>)
        ensures
            final(self)@ == rewritten(
                old(self)@,
                is_overdue(now_ms as int, timeout_ms as int),
                given_up(),
            ),
            gone@.map_values(|s: String| s@) == old(self)@.filter(
                is_overdue(now_ms as int, timeout_ms as int),
            ).map_values(|w: WatchView| w.mission_id),
    {
        let ghost pre = self@;
        let ghost p = is_overdue(now_ms as int, timeout_ms as int);
        let ghost f = given_up();
        let ghost name = |w: WatchView| w.mission_id;
        let ghost text = |s: String| s@;
        let mut gone: Vec<String> = Vec::new();
        let mut i: usize = 0;
        while i < self.watches.len()
            invariant
                i <= self.watches.len(),
                self@.len() == pre.len(),
                p == is_overdue(now_ms as int, timeout_ms as int),
                f == given_up(),
                name == |w: WatchView| w.mission_id,
                text == |s: String| s@,
                gone@.map_values(text) == pre.take(i as int).filter(p).map_values(name),
                forall|j: int| 0 <= j < i ==> self@[j] == rewritten(pre, p, f)[j],
                forall|j: int| i <= j < pre.len() ==> self@[j] == pre[j],
            decreases self.watches.len() - i,
        {
            let ghost before = self@;
            proof {
                lemma_count_of_next(pre, p, i as int);
            }
            let overdue = !self.watches[i].lost && match self.watches[i].last_seen_ms {
                Some(t) => now_ms >= t && now_ms - t > timeout_ms,
                None => false,
            };
            if overdue {
                let ghost names = gone@.map_values(text);
                gone.push(self.watches[i].mission_id.clone());
                assert(gone@.map_values(text) =~= names.push(pre[i as int].mission_id));
                let mut w = self.watches[i].clone();
                w.lost = true;
                w.debouncer.pending = None;
                let ghost changed = w@;
                self.watches.set(i, w);
                assert(self@ =~= before.update(i as int, changed));
            }
            assert forall|j: int| 0 <= j < i + 1 implies self@[j] == rewritten(pre, p, f)[j] by {}
            i = i + 1;
        }
        assert(pre.take(i as int) =~= pre);
        gone
    }

    /// A raw event under the source path of the mission `mission_id` at
    /// `at_ms`. It reaches the debouncer of the first watch of the mission,
    /// unless that watch was lost, and counts as a sign of life. The answer
    /// is whether it was taken.
    pub fn on_event(&mut self, mission_id: &str, at_ms: u64) -> (taken: bool)
        ensures
            if none_of(old(self)@, watch_of(mission_id@)) {
                !taken && final(self)@ == old(self)@
            } else {
                exists|i: int|
                    #![trigger old(self)@[i]]
                    first_at(old(self)@, watch_of(mission_id@), i) && taken == !old(self)@[i].lost
                        && final(self)@ == if taken {
                        old(self)@.update(
                            i,
                            WatchView {
                                pending: after(
                                    old(self)@[i].pending,
                                    old(self)@[i].window,
                                    Input::Event(at_ms as int),
                                ),
                                last_seen: Some(at_ms as int),
                                ..old(self)@[i]
                            },
                        )
                    } else {
                        old(self)@
                    }
            },
    {
        let key = String::from_str(mission_id);
        match self.find(&key) {
            Some(i) => {
                if self.watches[i].lost {
                    false
                } else {
                    let mut w = self.watches[i].clone();
                    w.debouncer.on_event(at_ms);
                    w.last_seen_ms = Some(at_ms);
                    self.watches.set(i, w);
                    true
                }
            },
            None => false,
        }
    }

    /// The watch of the mission `mission_id` was lost. The first watch of
    /// the mission is marked as lost and forgets what was pending; the
    /// mission itself is not touched. The answer is whether a watch that
    /// was not lost before is lost now.
    pub fn mark_lost(&mut self, mission_id: &str) -> (r: bool)
        ensures
            if none_of(old(self)@, watch_of(mission_id@)) {
                !r && final(self)@ == old(self)@
            } else {
                exists|i: int|
                    #![trigger old(self)@[i]]
                    first_at(old(self)@, watch_of(mission_id@), i) && r == !old(self)@[i].lost
                        && final(self)@ == old(self)@.update(
                        i,
                        WatchView { pending: None, lost: true, ..old(self)@[i] },
                    )
            },
    {
        let key = String::from_str(mission_id);
        match self.find(&key) {
            Some(i) => {
                let was_lost = self.watches[i].lost;
                let mut w = self.watches[i].clone();
                w.lost = true;
                w.debouncer.pending = None;
                self.watches.set(i, w);
                !was_lost
            },
            None => false,
        }
    }

    /// Polls the watch of the mission `mission_id` at `now_ms` and, where
    /// its burst has settled, asks the registry for the permit to run the
    /// mission at `now`. See [`settled`].
    pub fn settle(
        &mut self,
        registry: &mut Registry,
        mission_id: &str,
        now_ms: u64,
        now: Timestamp,
    ) -> (r: SettleOutcome)
        ensures
            settled(
                old(self)@,
                final(self)@,
                old(registry)@,
                final(registry)@,
                mission_id@,
                now_ms as int,
                now,
                r,
            ),
    {
        let key = String::from_str(mission_id);
        let ghost pre = self@;
        let i = match self.find(&key) {
            Some(i) => i,
            None => {
                return SettleOutcome::Unwatched;
            },
        };
        if self.watches[i].lost {
            return SettleOutcome::Unwatched;
        }
        let mut w = self.watches[i].clone();
        if !w.debouncer.poll(now_ms) {
            return SettleOutcome::Quiet;
        }
        let ghost changed = w@;
        self.watches.set(i, w);
        assert(self@ =~= pre.update(i as int, changed));
        match registry.begin_execution(mission_id, now) {
            Ok(BeginOutcome::Started(ticket)) => SettleOutcome::Started(ticket),
            Ok(BeginOutcome::Busy) => SettleOutcome::Dropped,
            Err(e) => SettleOutcome::Refused(e),
        }
    }

    /// When to poll next: the earliest moment at which the burst of a
    /// watch will have settled if no further event comes; nothing while
    /// no watch has an event pending.
    pub fn next_deadline(&self) -> (r: Option<u64>)
        ensures
            match r {
                Some(at) => {
                    &&& exists|k: int|
                        0 <= k < self@.len() && deadline_of(#[trigger] self@[k]) == Some(at as int)
                    &&& forall|k: int|
                        0 <= k < self@.len() ==> (deadline_of(#[trigger] self@[k]) matches Some(
                            other,
                        ) ==> at <= other)
                },
                None => forall|k: int|
                    0 <= k < self@.len() ==> deadline_of(#[trigger] self@[k]) is None,
            },
    {
        let mut best: Option<u64> = None;
        let mut i: usize = 0;
        while i < self.watches.len()
            invariant
                i <= self.watches.len(),
                match best {
                    Some(at) => {
                        &&& exists|k: int|
                            0 <= k < i && deadline_of(#[trigger] self@[k]) == Some(at as int)
                        &&& forall|k: int|
                            0 <= k < i ==> (deadline_of(#[trigger] self@[k]) matches Some(other)
                                ==> at <= other)
                    },
                    None => forall|k: int| 0 <= k < i ==> deadline_of(#[trigger] self@[k]) is None,
                },
            decreases self.watches.len() - i,
        {
            assert(self@[i as int] == self.watches[i as int]@);
            if !self.watches[i].lost {
                match self.watches[i].debouncer.deadline() {
                    Some(at) => {
                        match best {
                            Some(b) => {
                                if at < b {
                                    best = Some(at);
                                }
                            },
                            None => {
                                best = Some(at);
                            },
                        }
                    },
                    None => {},
                }
            }
            i = i + 1;
        }
        best
    }
}

/// The moment at which the burst of a watch will have settled, counted up
/// to the end of the clock; nothing for a watch that was lost or has no
/// event pending.
pub open spec fn deadline_of(w: WatchView) -> Option<int> {
    match w.pending {
        Some(last) => if w.lost {
            None
        } else if last + w.window > u64::MAX {
            Some(u64::MAX as int)
        } else {
            Some(last + w.window)
        },
        None => None,
    }
}

} // verus!
