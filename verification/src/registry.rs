//! The mission registry: the one place where the state of every mission
//! lives and the only place where the status of a mission changes.
//!
//! The registry hands out the permit to run a mission, the execution
//! ticket, to one caller at a time. Whoever holds the ticket runs the
//! backup and gives the ticket back when it ended.

use vstd::prelude::*;
use vstd::string::StringExecFns;
use crate::db::ignore::{ignore_views, Ignore, IgnoreView};
use crate::db::mission::{
    may_switch, mission_views, Mission, MissionStatus, MissionView, TimeLabel,
};
use crate::db::procedure::{Procedure, ProcedureView, TriggerKind};
use crate::db::table::{
    compacted, lemma_compacted_empty, lemma_compacted_next, lemma_count_of_next, next_ordinal,
    ordinal_after,
};
use crate::time::Timestamp;

verus! {

/// A mission with the procedure it refers to and the ignore rules of that
/// procedure, as they stood when the snapshot was taken.
#[derive(Debug, PartialEq, Eq)]
pub struct MissionSnapshot {
    pub mission: Mission,
    pub procedure: Procedure,
    pub ignores: Vec<Ignore>,
}

/// The mathematical content of a [`MissionSnapshot`].
pub struct SnapshotView {
    pub mission: MissionView,
    pub procedure: ProcedureView,
    pub ignores: Seq<IgnoreView>,
}

impl View for MissionSnapshot {
    type V = SnapshotView;

    open spec fn view(&self) -> SnapshotView {
        SnapshotView {
            mission: self.mission@,
            procedure: self.procedure@,
            ignores: ignore_views(self.ignores@),
        }
    }
}

/// A copy of `rules`, rule by rule.
pub fn copy_ignores(rules: &Vec<Ignore>) -> (r: Vec<Ignore>)
    ensures
        ignore_views(r@) == ignore_views(rules@),
{
    let mut out: Vec<Ignore> = Vec::new();
    let mut i: usize = 0;
    while i < rules.len()
        invariant
            i <= rules.len(),
            out.len() == i,
            forall|j: int| 0 <= j < i ==> out[j]@ == rules[j]@,
        decreases rules.len() - i,
    {
        out.push(rules[i].clone());
        i = i + 1;
    }
    out
}

impl Clone for MissionSnapshot {
    fn clone(&self) -> (r: Self)
        ensures
            r@ == self@,
    {
        MissionSnapshot {
            mission: self.mission.clone(),
            procedure: self.procedure.clone(),
            ignores: copy_ignores(&self.ignores),
        }
    }
}

/// Why the registry refused an operation.
#[derive(Clone, Copy, Debug, PartialEq, Eq, Structural)]
pub enum RegistryError {
    /// The mission is unknown or marked as deleted, or what it refers to
    /// is.
    NotFound,
    /// The status of the mission does not allow the change.
    InvalidTransition,
}

/// How a run ended, and when a cron mission is due next.
#[derive(Clone, Copy, Debug, PartialEq, Eq)]
pub struct ExecutionOutcome {
    pub succeeded: bool,
    /// The next occurrence of the cron schedule, where the run belongs to
    /// a cron mission and there is a next occurrence.
    pub next_runtime: Option<Timestamp>,
}

/// The permit to run one mission once. It cannot be copied, and
/// [`Registry::end_execution`] takes it back.
#[derive(Debug)]
pub struct ExecutionTicket {
    mission_id: String,
    fired_at: Timestamp,
    snapshot: MissionSnapshot,
}

impl ExecutionTicket {
    /// The identity of the mission that the ticket is for.
    pub closed spec fn id(&self) -> Seq<char> {
        self.mission_id@
    }

    /// When the trigger fired.
    pub closed spec fn fired(&self) -> Timestamp {
        self.fired_at
    }

    /// The mission as it stood when the ticket was handed out.
    pub closed spec fn taken(&self) -> SnapshotView {
        self.snapshot@
    }

    /// The identity of the mission that the ticket is for.
    pub fn mission_id(&self) -> (r: &String)
        ensures
            r@ == self.id(),
    {
        &self.mission_id
    }

    /// When the trigger fired.
    pub fn fired_at(&self) -> (r: Timestamp)
        ensures
            r == self.fired(),
    {
        self.fired_at
    }

    /// The mission, its procedure and its ignore rules as they stood when
    /// the ticket was handed out. Later changes in the registry do not
    /// reach a run that is under way.
    pub fn snapshot(&self) -> (r: &MissionSnapshot)
        ensures
            r@ == self.taken(),
    {
        &self.snapshot
    }
}

/// What a trigger gets when it asks to run a mission.
#[derive(Debug)]
pub enum BeginOutcome {
    /// The mission is now running, and this is the permit.
    Started(ExecutionTicket),
    /// A run of the mission is under way; the trigger is dropped.
    Busy,
}

/// The entry at `i` is the entry of the mission `id`.
pub open spec fn holds(entries: Seq<SnapshotView>, id: Seq<char>, i: int) -> bool {
    0 <= i < entries.len() && entries[i].mission.mission_id == id
}

/// Some entry is the entry of the mission `id`.
pub open spec fn known(entries: Seq<SnapshotView>, id: Seq<char>) -> bool {
    exists|i: int| holds(entries, id, i)
}

/// No two entries belong to the same mission.
pub open spec fn distinct_ids(entries: Seq<SnapshotView>) -> bool {
    forall|i: int, j: int|
        0 <= i < j < entries.len() ==> (#[trigger] entries[i]).mission.mission_id != (
        #[trigger] entries[j]).mission.mission_id
}

/// The place of the entry of the mission `id`.
pub open spec fn index_of(entries: Seq<SnapshotView>, id: Seq<char>) -> int {
    choose|i: int| holds(entries, id, i)
}

/// The mission `id` as the registry has it.
pub open spec fn mission_of(entries: Seq<SnapshotView>, id: Seq<char>) -> MissionView {
    entries[index_of(entries, id)].mission
}

/// The mission `id` is known and not marked as deleted.
pub open spec fn is_live(entries: Seq<SnapshotView>, id: Seq<char>) -> bool {
    known(entries, id) && !mission_of(entries, id).is_deleted
}

/// A run of the mission `id` is under way: a ticket for it is out.
pub open spec fn in_flight(entries: Seq<SnapshotView>, id: Seq<char>) -> bool {
    known(entries, id) && mission_of(entries, id).status == MissionStatus::Backuping
}

/// The entries with the mission `id` replaced by `m`.
pub open spec fn with_mission(
    entries: Seq<SnapshotView>,
    id: Seq<char>,
    m: MissionView,
) -> Seq<SnapshotView> {
    let i = index_of(entries, id);
    entries.update(i, SnapshotView { mission: m, ..entries[i] })
}

/// The mission after a run ended: armed again; a monitor mission
/// remembers when its trigger fired, and a cron mission takes over the
/// next occurrence where the outcome names one.
pub open spec fn after_run(
    m: MissionView,
    trigger: TriggerKind,
    fired_at: Timestamp,
    outcome: ExecutionOutcome,
) -> MissionView {
    let armed = MissionView { status: MissionStatus::Running, ..m };
    match trigger {
        TriggerKind::Monitor => MissionView { last_trigger: fired_at, ..armed },
        TriggerKind::Cron => match outcome.next_runtime {
            Some(next) => MissionView { next_runtime: next, ..armed },
            None => armed,
        },
        TriggerKind::Reserved => armed,
    }
}

/// Where the place `i` holds the mission `id` and no mission has two
/// entries, `i` is the place of the mission.
pub proof fn lemma_index_of(entries: Seq<SnapshotView>, id: Seq<char>, i: int)
    requires
        distinct_ids(entries),
        holds(entries, id, i),
    ensures
        known(entries, id),
        index_of(entries, id) == i,
{
    let j = index_of(entries, id);
    assert(holds(entries, id, j));
    if i < j {
        assert(entries[i].mission.mission_id != entries[j].mission.mission_id);
    } else if j < i {
        assert(entries[j].mission.mission_id != entries[i].mission.mission_id);
    }
}

/// The views of a sequence of snapshots, entry by entry.
pub open spec fn snapshot_views(entries: Seq<MissionSnapshot>) -> Seq<SnapshotView> {
    entries.map_values(|s: MissionSnapshot| s@)
}

/// A snapshot that the registry takes in: neither the mission nor the
/// procedure is marked as deleted, and the procedure is the one that the
/// mission refers to.
pub open spec fn admissible(s: SnapshotView) -> bool {
    &&& !s.mission.is_deleted
    &&& !s.procedure.is_deleted
    &&& s.procedure.procedure_id == s.mission.procedure_id
}

/// The entries that compaction keeps: those that are not marked as
/// deleted, and those with a run under way.
pub open spec fn snapshot_is_kept() -> spec_fn(SnapshotView) -> bool {
    |s: SnapshotView| !s.mission.is_deleted || s.mission.status == MissionStatus::Backuping
}

/// Puts an entry in its place after compaction: the mission at place
/// `place` (counted from 0) gets the ordinal `place + 1`.
pub open spec fn snapshot_placed() -> spec_fn(SnapshotView, int) -> SnapshotView {
    |s: SnapshotView, place: int|
        SnapshotView {
            mission: MissionView { id: next_ordinal(place as nat) as i32, ..s.mission },
            ..s
        }
}

/// The missions that a listing shows: those of the given status where
/// one is given, and those marked as deleted only on request.
pub open spec fn listed(status: Option<MissionStatus>, include_deleted: bool) -> spec_fn(
    MissionView,
) -> bool {
    |m: MissionView|
        (include_deleted || !m.is_deleted) && (status matches Some(s) ==> m.status == s)
}

/// The missions of the entries, in their order.
pub open spec fn missions_of(entries: Seq<SnapshotView>) -> Seq<MissionView> {
    entries.map_values(|s: SnapshotView| s.mission)
}

/// One call of the registry, as far as it bears on the state.
pub enum Step {
    /// [`Registry::set_status`] for a mission and a status.
    SetStatus(Seq<char>, MissionStatus),
    /// [`Registry::begin_execution`] for a mission.
    Begin(Seq<char>),
    /// [`Registry::end_execution`] with a ticket for a mission, the
    /// trigger kind and the firing time that the ticket holds, and the
    /// outcome.
    End(Seq<char>, TriggerKind, Timestamp, ExecutionOutcome),
    /// [`Registry::upsert`] of a snapshot.
    Upsert(SnapshotView),
    /// [`Registry::remove`] of a mission at an instant.
    Remove(Seq<char>, Timestamp),
    /// [`Registry::compact`].
    Compact,
    /// [`Registry::set_time`] for a mission, one of its two instants and
    /// the time to set.
    SetTime(Seq<char>, TimeLabel, Timestamp),
}

/// The step hands a ticket out: it asks to run a live, armed mission.
pub open spec fn hands_out(entries: Seq<SnapshotView>, s: Step, id: Seq<char>) -> bool {
    s matches Step::Begin(who) && who == id && is_live(entries, id) && mission_of(
        entries,
        id,
    ).status == MissionStatus::Running
}

/// The step takes a ticket back: it ends the run of a mission that has one
/// under way.
pub open spec fn takes_back(entries: Seq<SnapshotView>, s: Step, id: Seq<char>) -> bool {
    s matches Step::End(who, _, _, _) && who == id && in_flight(entries, id)
}

/// The state after a step. A step that the registry refuses leaves the
/// state as it is.
pub open spec fn step(entries: Seq<SnapshotView>, s: Step) -> Seq<SnapshotView> {
    match s {
        Step::SetStatus(id, target) => if is_live(entries, id) && may_switch(
            mission_of(entries, id).status,
            target,
        ) {
            with_mission(entries, id, MissionView { status: target, ..mission_of(entries, id) })
        } else {
            entries
        },
        Step::Begin(id) => if hands_out(entries, s, id) {
            with_mission(
                entries,
                id,
                MissionView { status: MissionStatus::Backuping, ..mission_of(entries, id) },
            )
        } else {
            entries
        },
        Step::End(id, trigger, fired_at, outcome) => if in_flight(entries, id) {
            with_mission(entries, id, after_run(mission_of(entries, id), trigger, fired_at, outcome))
        } else {
            entries
        },
        Step::Upsert(snapshot) => {
            let id = snapshot.mission.mission_id;
            if !admissible(snapshot) {
                entries
            } else if known(entries, id) {
                if is_live(entries, id) {
                    entries.update(
                        index_of(entries, id),
                        SnapshotView {
                            mission: MissionView {
                                id: mission_of(entries, id).id,
                                status: mission_of(entries, id).status,
                                ..snapshot.mission
                            },
                            ..snapshot
                        },
                    )
                } else {
                    entries
                }
            } else {
                entries.push(
                    SnapshotView {
                        mission: MissionView {
                            id: next_ordinal(entries.len()) as i32,
                            status: MissionStatus::Paused,
                            ..snapshot.mission
                        },
                        ..snapshot
                    },
                )
            }
        },
        Step::Remove(id, now) => if is_live(entries, id) {
            with_mission(
                entries,
                id,
                MissionView { is_deleted: true, delete_at: now, ..mission_of(entries, id) },
            )
        } else {
            entries
        },
        Step::Compact => compacted(entries, snapshot_is_kept(), snapshot_placed()),
        Step::SetTime(id, label, time) => if is_live(entries, id) {
            with_mission(entries, id, (label.effect(time))(mission_of(entries, id)))
        } else {
            entries
        },
    }
}

/// The state of all missions: one entry per mission, each with the
/// procedure and the ignore rules that belong to it.
pub struct Registry {
    entries: Vec<MissionSnapshot>,
}

impl View for Registry {
    type V = Seq<SnapshotView>;

    closed spec fn view(&self) -> Seq<SnapshotView> {
        snapshot_views(self.entries@)
    }
}

impl Registry {
    #[verifier::type_invariant]
    spec fn one_entry_per_mission(self) -> bool {
        distinct_ids(snapshot_views(self.entries@))
    }

    /// A registry without missions.
    pub fn new() -> (r: Registry)
        ensures
            r@ == Seq::<SnapshotView>::empty(),
    {
        let r = Registry { entries: Vec::new() };
        r
    }

    /// What every registry keeps: no mission has two entries. The call
    /// does nothing; it is there for the modules of this crate that need
    /// the fact before they have asked the registry anything.
    pub(crate) fn one_entry_each(&self)
        ensures
            distinct_ids(self@),
    {
        proof {
            use_type_invariant(self);
        }
    }

    /// How many missions the registry holds, those marked as deleted
    /// included.
    pub fn len(&self) -> (n: usize)
        ensures
            n == self@.len(),
            distinct_ids(self@),
    {
        proof {
            use_type_invariant(self);
        }
        self.entries.len()
    }

    /// The place of the mission `id`, if the registry knows it.
    fn find(&self, id: &String) -> (r: Option<usize>)
        ensures
            distinct_ids(self@),
            match r {
                Some(i) => holds(self@, id@, i as int) && index_of(self@, id@) == i && known(
                    self@,
                    id@,
                ),
                None => !known(self@, id@),
            },
    {
        proof {
            use_type_invariant(self);
        }
        let mut i: usize = 0;
        while i < self.entries.len()
            invariant
                i <= self.entries.len(),
                distinct_ids(self@),
                forall|j: int| 0 <= j < i ==> !holds(self@, id@, j),
            decreases self.entries.len() - i,
        {
            if self.entries[i].mission.mission_id == *id {
                proof {
                    lemma_index_of(self@, id@, i as int);
                }
                return Some(i);
            }
            i = i + 1;
        }
        None
    }

    /// Hands the entries out and leaves the registry empty.
    fn take_entries(&mut self) -> (entries: Vec<MissionSnapshot>)
        ensures
            snapshot_views(entries@) == old(self)@,
            distinct_ids(old(self)@),
            final(self)@ == Seq::<SnapshotView>::empty(),
    {
        proof {
            use_type_invariant(&*self);
        }
        let mut entries: Vec<MissionSnapshot> = Vec::new();
        core::mem::swap(&mut self.entries, &mut entries);
        entries
    }

    /// Takes `entries` for the entries of the registry.
    fn put_entries(&mut self, entries: Vec<MissionSnapshot>)
        requires
            distinct_ids(snapshot_views(entries@)),
        ensures
            final(self)@ == snapshot_views(entries@),
            distinct_ids(final(self)@),
    {
        let mut entries = entries;
        core::mem::swap(&mut self.entries, &mut entries);
    }

    /// Puts `m` in the place of the mission at `i`, which has the same
    /// identity.
    fn put_mission(&mut self, i: usize, m: Mission)
        requires
            i < old(self)@.len(),
            m@.mission_id == old(self)@[i as int].mission.mission_id,
        ensures
            final(self)@ == old(self)@.update(
                i as int,
                SnapshotView { mission: m@, ..old(self)@[i as int] },
            ),
            distinct_ids(final(self)@),
    {
        let ghost pre = self@;
        let mut entries = self.take_entries();
        let snapshot = MissionSnapshot {
            mission: m,
            procedure: entries[i].procedure.clone(),
            ignores: copy_ignores(&entries[i].ignores),
        };
        entries.set(i, snapshot);
        proof {
            let post = snapshot_views(entries@);
            assert(post =~= pre.update(i as int, SnapshotView { mission: m@, ..pre[i as int] }));
            assert forall|a: int, b: int| 0 <= a < b < post.len() implies (
            #[trigger] post[a]).mission.mission_id != (#[trigger] post[b]).mission.mission_id by {}
        }
        self.put_entries(entries);
    }

    /// Sets the status of the mission `mission_id` on behalf of the user.
    ///
    /// A paused mission can be armed and an armed one paused; nothing else
    /// is a change that a user may make, so asking for `Backuping`, for the
    /// status that the mission has already, or for any change while a run
    /// is under way is an `InvalidTransition`. A mission that is unknown or
    /// marked as deleted is `NotFound`, whatever was asked for. Returns the
    /// mission as it stands after the change; a refusal changes nothing.
    pub fn set_status(&mut self, mission_id: &str, target: MissionStatus) -> (r: Result<
        Mission,
        RegistryError,
    >)
        ensures
            distinct_ids(final(self)@),
            final(self)@ == step(old(self)@, Step::SetStatus(mission_id@, target)),
            match r {
                Ok(m) => {
                    &&& is_live(old(self)@, mission_id@)
                    &&& may_switch(mission_of(old(self)@, mission_id@).status, target)
                    &&& m@ == (MissionView {
                        status: target,
                        ..mission_of(old(self)@, mission_id@)
                    })
                    &&& final(self)@ == with_mission(old(self)@, mission_id@, m@)
                },
                Err(RegistryError::NotFound) => {
                    &&& !is_live(old(self)@, mission_id@)
                    &&& final(self)@ == old(self)@
                },
                Err(RegistryError::InvalidTransition) => {
                    &&& is_live(old(self)@, mission_id@)
                    &&& !may_switch(mission_of(old(self)@, mission_id@).status, target)
                    &&& final(self)@ == old(self)@
                },
            },
    {
        let key = String::from_str(mission_id);
        let i = match self.find(&key) {
            Some(i) => i,
            None => {
                return Err(RegistryError::NotFound);
            },
        };
        if self.entries[i].mission.is_deleted {
            return Err(RegistryError::NotFound);
        }
        let from = self.entries[i].mission.status;
        let allowed = match (from, target) {
            (MissionStatus::Paused, MissionStatus::Running) => true,
            (MissionStatus::Running, MissionStatus::Paused) => true,
            _ => false,
        };
        if !allowed {
            return Err(RegistryError::InvalidTransition);
        }
        let mut m = self.entries[i].mission.clone();
        m.status = target;
        self.put_mission(i, m.clone());
        Ok(m)
    }

    /// Asks for the permit to run the mission `mission_id`, whose trigger
    /// fired at `now`.
    ///
    /// An armed mission starts: its status becomes `Backuping` and the
    /// caller gets the ticket, with the mission as it stands at this
    /// moment. While a run is under way the answer is `Busy` and nothing
    /// changes, so no second ticket for a mission is handed out before the
    /// first came back. A paused mission is an `InvalidTransition`, a
    /// mission that is unknown or marked as deleted is `NotFound`.
    pub fn begin_execution(&mut self, mission_id: &str, now: Timestamp) -> (r: Result<
        BeginOutcome,
        RegistryError,
    >)
        ensures
            distinct_ids(final(self)@),
            final(self)@ == step(old(self)@, Step::Begin(mission_id@)),
            (r matches Ok(BeginOutcome::Started(_))) == hands_out(
                old(self)@,
                Step::Begin(mission_id@),
                mission_id@,
            ),
            match r {
                Ok(BeginOutcome::Started(ticket)) => {
                    &&& is_live(old(self)@, mission_id@)
                    &&& mission_of(old(self)@, mission_id@).status == MissionStatus::Running
                    &&& final(self)@ == with_mission(
                        old(self)@,
                        mission_id@,
                        MissionView {
                            status: MissionStatus::Backuping,
                            ..mission_of(old(self)@, mission_id@)
                        },
                    )
                    &&& ticket.id() == mission_id@
                    &&& ticket.fired() == now
                    &&& ticket.taken() == final(self)@[index_of(old(self)@, mission_id@)]
                },
                Ok(BeginOutcome::Busy) => {
                    &&& is_live(old(self)@, mission_id@)
                    &&& mission_of(old(self)@, mission_id@).status == MissionStatus::Backuping
                    &&& final(self)@ == old(self)@
                },
                Err(RegistryError::NotFound) => {
                    &&& !is_live(old(self)@, mission_id@)
                    &&& final(self)@ == old(self)@
                },
                Err(RegistryError::InvalidTransition) => {
                    &&& is_live(old(self)@, mission_id@)
                    &&& mission_of(old(self)@, mission_id@).status == MissionStatus::Paused
                    &&& final(self)@ == old(self)@
                },
            },
    {
        let key = String::from_str(mission_id);
        let i = match self.find(&key) {
            Some(i) => i,
            None => {
                return Err(RegistryError::NotFound);
            },
        };
        if self.entries[i].mission.is_deleted {
            return Err(RegistryError::NotFound);
        }
        match self.entries[i].mission.status {
            MissionStatus::Paused => Err(RegistryError::InvalidTransition),
            MissionStatus::Backuping => Ok(BeginOutcome::Busy),
            MissionStatus::Running => {
                let mut m = self.entries[i].mission.clone();
                m.status = MissionStatus::Backuping;
                self.put_mission(i, m);
                let ticket = ExecutionTicket {
                    mission_id: key,
                    fired_at: now,
                    snapshot: self.entries[i].clone(),
                };
                Ok(BeginOutcome::Started(ticket))
            },
        }
    }

    /// Takes the ticket of a run back.
    ///
    /// However the run ended, the mission is armed again. A monitor
    /// mission remembers when the trigger of this run fired; a cron mission
    /// takes over the next occurrence that the outcome names. What kind of
    /// trigger the mission has is read from the ticket. A mission that was
    /// marked as deleted during the run is handled like any other. Returns
    /// the mission as it stands now, which is what the store is to be
    /// told. A ticket for a mission that the registry does not know is
    /// `NotFound`, one for a mission without a run under way an
    /// `InvalidTransition`; both change nothing.
    pub fn end_execution(&mut self, ticket: ExecutionTicket, outcome: ExecutionOutcome) -> (r: Result<
        Mission,
        RegistryError,
    >)
        ensures
            distinct_ids(final(self)@),
            final(self)@ == step(
                old(self)@,
                Step::End(ticket.id(), ticket.taken().procedure.trigger, ticket.fired(), outcome),
            ),
            match r {
                Ok(m) => {
                    &&& in_flight(old(self)@, ticket.id())
                    &&& m@ == after_run(
                        mission_of(old(self)@, ticket.id()),
                        ticket.taken().procedure.trigger,
                        ticket.fired(),
                        outcome,
                    )
                    &&& final(self)@ == with_mission(old(self)@, ticket.id(), m@)
                },
                Err(RegistryError::NotFound) => {
                    &&& !known(old(self)@, ticket.id())
                    &&& final(self)@ == old(self)@
                },
                Err(RegistryError::InvalidTransition) => {
                    &&& known(old(self)@, ticket.id())
                    &&& !in_flight(old(self)@, ticket.id())
                    &&& final(self)@ == old(self)@
                },
            },
    {
        let i = match self.find(&ticket.mission_id) {
            Some(i) => i,
            None => {
                return Err(RegistryError::NotFound);
            },
        };
        match self.entries[i].mission.status {
            MissionStatus::Backuping => {},
            _ => {
                return Err(RegistryError::InvalidTransition);
            },
        }
        let mut m = self.entries[i].mission.clone();
        m.status = MissionStatus::Running;
        match ticket.snapshot.procedure.trigger {
            TriggerKind::Monitor => {
                m.last_trigger = ticket.fired_at;
            },
            TriggerKind::Cron => {
                match outcome.next_runtime {
                    Some(next) => {
                        m.next_runtime = next;
                    },
                    None => {},
                }
            },
            TriggerKind::Reserved => {},
        }
        self.put_mission(i, m.clone());
        Ok(m)
    }

    /// Takes a mission in, or brings the mission that the registry has
    /// under that identity up to date.
    ///
    /// A new mission starts paused and gets the next ordinal. A known
    /// mission keeps its status and its ordinal, so no update arms, pauses
    /// or ends anything; everything else, the procedure and the rules
    /// included, is taken from `snapshot`. Returns the mission as the
    /// registry holds it afterwards. `NotFound`, and nothing changes, where
    /// the snapshot is not admissible or the mission is marked as deleted
    /// in the registry.
    pub fn upsert(&mut self, snapshot: MissionSnapshot) -> (r: Result<Mission, RegistryError>)
        ensures
            distinct_ids(final(self)@),
            final(self)@ == step(old(self)@, Step::Upsert(snapshot@)),
            match r {
                Ok(m) => {
                    let id = snapshot@.mission.mission_id;
                    &&& admissible(snapshot@)
                    &&& if known(old(self)@, id) {
                        &&& is_live(old(self)@, id)
                        &&& m@ == (MissionView {
                            id: mission_of(old(self)@, id).id,
                            status: mission_of(old(self)@, id).status,
                            ..snapshot@.mission
                        })
                        &&& final(self)@ == old(self)@.update(
                            index_of(old(self)@, id),
                            SnapshotView { mission: m@, ..snapshot@ },
                        )
                    } else {
                        &&& m@ == (MissionView {
                            id: next_ordinal(old(self)@.len()) as i32,
                            status: MissionStatus::Paused,
                            ..snapshot@.mission
                        })
                        &&& final(self)@ == old(self)@.push(
                            SnapshotView { mission: m@, ..snapshot@ },
                        )
                    }
                },
                Err(RegistryError::NotFound) => {
                    &&& final(self)@ == old(self)@
                    &&& !admissible(snapshot@) || (known(old(self)@, snapshot@.mission.mission_id)
                        && !is_live(old(self)@, snapshot@.mission.mission_id))
                },
                Err(RegistryError::InvalidTransition) => false,
            },
    {
        proof {
            use_type_invariant(&*self);
        }
        if snapshot.mission.is_deleted || snapshot.procedure.is_deleted
            || snapshot.procedure.procedure_id != snapshot.mission.procedure_id {
            return Err(RegistryError::NotFound);
        }
        let ghost pre = self@;
        let mut snapshot = snapshot;
        match self.find(&snapshot.mission.mission_id) {
            Some(i) => {
                if self.entries[i].mission.is_deleted {
                    return Err(RegistryError::NotFound);
                }
                snapshot.mission.id = self.entries[i].mission.id;
                snapshot.mission.status = self.entries[i].mission.status;
                let m = snapshot.mission.clone();
                let ghost taken = snapshot@;
                let mut entries = self.take_entries();
                entries.set(i, snapshot);
                proof {
                    let post = snapshot_views(entries@);
                    assert(post =~= pre.update(i as int, taken));
                    assert forall|a: int, b: int| 0 <= a < b < post.len() implies (
                    #[trigger] post[a]).mission.mission_id != (
                    #[trigger] post[b]).mission.mission_id by {}
                }
                self.put_entries(entries);
                Ok(m)
            },
            None => {
                snapshot.mission.id = ordinal_after(self.entries.len());
                snapshot.mission.status = MissionStatus::Paused;
                let m = snapshot.mission.clone();
                let ghost taken = snapshot@;
                let mut entries = self.take_entries();
                entries.push(snapshot);
                proof {
                    let post = snapshot_views(entries@);
                    assert(post =~= pre.push(taken));
                    assert forall|a: int, b: int| 0 <= a < b < post.len() implies (
                    #[trigger] post[a]).mission.mission_id != (
                    #[trigger] post[b]).mission.mission_id by {
                        if b >= pre.len() {
                            assert(!holds(pre, m@.mission_id, a));
                        }
                    }
                }
                self.put_entries(entries);
                Ok(m)
            },
        }
    }

    /// Sets one of the two instants of the mission `mission_id`: when it
    /// runs next, or when it was triggered last. Nothing else changes, the
    /// status least of all. Returns the mission as it stands afterwards.
    /// `NotFound`, and nothing changes, where the mission is unknown or
    /// marked as deleted.
    pub fn set_time(&mut self, mission_id: &str, label: TimeLabel, time: Timestamp) -> (r: Result<
        Mission,
        RegistryError,
    >)
        ensures
            distinct_ids(final(self)@),
            final(self)@ == step(old(self)@, Step::SetTime(mission_id@, label, time)),
            match r {
                Ok(m) => {
                    &&& is_live(old(self)@, mission_id@)
                    &&& m@ == (label.effect(time))(mission_of(old(self)@, mission_id@))
                    &&& final(self)@ == with_mission(old(self)@, mission_id@, m@)
                },
                Err(RegistryError::NotFound) => {
                    &&& !is_live(old(self)@, mission_id@)
                    &&& final(self)@ == old(self)@
                },
                Err(RegistryError::InvalidTransition) => false,
            },
    {
        let key = String::from_str(mission_id);
        let i = match self.find(&key) {
            Some(i) => i,
            None => {
                return Err(RegistryError::NotFound);
            },
        };
        if self.entries[i].mission.is_deleted {
            return Err(RegistryError::NotFound);
        }
        let mut m = self.entries[i].mission.clone();
        match label {
            TimeLabel::Next => {
                m.next_runtime = time;
            },
            TimeLabel::Last => {
                m.last_trigger = time;
            },
        }
        self.put_mission(i, m.clone());
        Ok(m)
    }

    /// Marks the mission `mission_id` as deleted at `now`.
    ///
    /// The entry stays in the registry until compaction, and a run that is
    /// under way goes on and gives its ticket back as usual. Returns the
    /// mission as it stands afterwards. `NotFound`, and nothing changes,
    /// where the mission is unknown or marked as deleted already.
    pub fn remove(&mut self, mission_id: &str, now: Timestamp) -> (r: Result<Mission, RegistryError>)
        ensures
            distinct_ids(final(self)@),
            final(self)@ == step(old(self)@, Step::Remove(mission_id@, now)),
            match r {
                Ok(m) => {
                    &&& is_live(old(self)@, mission_id@)
                    &&& m@ == (MissionView {
                        is_deleted: true,
                        delete_at: now,
                        ..mission_of(old(self)@, mission_id@)
                    })
                    &&& final(self)@ == with_mission(old(self)@, mission_id@, m@)
                },
                Err(RegistryError::NotFound) => {
                    &&& !is_live(old(self)@, mission_id@)
                    &&& final(self)@ == old(self)@
                },
                Err(RegistryError::InvalidTransition) => false,
            },
    {
        let key = String::from_str(mission_id);
        let i = match self.find(&key) {
            Some(i) => i,
            None => {
                return Err(RegistryError::NotFound);
            },
        };
        if self.entries[i].mission.is_deleted {
            return Err(RegistryError::NotFound);
        }
        let mut m = self.entries[i].mission.clone();
        m.is_deleted = true;
        m.delete_at = now;
        self.put_mission(i, m.clone());
        Ok(m)
    }

    /// Whether the registry has an entry for the mission `mission_id`,
    /// marked as deleted or not.
    pub fn knows(&self, mission_id: &str) -> (r: bool)
        ensures
            r == known(self@, mission_id@),
            distinct_ids(self@),
    {
        let key = String::from_str(mission_id);
        self.find(&key).is_some()
    }

    /// The live mission `mission_id` with its procedure and its rules;
    /// nothing where the mission is unknown or marked as deleted.
    pub fn get(&self, mission_id: &str) -> (r: Option<MissionSnapshot>)
        ensures
            match r {
                Some(s) => is_live(self@, mission_id@) && s@ == self@[index_of(self@, mission_id@)],
                None => !is_live(self@, mission_id@),
            },
    {
        let key = String::from_str(mission_id);
        match self.find(&key) {
            Some(i) => {
                if self.entries[i].mission.is_deleted {
                    None
                } else {
                    Some(self.entries[i].clone())
                }
            },
            None => None,
        }
    }

    /// The missions in the order of the registry: those of the status
    /// `status` where one is given, and those marked as deleted only where
    /// `include_deleted` asks for them.
    pub fn list_missions(&self, status: Option<MissionStatus>, include_deleted: bool) -> (r: Vec<
        Mission,
    >)
        ensures
            mission_views(r@) == missions_of(self@).filter(listed(status, include_deleted)),
    {
        let ghost all = missions_of(self@);
        let ghost p = listed(status, include_deleted);
        let mut out: Vec<Mission> = Vec::new();
        let mut i: usize = 0;
        while i < self.entries.len()
            invariant
                i <= self.entries.len(),
                all == missions_of(self@),
                p == listed(status, include_deleted),
                mission_views(out@) == all.take(i as int).filter(p),
            decreases self.entries.len() - i,
        {
            proof {
                lemma_count_of_next(all, p, i as int);
            }
            let m = &self.entries[i].mission;
            let wanted = (include_deleted || !m.is_deleted) && match status {
                Some(s) => m.status == s,
                None => true,
            };
            if wanted {
                out.push(m.clone());
            }
            i = i + 1;
        }
        assert(all.take(i as int) =~= all);
        out
    }

    /// Compacts the registry: drops the missions that are marked as
    /// deleted, except those with a run under way, and numbers the
    /// remaining missions from 1 in their order. Nothing but the ordinal of
    /// a remaining mission changes. Returns how many missions were dropped.
    pub fn compact(&mut self) -> (removed: usize)
        ensures
            distinct_ids(final(self)@),
            final(self)@ == step(old(self)@, Step::Compact),
            removed == old(self)@.len() - final(self)@.len(),
    {
        let ghost pre = self@;
        let entries = self.take_entries();
        let mut kept: Vec<MissionSnapshot> = Vec::new();
        let mut i: usize = 0;
        proof {
            lemma_compacted_empty(pre, snapshot_is_kept(), snapshot_placed());
        }
        while i < entries.len()
            invariant
                i <= entries.len(),
                snapshot_views(entries@) == pre,
                distinct_ids(pre),
                kept.len() <= i,
                snapshot_views(kept@) == compacted(
                    pre.take(i as int),
                    snapshot_is_kept(),
                    snapshot_placed(),
                ),
                distinct_ids(snapshot_views(kept@)),
                forall|k: int|
                    0 <= k < kept.len() ==> exists|j: int|
                        0 <= j < i && pre[j].mission.mission_id == (#[trigger] snapshot_views(
                            kept@,
                        )[k]).mission.mission_id,
            decreases entries.len() - i,
        {
            proof {
                lemma_compacted_next(pre, snapshot_is_kept(), snapshot_placed(), i as int);
            }
            let dropped = entries[i].mission.is_deleted && match entries[i].mission.status {
                MissionStatus::Backuping => false,
                _ => true,
            };
            if !dropped {
                let ghost before = snapshot_views(kept@);
                let mut snapshot = entries[i].clone();
                snapshot.mission.id = ordinal_after(kept.len());
                let ghost added = snapshot@;
                kept.push(snapshot);
                proof {
                    let after = snapshot_views(kept@);
                    assert(after =~= before.push(added));
                    assert forall|a: int, b: int| 0 <= a < b < after.len() implies (
                    #[trigger] after[a]).mission.mission_id != (
                    #[trigger] after[b]).mission.mission_id by {
                        if b >= before.len() {
                            let j = choose|j: int|
                                0 <= j < i && pre[j].mission.mission_id
                                    == before[a].mission.mission_id;
                        }
                    }
                    assert forall|k: int| 0 <= k < after.len() implies exists|j: int|
                        0 <= j < i + 1 && pre[j].mission.mission_id == (
                        #[trigger] after[k]).mission.mission_id by {}
                }
            }
            i = i + 1;
        }
        assert(pre.take(i as int) =~= pre);
        let removed = entries.len() - kept.len();
        self.put_entries(kept);
        removed
    }
}

} // verus!
