use vstd::prelude::*;
use crate::roster::{Roster, RosterEntry, TimelineError};
use crate::rules::{frame_result, EntityState};
use crate::timeline::{resolved, TimelineStore};

verus! {

/// Owns the roster and the timeline, and answers queries for the world at a tick.
pub struct Server {
    roster: Roster,
    timeline: TimelineStore,
}

impl Server {
    /// The registered entities.
    pub closed spec fn roster_view(&self) -> Seq<RosterEntry> {
        self.roster@
    }

    /// The timeline cache.
    pub closed spec fn store(&self) -> TimelineStore {
        self.timeline
    }

    pub open spec fn wf(&self) -> bool {
        self.store().wf(self.roster_view())
    }

    /// A server with no entities and no keyframes.
    pub fn new() -> (r: Server)
        ensures
            r.wf(),
            r.roster_view() == Seq::<RosterEntry>::empty(),
            r.store().count() == 0,
    {
        Server { roster: Roster::new(), timeline: TimelineStore::new() }
    }

    /// Registers an entity and returns its ID.
    pub fn add_entity(&mut self, entry: RosterEntry) -> (id: usize)
        requires
            old(self).wf(),
        ensures
            final(self).wf(),
            final(self).roster_view() == old(self).roster_view().push(entry),
            final(self).store() == old(self).store(),
            id == old(self).roster_view().len(),
    {
        proof {
            self.timeline.lemma_wf_roster_push(self.roster@, entry);
        }
        self.roster.register(entry)
    }

    /// Whether the seed keyframe has been stored.
    pub fn is_seeded(&self) -> (r: bool)
        ensures
            r == (self.store().count() > 0),
    {
        self.timeline.is_seeded()
    }

    /// Stores the seed keyframe `snapshot` at tick `genesis`; done once, before any query.
    pub fn seed(&mut self, genesis: usize, snapshot: Vec<EntityState>)
        requires
            old(self).store().count() == 0,
        ensures
            final(self).wf(),
            final(self).roster_view() == old(self).roster_view(),
            final(self).store().count() == 1,
            final(self).store().genesis_index() == genesis,
            final(self).store()@ == map![genesis as nat => snapshot@],
    {
        self.timeline.seed(genesis, snapshot);
    }

    /// The world at tick `target`, computed from the closest earlier keyframe
    /// where it is not cached yet.
    pub fn query(&mut self, target: usize) -> (r: Result<Vec<EntityState>, TimelineError>)
        requires
            old(self).wf(),
        ensures
            final(self).wf(),
            final(self).roster_view() == old(self).roster_view(),
            resolved(
                old(self).store(),
                old(self).roster_view(),
                target as nat,
                final(self).store(),
                frame_result(r),
            ),
    {
        self.timeline.resolve(&self.roster, target)
    }

    /// The cached keyframe of tick `t`, without computing anything.
    pub fn keyframe(&self, t: usize) -> (r: Option<Vec<EntityState>>)
        ensures
            self.store()@.contains_key(t as nat) ==> (r matches Some(v) && v@ == self.store()@[t as nat]),
            !self.store()@.contains_key(t as nat) ==> r is None,
    {
        self.timeline.keyframe(t)
    }

    /// Every cached entity state, keyframe after keyframe in tick order.
    pub fn all_states(&self) -> (r: Vec<EntityState>)
        ensures
            r@ == self.store().frames_in_order().flatten(),
    {
        self.timeline.all_states()
    }

    /// Marks the start of a game; the timeline and the roster are left as they are.
    pub fn start_game(&mut self)
        ensures
            final(self).roster_view() == old(self).roster_view(),
            final(self).store() == old(self).store(),
    {
    }
}

} // verus!
