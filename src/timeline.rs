use vstd::prelude::*;
use crate::roster::{Roster, RosterEntry, TimelineError};
use crate::rules::{all_known, moved_in, copy_frame, frame_result, next_snapshot, step_snapshot, EntityState};

verus! {

/// The keyframe `ticks` ticks after `seed`, or the first error met on the way.
pub open spec fn walk(roster: Seq<RosterEntry>, seed: Seq<EntityState>, ticks: nat) -> Result<
    Seq<EntityState>,
    TimelineError,
>
    decreases ticks,
{
    if ticks == 0 {
        Ok(seed)
    } else {
        match walk(roster, seed, (ticks - 1) as nat) {
            Ok(prev) => next_snapshot(roster, prev),
            Err(e) => Err(e),
        }
    }
}

/// Once `walk` fails, it fails with the same error at every later tick.
pub proof fn lemma_walk_error_persists(
    roster: Seq<RosterEntry>,
    seed: Seq<EntityState>,
    k: nat,
    m: nat,
)
    requires
        walk(roster, seed, k) is Err,
        k <= m,
    ensures
        walk(roster, seed, m) == walk(roster, seed, k),
    decreases m - k,
{
    if k < m {
        lemma_walk_error_persists(roster, seed, k, (m - 1) as nat);
    }
}

/// Adding an entry to the roster changes no replay that succeeded: the entities
/// it moved were all known already.
pub proof fn lemma_walk_roster_push(
    roster: Seq<RosterEntry>,
    entry: RosterEntry,
    seed: Seq<EntityState>,
    ticks: nat,
)
    requires
        walk(roster, seed, ticks) is Ok,
    ensures
        walk(roster.push(entry), seed, ticks) == walk(roster, seed, ticks),
    decreases ticks,
{
    if ticks > 0 {
        let k = (ticks - 1) as nat;
        if walk(roster, seed, k) is Err {
            lemma_walk_error_persists(roster, seed, k, ticks);
        }
        lemma_walk_roster_push(roster, entry, seed, k);
        let prev = walk(roster, seed, k)->Ok_0;
        let ext = roster.push(entry);
        assert(all_known(roster, prev));
        assert forall|i: int| 0 <= i < prev.len() implies moved_in(ext, #[trigger] prev[i])
            == moved_in(roster, prev[i]) by {
            assert(ext[prev[i].id as int] == roster[prev[i].id as int]);
        }
        assert(all_known(ext, prev));
        assert(prev.map_values(|e: EntityState| moved_in(ext, e)->Some_0) =~= prev.map_values(
            |e: EntityState| moved_in(roster, e)->Some_0,
        ));
    }
}

/// What resolving `target` on `pre` does: `post` is the store afterwards and `r`
/// the keyframe returned (or the error).
pub open spec fn resolved(
    pre: TimelineStore,
    roster: Seq<RosterEntry>,
    target: nat,
    post: TimelineStore,
    r: Result<Seq<EntityState>, TimelineError>,
) -> bool {
    let g = pre.genesis_index();
    // the store stays well formed, keeps its genesis, and never alters a cached keyframe
    &&& post.wf(roster)
    &&& post.genesis_index() == g
    &&& pre.count() <= post.count()
    &&& forall|t: nat| #[trigger]
        pre@.contains_key(t) ==> post@.contains_key(t) && post@[t] == pre@[t]
    // a cached tick is answered from the cache, with no write
    &&& pre@.contains_key(target) ==> post@ == pre@ && r == Ok::<
        Seq<EntityState>,
        TimelineError,
    >(pre@[target])
    // nothing at or before the target: no genesis
    &&& (pre.count() == 0 || target < g) ==> post@ == pre@ && r == Err::<
        Seq<EntityState>,
        TimelineError,
    >(TimelineError::NoGenesisSnapshot)
    // otherwise the answer is the seed replayed up to the target
    &&& (pre.count() > 0 && g <= target) ==> r == walk(roster, pre.seed_frame(), (target - g) as nat)
    // on success every tick from genesis through the target is cached
    &&& r is Ok ==> post.count() == if pre.count() > target - g + 1 {
        pre.count()
    } else {
        (target - g + 1) as nat
    }
    // on failure the cache ends just before the first tick that fails
    &&& (r is Err && pre.count() > 0 && g <= target) ==> walk(
        roster,
        pre.seed_frame(),
        post.count(),
    ) is Err
}

/// The cache of keyframes. The keyframe of tick `genesis + i` is `frames[i]`,
/// so the cached ticks always run without a gap from the genesis tick.
pub struct TimelineStore {
    genesis: usize,
    frames: Vec<Vec<EntityState>>,
}

impl View for TimelineStore {
    /// Tick to keyframe.
    type V = Map<nat, Seq<EntityState>>;

    closed spec fn view(&self) -> Map<nat, Seq<EntityState>> {
        Map::new(
            |t: nat| self.genesis <= t < self.genesis + self.frames@.len(),
            |t: nat| self.frames@[t - self.genesis]@,
        )
    }
}

impl TimelineStore {
    /// The tick of the seed keyframe (meaningful once seeded).
    pub closed spec fn genesis_index(&self) -> nat {
        self.genesis as nat
    }

    /// How many keyframes are cached.
    pub closed spec fn count(&self) -> nat {
        self.frames@.len()
    }

    /// The seed keyframe.
    pub open spec fn seed_frame(&self) -> Seq<EntityState> {
        self@[self.genesis_index()]
    }

    /// The cached ticks are `genesis .. genesis + count`, the last of them is a
    /// `usize`, and each cached keyframe is the seed replayed up to its tick.
    pub open spec fn wf(&self, roster: Seq<RosterEntry>) -> bool {
        &&& self.genesis_index() + self.count() <= usize::MAX + 1
        &&& forall|t: nat|
            #[trigger] self@.contains_key(t) <==> self.genesis_index() <= t < self.genesis_index()
                + self.count()
        &&& forall|t: nat|
            #[trigger] self@.contains_key(t) ==> walk(roster, self.seed_frame(), (t
                - self.genesis_index()) as nat) == Ok::<Seq<EntityState>, TimelineError>(self@[t])
    }

    /// An empty store.
    pub fn new() -> (r: TimelineStore)
        ensures
            r.count() == 0,
            r@ == Map::<nat, Seq<EntityState>>::empty(),
            forall|roster: Seq<RosterEntry>| r.wf(roster),
    {
        let r = TimelineStore { genesis: 0, frames: Vec::new() };
        assert(r@ =~= Map::<nat, Seq<EntityState>>::empty());
        r
    }

    /// Whether a seed keyframe has been stored.
    pub fn is_seeded(&self) -> (r: bool)
        ensures
            r == (self.count() > 0),
    {
        self.frames.len() > 0
    }

    /// Stores the seed keyframe `snapshot` at tick `genesis`.
    pub fn seed(&mut self, genesis: usize, snapshot: Vec<EntityState>)
        requires
            old(self).count() == 0,
        ensures
            final(self).count() == 1,
            final(self).genesis_index() == genesis,
            final(self)@ == map![genesis as nat => snapshot@],
            forall|roster: Seq<RosterEntry>| final(self).wf(roster),
    {
        self.genesis = genesis;
        self.frames.push(snapshot);
        assert(self@ =~= map![genesis as nat => snapshot@]);
    }

    /// The cached keyframes in tick order.
    pub open spec fn frames_in_order(&self) -> Seq<Seq<EntityState>> {
        Seq::new(self.count(), |i: int| self@[(self.genesis_index() + i) as nat])
    }

    /// Every cached entity state, keyframe after keyframe in tick order.
    pub fn all_states(&self) -> (r: Vec<EntityState>)
        ensures
            r@ == self.frames_in_order().flatten(),
    {
        let mut out: Vec<EntityState> = Vec::new();
        let mut i: usize = 0;
        while i < self.frames.len()
            invariant
                i <= self.frames@.len(),
                out@ == self.frames_in_order().take(i as int).flatten(),
            decreases self.frames@.len() - i,
        {
            let frame = &self.frames[i];
            let ghost before = out@;
            let mut j: usize = 0;
            while j < frame.len()
                invariant
                    j <= frame@.len(),
                    out@ == before + frame@.take(j as int),
                decreases frame@.len() - j,
            {
                out.push(frame[j]);
                j += 1;
                assert(out@ =~= before + frame@.take(j as int));
            }
            proof {
                let fs = self.frames_in_order();
                assert(fs[i as int] == frame@);
                assert(fs.take(i + 1) =~= fs.take(i as int).push(frame@));
                fs.take(i as int).lemma_flatten_push(frame@);
                assert(frame@.take(j as int) =~= frame@);
            }
            i += 1;
        }
        assert(self.frames_in_order().take(i as int) =~= self.frames_in_order());
        out
    }

    /// A store that is well formed for a roster stays so when an entry is added.
    pub proof fn lemma_wf_roster_push(&self, roster: Seq<RosterEntry>, entry: RosterEntry)
        requires
            self.wf(roster),
        ensures
            self.wf(roster.push(entry)),
    {
        assert forall|t: nat| #[trigger] self@.contains_key(t) implies walk(
            roster.push(entry),
            self.seed_frame(),
            (t - self.genesis_index()) as nat,
        ) == Ok::<Seq<EntityState>, TimelineError>(self@[t]) by {
            lemma_walk_roster_push(roster, entry, self.seed_frame(), (t - self.genesis_index()) as nat);
        }
    }

    /// The greatest cached tick at or before `target`, if any.
    pub fn closest_keyframe(&self, target: usize) -> (r: Option<usize>)
        requires
            self.genesis_index() + self.count() <= usize::MAX + 1,
        ensures
            r is None <==> (self.count() == 0 || target < self.genesis_index()),
            r matches Some(f) ==> {
                &&& self@.contains_key(f as nat)
                &&& f <= target
                &&& forall|t: nat| #[trigger] self@.contains_key(t) && t <= target ==> t <= f
            },
    {
        if self.frames.len() == 0 || target < self.genesis {
            None
        } else {
            let last = self.genesis + (self.frames.len() - 1);
            if last <= target {
                Some(last)
            } else {
                Some(target)
            }
        }
    }

    /// The cached keyframe of tick `t`, without computing anything.
    pub fn keyframe(&self, t: usize) -> (r: Option<Vec<EntityState>>)
        ensures
            self@.contains_key(t as nat) ==> (r matches Some(v) && v@ == self@[t as nat]),
            !self@.contains_key(t as nat) ==> r is None,
    {
        if self.genesis <= t && t - self.genesis < self.frames.len() {
            Some(copy_frame(&self.frames[t - self.genesis]))
        } else {
            None
        }
    }

    /// The keyframe of tick `target`: from the cache where it is there, else
    /// computed tick by tick from the closest earlier keyframe, caching each
    /// keyframe on the way. A failing tick leaves the earlier ones cached.
    pub fn resolve(&mut self, roster: &Roster, target: usize) -> (r: Result<
        Vec<EntityState>,
        TimelineError,
    >)
        requires
            old(self).wf(roster@),
        ensures
            resolved(*old(self), roster@, target as nat, *final(self), frame_result(r)),
    {
        let floor = match self.closest_keyframe(target) {
            None => return Err(TimelineError::NoGenesisSnapshot),
            Some(f) => f,
        };
        if floor == target {
            return Ok(copy_frame(&self.frames[target - self.genesis]));
        }
        let off = target - self.genesis;
        let ghost seed = old(self).seed_frame();
        assert(self.frames@.len() <= off) by {
            if self.frames@.len() > off {
                assert(self@.contains_key(target as nat));
            }
        }
        assert(!old(self)@.contains_key(target as nat));
        assert(old(self).count() > 0 && old(self).genesis_index() <= target);
        while self.frames.len() <= off
            invariant
                self.wf(roster@),
                self.genesis == old(self).genesis,
                old(self).frames@.len() <= self.frames@.len() <= off + 1,
                self.frames@.len() > 0,
                off == target - self.genesis,
                forall|i: int|
                    0 <= i < old(self).frames@.len() ==> self.frames@[i] == old(self).frames@[i],
                seed == self.seed_frame(),
                seed == old(self).seed_frame(),
                old(self).count() > 0,
                old(self).genesis_index() <= target,
                !old(self)@.contains_key(target as nat),
            decreases off + 1 - self.frames@.len(),
        {
            let last = self.frames.len() - 1;
            proof {
                let t = (self.genesis + last) as nat;
                assert(self@.contains_key(t));
            }
            match step_snapshot(roster, &self.frames[last]) {
                Ok(next) => {
                    let ghost pre = *self;
                    self.frames.push(next);
                    proof {
                        assert(self.frames@[0] == pre.frames@[0]);
                        assert forall|t: nat| #[trigger] self@.contains_key(t) implies walk(
                            roster@,
                            self.seed_frame(),
                            (t - self.genesis_index()) as nat,
                        ) == Ok::<Seq<EntityState>, TimelineError>(self@[t]) by {
                            if t < self.genesis + last + 1 {
                                assert(pre@.contains_key(t));
                            }
                        }
                    }
                },
                Err(e) => {
                    proof {
                        lemma_walk_error_persists(roster@, seed, self.frames@.len(), off as nat);
                        self.lemma_keeps_cached(*old(self));
                    }
                    return Err(e);
                },
            }
        }
        proof {
            self.lemma_keeps_cached(*old(self));
            assert(self@.contains_key(target as nat));
        }
        Ok(copy_frame(&self.frames[off]))
    }

    /// A store whose first keyframes are those of `pre`, under the same genesis,
    /// holds every keyframe of `pre`.
    proof fn lemma_keeps_cached(&self, pre: TimelineStore)
        requires
            self.genesis == pre.genesis,
            pre.frames@.len() <= self.frames@.len(),
            forall|i: int| 0 <= i < pre.frames@.len() ==> self.frames@[i] == pre.frames@[i],
        ensures
            forall|t: nat| #[trigger]
                pre@.contains_key(t) ==> self@.contains_key(t) && self@[t] == pre@[t],
    {
        assert forall|t: nat| #[trigger] pre@.contains_key(t) implies self@.contains_key(t)
            && self@[t] == pre@[t] by {
            assert(self.frames@[t - self.genesis] == pre.frames@[t - self.genesis]);
        }
    }
}

} // verus!
