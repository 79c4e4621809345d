use vstd::prelude::*;
use crate::roster::{MoveClass, RosterEntry, TimelineError};
use crate::rules::{all_known, moved_in, next_snapshot, EntityState};
use crate::timeline::{lemma_walk_error_persists, resolved, walk, TimelineStore};

verus! {

/// Resolving a tick that an earlier resolve returned writes nothing and returns
/// the same keyframe again.
pub proof fn lemma_resolve_idempotent(
    s0: TimelineStore,
    roster: Seq<RosterEntry>,
    target: nat,
    s1: TimelineStore,
    r1: Result<Seq<EntityState>, TimelineError>,
    s2: TimelineStore,
    r2: Result<Seq<EntityState>, TimelineError>,
)
    requires
        s0.wf(roster),
        resolved(s0, roster, target, s1, r1),
        r1 is Ok,
        resolved(s1, roster, target, s2, r2),
    ensures
        r2 == r1,
        s2@ == s1@,
{
    lemma_resolve_contiguous(s0, roster, target, s1, r1);
    let g = s0.genesis_index();
    assert(s0@.contains_key(g));
    assert(s1.seed_frame() == s0.seed_frame());
}

/// After a successful resolve of `target`, every tick from the genesis tick
/// through `target` is cached.
pub proof fn lemma_resolve_contiguous(
    s0: TimelineStore,
    roster: Seq<RosterEntry>,
    target: nat,
    s1: TimelineStore,
    r: Result<Seq<EntityState>, TimelineError>,
)
    requires
        s0.wf(roster),
        resolved(s0, roster, target, s1, r),
        r is Ok,
    ensures
        s0.genesis_index() <= target,
        forall|t: nat| s0.genesis_index() <= t <= target ==> #[trigger] s1@.contains_key(t),
{
}

/// The answer for a tick does not depend on the order in which two ticks are
/// resolved.
pub proof fn lemma_resolve_order_independent(
    s0: TimelineStore,
    roster: Seq<RosterEntry>,
    a: nat,
    b: nat,
    s1: TimelineStore,
    ra1: Result<Seq<EntityState>, TimelineError>,
    s2: TimelineStore,
    rb1: Result<Seq<EntityState>, TimelineError>,
    s3: TimelineStore,
    rb2: Result<Seq<EntityState>, TimelineError>,
    s4: TimelineStore,
    ra2: Result<Seq<EntityState>, TimelineError>,
)
    requires
        s0.wf(roster),
        resolved(s0, roster, a, s1, ra1),
        resolved(s1, roster, b, s2, rb1),
        resolved(s0, roster, b, s3, rb2),
        resolved(s3, roster, a, s4, ra2),
    ensures
        ra1 == ra2,
        rb1 == rb2,
{
    let g = s0.genesis_index();
    if s0.count() > 0 {
        assert(s0@.contains_key(g));
        assert(s1.seed_frame() == s0.seed_frame());
        assert(s3.seed_frame() == s0.seed_frame());
    } else {
        assert(s1.count() == 0) by {
            if s1.count() > 0 {
                assert(s1@.contains_key(g));
            }
        }
        assert(s3.count() == 0) by {
            if s3.count() > 0 {
                assert(s3@.contains_key(g));
            }
        }
    }
}

/// A lone Scout seeded at the origin stands at `(n, n * n)` after `n` ticks.
proof fn lemma_scout_walk(roster: Seq<RosterEntry>, id: usize, heading: i64, n: nat)
    requires
        id < roster.len(),
        roster[id as int].class == MoveClass::Scout,
        n * n <= i64::MAX,
    ensures
        walk(roster, seq![EntityState { id, x: 0, y: 0, heading }], n) == Ok::<
            Seq<EntityState>,
            TimelineError,
        >(seq![EntityState { id, x: n as i64, y: (n * n) as i64, heading }]),
    decreases n,
{
    let seed = seq![EntityState { id, x: 0, y: 0, heading }];
    if n > 0 {
        let k = (n - 1) as nat;
        assert(k * k <= n * n) by (nonlinear_arith)
            requires
                k + 1 == n,
        ;
        assert(n <= n * n) by (nonlinear_arith)
            requires
                n >= 1,
        ;
        lemma_scout_walk(roster, id, heading, k);
        let prev = seq![EntityState { id, x: k as i64, y: (k * k) as i64, heading }];
        let next = seq![EntityState { id, x: n as i64, y: (n * n) as i64, heading }];
        assert(all_known(roster, prev));
        assert(moved_in(roster, prev[0]) == Some(next[0]));
        assert(prev.map_values(|e: EntityState| moved_in(roster, e)->Some_0) =~= next);
    }
}

/// Seeded at tick 0 with one Scout at the origin, resolving tick `n` yields the
/// Scout at `(n, n * n)`, its ID and heading kept, for every `n` whose square is
/// an `i64`.
pub proof fn lemma_scout_trajectory(
    s0: TimelineStore,
    roster: Seq<RosterEntry>,
    id: usize,
    heading: i64,
    n: nat,
    s1: TimelineStore,
    r: Result<Seq<EntityState>, TimelineError>,
)
    requires
        s0.wf(roster),
        s0.count() > 0,
        s0.genesis_index() == 0,
        s0.seed_frame() == seq![EntityState { id, x: 0, y: 0, heading }],
        id < roster.len(),
        roster[id as int].class == MoveClass::Scout,
        n * n <= i64::MAX,
        resolved(s0, roster, n, s1, r),
    ensures
        r == Ok::<Seq<EntityState>, TimelineError>(
            seq![EntityState { id, x: n as i64, y: (n * n) as i64, heading }],
        ),
{
    lemma_scout_walk(roster, id, heading, n);
}

/// When the seed names an entity that the roster lacks, resolving any uncached
/// tick fails with `UnknownEntity` and leaves the cache exactly as it was, and
/// every cached tick then still resolves to its keyframe.
pub proof fn lemma_unknown_entity_isolation(
    s0: TimelineStore,
    roster: Seq<RosterEntry>,
    target: nat,
    s1: TimelineStore,
    r: Result<Seq<EntityState>, TimelineError>,
)
    requires
        s0.wf(roster),
        s0.count() > 0,
        !all_known(roster, s0.seed_frame()),
        s0.genesis_index() <= target,
        !s0@.contains_key(target),
        resolved(s0, roster, target, s1, r),
    ensures
        r == Err::<Seq<EntityState>, TimelineError>(TimelineError::UnknownEntity),
        s1@ == s0@,
        forall|t: nat, s2: TimelineStore, r2: Result<Seq<EntityState>, TimelineError>|
            s1@.contains_key(t) && #[trigger] resolved(s1, roster, t, s2, r2) ==> r2 == Ok::<
                Seq<EntityState>,
                TimelineError,
            >(s0@[t]),
{
    let g = s0.genesis_index();
    let seed = s0.seed_frame();
    assert(s0@.contains_key(g));
    assert(walk(roster, seed, 1) == next_snapshot(roster, seed));
    lemma_walk_error_persists(roster, seed, 1, (target - g) as nat);
    assert(s0.count() == 1) by {
        if s0.count() > 1 {
            assert(s0@.contains_key(g + 1));
        }
    }
    assert(s1.count() == 1) by {
        if s1.count() > 1 {
            assert(s1@.contains_key(g + 1));
            assert(s1.seed_frame() == seed);
        }
    }
    assert(s1@ =~= s0@);
}

/// Every cached keyframe holds the entities of the seed, in the same order,
/// with the same IDs and the same headings: no rule turns an entity.
pub proof fn lemma_orientation_invariant(s: TimelineStore, roster: Seq<RosterEntry>, t: nat)
    requires
        s.wf(roster),
        s@.contains_key(t),
    ensures
        s@[t].len() == s.seed_frame().len(),
        forall|i: int|
            0 <= i < s@[t].len() ==> (#[trigger] s@[t][i]).heading == s.seed_frame()[i].heading
                && s@[t][i].id == s.seed_frame()[i].id,
{
    lemma_walk_keeps_ids_and_headings(roster, s.seed_frame(), (t - s.genesis_index()) as nat);
}

/// A replay that succeeds keeps the seed's length, IDs and headings.
proof fn lemma_walk_keeps_ids_and_headings(
    roster: Seq<RosterEntry>,
    seed: Seq<EntityState>,
    ticks: nat,
)
    requires
        walk(roster, seed, ticks) is Ok,
    ensures
        walk(roster, seed, ticks)->Ok_0.len() == seed.len(),
        forall|i: int|
            0 <= i < seed.len() ==> (#[trigger] walk(roster, seed, ticks)->Ok_0[i]).heading
                == seed[i].heading && walk(roster, seed, ticks)->Ok_0[i].id == seed[i].id,
    decreases ticks,
{
    if ticks > 0 {
        let k = (ticks - 1) as nat;
        if walk(roster, seed, k) is Err {
            lemma_walk_error_persists(roster, seed, k, ticks);
        }
        lemma_walk_keeps_ids_and_headings(roster, seed, k);
        let prev = walk(roster, seed, k)->Ok_0;
        let cur = walk(roster, seed, ticks)->Ok_0;
        assert forall|i: int| 0 <= i < seed.len() implies (#[trigger] cur[i]).heading
            == seed[i].heading && cur[i].id == seed[i].id by {
            assert(prev[i].heading == seed[i].heading);
            assert(moved_in(roster, prev[i]) is Some);
        }
    }
}

} // verus!
