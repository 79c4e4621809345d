use vstd::prelude::*;
use crate::roster::{MoveClass, Roster, RosterEntry, TimelineError};

verus! {

/// The mutable part of an entity at one tick.
#[derive(Clone, Copy, Debug, PartialEq, Eq, Structural)]
pub struct EntityState {
    pub id: usize,
    pub x: i64,
    pub y: i64,
    pub heading: i64,
}

pub open spec fn fits_i64(v: int) -> bool {
    i64::MIN <= v <= i64::MAX
}

/// The state of `e` one tick later under the rule of `class`; `None` where a
/// coordinate would leave the `i64` range. No rule changes the ID or the heading.
pub open spec fn moved(class: MoveClass, e: EntityState) -> Option<EntityState> {
    match class {
        MoveClass::Scout => {
            let nx = e.x + 1;
            if fits_i64(nx) && fits_i64(nx * nx) {
                Some(EntityState { id: e.id, x: nx as i64, y: (nx * nx) as i64, heading: e.heading })
            } else {
                None
            }
        },
        MoveClass::Knight => Some(e),
    }
}

/// Every entity of `snap` has an entry in `roster`.
pub open spec fn all_known(roster: Seq<RosterEntry>, snap: Seq<EntityState>) -> bool {
    forall|i: int| 0 <= i < snap.len() ==> (#[trigger] snap[i]).id < roster.len()
}

/// `e` moved by the rule of its class in `roster`.
pub open spec fn moved_in(roster: Seq<RosterEntry>, e: EntityState) -> Option<EntityState> {
    moved(roster[e.id as int].class, e)
}

/// The snapshot one tick after `snap`: each entity moved by its rule, in the
/// same order. An entity missing from the roster is reported before any overflow.
pub open spec fn next_snapshot(roster: Seq<RosterEntry>, snap: Seq<EntityState>) -> Result<
    Seq<EntityState>,
    TimelineError,
> {
    if !all_known(roster, snap) {
        Err(TimelineError::UnknownEntity)
    } else if exists|i: int| 0 <= i < snap.len() && (#[trigger] moved_in(roster, snap[i])) is None {
        Err(TimelineError::CoordinateOverflow)
    } else {
        Ok(snap.map_values(|e: EntityState| moved_in(roster, e)->Some_0))
    }
}

/// The view of a keyframe result.
pub open spec fn frame_result(r: Result<Vec<EntityState>, TimelineError>) -> Result<
    Seq<EntityState>,
    TimelineError,
> {
    match r {
        Ok(v) => Ok(v@),
        Err(e) => Err(e),
    }
}

/// Applies the rule of `class` to one entity.
pub fn step_entity(class: MoveClass, e: EntityState) -> (r: Option<EntityState>)
    ensures
        r == moved(class, e),
{
    match class {
        MoveClass::Scout => match e.x.checked_add(1) {
            None => None,
            Some(nx) => match nx.checked_mul(nx) {
                None => None,
                Some(ny) => Some(EntityState { id: e.id, x: nx, y: ny, heading: e.heading }),
            },
        },
        MoveClass::Knight => Some(e),
    }
}

/// Builds the keyframe one tick after `snap`.
pub fn step_snapshot(roster: &Roster, snap: &Vec<EntityState>) -> (r: Result<
    Vec<EntityState>,
    TimelineError,
>)
    ensures
        frame_result(r) == next_snapshot(roster@, snap@),
{
    let n = snap.len();
    let mut i: usize = 0;
    while i < n
        invariant
            n == snap@.len(),
            i <= n,
            forall|j: int| 0 <= j < i ==> (#[trigger] snap@[j]).id < roster@.len(),
        decreases n - i,
    {
        if let Err(e) = roster.lookup(snap[i].id) {
            return Err(e);
        }
        i += 1;
    }
    let mut out: Vec<EntityState> = Vec::with_capacity(n);
    let mut i: usize = 0;
    while i < n
        invariant
            n == snap@.len(),
            i <= n,
            all_known(roster@, snap@),
            out@.len() == i,
            forall|j: int|
                0 <= j < i ==> moved_in(roster@, #[trigger] snap@[j]) == Some(out@[j]),
        decreases n - i,
    {
        let class = match roster.lookup(snap[i].id) {
            Ok(c) => c,
            Err(e) => return Err(e),
        };
        match step_entity(class, snap[i]) {
            None => {
                assert(moved_in(roster@, snap@[i as int]) is None);
                return Err(TimelineError::CoordinateOverflow);
            },
            Some(next) => out.push(next),
        }
        i += 1;
    }
    assert(out@ =~= snap@.map_values(|e: EntityState| moved_in(roster@, e)->Some_0));
    Ok(out)
}

/// A copy of a keyframe.
pub fn copy_frame(frame: &Vec<EntityState>) -> (r: Vec<EntityState>)
    ensures
        r@ == frame@,
{
    let mut out: Vec<EntityState> = Vec::with_capacity(frame.len());
    let mut i: usize = 0;
    while i < frame.len()
        invariant
            i <= frame@.len(),
            out@ =~= frame@.take(i as int),
        decreases frame@.len() - i,
    {
        out.push(frame[i]);
        i += 1;
    }
    assert(out@ =~= frame@);
    out
}

} // verus!
