use vstd::prelude::*;
use crate::rules::EntityState;

verus! {

/// The closed set of movement classes.
#[derive(Clone, Copy, Debug, PartialEq, Eq, Structural)]
pub enum MoveClass {
    /// Moves along the parabola `y = x * x`, one unit of `x` per tick.
    Scout,
    /// Stays where it is.
    Knight,
}

/// Why a keyframe could not be produced.
#[derive(Clone, Copy, Debug, PartialEq, Eq, Structural)]
pub enum TimelineError {
    /// No keyframe lies at or before the requested tick.
    NoGenesisSnapshot,
    /// A snapshot names an entity that the roster does not hold.
    UnknownEntity,
    /// A movement rule would carry a coordinate out of the `i64` range.
    CoordinateOverflow,
}

/// The fixed description of one entity: its class, its owner and where it spawns.
#[derive(Clone, Copy, Debug, PartialEq, Eq, Structural)]
pub struct RosterEntry {
    pub class: MoveClass,
    pub player: usize,
    pub spawn_x: i64,
    pub spawn_y: i64,
    pub spawn_heading: i64,
}

/// The registry of entities; an entity's ID is its index here.
pub struct Roster {
    entries: Vec<RosterEntry>,
}

impl View for Roster {
    type V = Seq<RosterEntry>;

    closed spec fn view(&self) -> Seq<RosterEntry> {
        self.entries@
    }
}

impl Roster {
    /// An empty roster.
    pub fn new() -> (r: Roster)
        ensures
            r@ == Seq::<RosterEntry>::empty(),
    {
        Roster { entries: Vec::new() }
    }

    /// Number of registered entities.
    pub fn len(&self) -> (r: usize)
        ensures
            r == self@.len(),
    {
        self.entries.len()
    }

    /// Registers an entity and returns its ID.
    pub fn register(&mut self, entry: RosterEntry) -> (id: usize)
        ensures
            final(self)@ == old(self)@.push(entry),
            id == old(self)@.len(),
    {
        let id = self.entries.len();
        self.entries.push(entry);
        id
    }

    /// The keyframe in which every registered entity stands at its spawn point,
    /// in ID order.
    pub fn spawn_snapshot(&self) -> (r: Vec<EntityState>)
        ensures
            r@.len() == self@.len(),
            forall|i: int|
                0 <= i < r@.len() ==> #[trigger] r@[i] == (EntityState {
                    id: i as usize,
                    x: self@[i].spawn_x,
                    y: self@[i].spawn_y,
                    heading: self@[i].spawn_heading,
                }),
    {
        let mut out: Vec<EntityState> = Vec::with_capacity(self.entries.len());
        let mut i: usize = 0;
        while i < self.entries.len()
            invariant
                i <= self@.len(),
                out@.len() == i,
                forall|j: int|
                    0 <= j < i ==> #[trigger] out@[j] == (EntityState {
                        id: j as usize,
                        x: self@[j].spawn_x,
                        y: self@[j].spawn_y,
                        heading: self@[j].spawn_heading,
                    }),
            decreases self@.len() - i,
        {
            let e = self.entries[i];
            out.push(EntityState { id: i, x: e.spawn_x, y: e.spawn_y, heading: e.spawn_heading });
            i += 1;
        }
        out
    }

    /// The movement class of entity `id`.
    pub fn lookup(&self, id: usize) -> (r: Result<MoveClass, TimelineError>)
        ensures
            id < self@.len() ==> r == Ok::<MoveClass, TimelineError>(self@[id as int].class),
            id >= self@.len() ==> r == Err::<MoveClass, TimelineError>(TimelineError::UnknownEntity),
    {
        if id < self.entries.len() {
            Ok(self.entries[id].class)
        } else {
            Err(TimelineError::UnknownEntity)
        }
    }
}

} // verus!
