use server::roster::{MoveClass, Roster, RosterEntry, TimelineError};
use server::rules::{step_entity, step_snapshot, EntityState};
use server::server::Server;
use server::timeline::TimelineStore;

fn entry(class: MoveClass, x: i64, y: i64, heading: i64) -> RosterEntry {
    RosterEntry { class, player: 0, spawn_x: x, spawn_y: y, spawn_heading: heading }
}

fn state(id: usize, x: i64, y: i64, heading: i64) -> EntityState {
    EntityState { id, x, y, heading }
}

fn scout_server() -> Server {
    let mut s = Server::new();
    s.add_entity(entry(MoveClass::Scout, 0, 0, 0));
    s.seed(0, vec![state(0, 0, 0, 0)]);
    s
}

#[test]
fn calculate_keyframes() {
    let mut s = scout_server();
    s.query(10).unwrap();
    {
        let e = s.keyframe(10).unwrap()[0];
        assert_eq!((e.x, e.y), (10, 100));
    }
    s.query(20).unwrap();
    {
        let e = s.keyframe(20).unwrap()[0];
        assert_eq!((e.x, e.y), (20, 400));
    }
}

#[test]
fn scout_follows_parabola_at_every_tick() {
    let mut s = scout_server();
    for n in 0..=30i64 {
        let frame = s.query(n as usize).unwrap();
        assert_eq!(frame, vec![state(0, n, n * n, 0)]);
    }
}

#[test]
fn resolving_twice_returns_same_keyframe_and_writes_nothing() {
    let mut s = scout_server();
    let first = s.query(7).unwrap();
    let cached = s.all_states();
    let second = s.query(7).unwrap();
    assert_eq!(first, second);
    assert_eq!(s.all_states(), cached);
    assert_eq!(cached.len(), 8);
}

#[test]
fn resolve_fills_every_tick_from_genesis() {
    let mut s = Server::new();
    s.add_entity(entry(MoveClass::Scout, 0, 0, 0));
    s.seed(2, vec![state(0, 0, 0, 0)]);
    s.query(6).unwrap();
    for t in 2..=6usize {
        assert!(s.keyframe(t).is_some());
    }
    assert!(s.keyframe(1).is_none());
    assert!(s.keyframe(7).is_none());
    assert_eq!(s.keyframe(6).unwrap(), vec![state(0, 4, 16, 0)]);
}

#[test]
fn order_of_queries_does_not_matter() {
    let mut a = scout_server();
    let mut b = scout_server();
    a.query(5).unwrap();
    let a3 = a.query(3).unwrap();
    let b3 = b.query(3).unwrap();
    let b5 = b.query(5).unwrap();
    assert_eq!(a3, b3);
    assert_eq!(a.query(5).unwrap(), b5);
    assert_eq!(a3, vec![state(0, 3, 9, 0)]);
}

#[test]
fn query_on_empty_store_has_no_genesis() {
    let mut s = Server::new();
    s.add_entity(entry(MoveClass::Scout, 0, 0, 0));
    assert_eq!(s.query(0), Err(TimelineError::NoGenesisSnapshot));
    assert_eq!(s.query(4), Err(TimelineError::NoGenesisSnapshot));
}

#[test]
fn query_before_seed_has_no_genesis() {
    let mut s = Server::new();
    s.add_entity(entry(MoveClass::Knight, 1, 2, 3));
    s.seed(5, vec![state(0, 1, 2, 3)]);
    assert_eq!(s.query(4), Err(TimelineError::NoGenesisSnapshot));
    assert_eq!(s.query(0), Err(TimelineError::NoGenesisSnapshot));
    assert_eq!(s.query(5), Ok(vec![state(0, 1, 2, 3)]));
}

#[test]
fn unknown_entity_fails_and_keeps_the_cache() {
    let mut s = Server::new();
    s.add_entity(entry(MoveClass::Scout, 0, 0, 0));
    let seed = vec![state(0, 0, 0, 0), state(3, 1, 1, 1)];
    s.seed(0, seed.clone());
    assert_eq!(s.query(4), Err(TimelineError::UnknownEntity));
    assert_eq!(s.keyframe(0), Some(seed.clone()));
    assert!(s.keyframe(1).is_none());
    assert_eq!(s.query(0), Ok(seed));
}

#[test]
fn unknown_entity_is_reported_before_overflow() {
    let mut s = Server::new();
    s.add_entity(entry(MoveClass::Scout, 0, 0, 0));
    s.seed(0, vec![state(0, i64::MAX, 0, 0), state(9, 0, 0, 0)]);
    assert_eq!(s.query(1), Err(TimelineError::UnknownEntity));
}

#[test]
fn overflow_stops_the_walk_after_the_last_good_tick() {
    let mut s = Server::new();
    s.add_entity(entry(MoveClass::Scout, 0, 0, 0));
    s.seed(10, vec![state(0, 3037000497, 0, 0)]);
    assert_eq!(s.query(15), Err(TimelineError::CoordinateOverflow));
    assert_eq!(
        s.keyframe(12),
        Some(vec![state(0, 3037000499, 3037000499 * 3037000499, 0)])
    );
    assert!(s.keyframe(13).is_none());
    assert_eq!(s.all_states().len(), 3);
}

#[test]
fn headings_never_change() {
    let mut s = Server::new();
    s.add_entity(entry(MoveClass::Scout, 0, 0, 42));
    s.add_entity(entry(MoveClass::Knight, 5, -6, -7));
    s.seed(0, vec![state(0, 0, 0, 42), state(1, 5, -6, -7)]);
    let frame = s.query(9).unwrap();
    assert_eq!(frame, vec![state(0, 9, 81, 42), state(1, 5, -6, -7)]);
}

#[test]
fn knight_stays_in_place() {
    assert_eq!(step_entity(MoveClass::Knight, state(4, -3, 8, 1)), Some(state(4, -3, 8, 1)));
}

#[test]
fn scout_step_squares_the_new_x() {
    assert_eq!(step_entity(MoveClass::Scout, state(1, 2, 77, 5)), Some(state(1, 3, 9, 5)));
    assert_eq!(step_entity(MoveClass::Scout, state(1, -5, 0, 0)), Some(state(1, -4, 16, 0)));
    assert_eq!(step_entity(MoveClass::Scout, state(1, i64::MAX, 0, 0)), None);
    assert_eq!(step_entity(MoveClass::Scout, state(1, 3037000499, 0, 0)), None);
}

#[test]
fn step_snapshot_keeps_order() {
    let mut r = Roster::new();
    r.register(entry(MoveClass::Knight, 0, 0, 0));
    r.register(entry(MoveClass::Scout, 0, 0, 0));
    let snap = vec![state(1, 1, 1, 0), state(0, 7, 7, 0), state(1, 10, 0, 0)];
    assert_eq!(
        step_snapshot(&r, &snap),
        Ok(vec![state(1, 2, 4, 0), state(0, 7, 7, 0), state(1, 11, 121, 0)])
    );
    assert_eq!(step_snapshot(&r, &vec![state(2, 0, 0, 0)]), Err(TimelineError::UnknownEntity));
    assert_eq!(step_snapshot(&r, &vec![]), Ok(vec![]));
}

#[test]
fn roster_lookup_and_spawn_snapshot() {
    let mut r = Roster::new();
    assert_eq!(r.register(entry(MoveClass::Scout, 1, 2, 3)), 0);
    assert_eq!(r.register(entry(MoveClass::Knight, -4, 5, 6)), 1);
    assert_eq!(r.len(), 2);
    assert_eq!(r.lookup(0), Ok(MoveClass::Scout));
    assert_eq!(r.lookup(1), Ok(MoveClass::Knight));
    assert_eq!(r.lookup(2), Err(TimelineError::UnknownEntity));
    assert_eq!(r.spawn_snapshot(), vec![state(0, 1, 2, 3), state(1, -4, 5, 6)]);
}

#[test]
fn closest_keyframe_is_the_floor() {
    let mut r = Roster::new();
    r.register(entry(MoveClass::Scout, 0, 0, 0));
    let mut t = TimelineStore::new();
    assert_eq!(t.closest_keyframe(3), None);
    t.seed(3, vec![state(0, 0, 0, 0)]);
    t.resolve(&r, 5).unwrap();
    assert_eq!(t.closest_keyframe(2), None);
    assert_eq!(t.closest_keyframe(4), Some(4));
    assert_eq!(t.closest_keyframe(5), Some(5));
    assert_eq!(t.closest_keyframe(100), Some(5));
}

#[test]
fn largest_tick_is_served_from_the_cache() {
    let mut s = Server::new();
    s.add_entity(entry(MoveClass::Scout, 0, 0, 0));
    s.seed(usize::MAX, vec![state(0, 0, 0, 0)]);
    assert_eq!(s.query(usize::MAX), Ok(vec![state(0, 0, 0, 0)]));
    assert_eq!(s.query(usize::MAX - 1), Err(TimelineError::NoGenesisSnapshot));
}

#[test]
fn all_states_lists_keyframes_in_tick_order() {
    let mut s = Server::new();
    s.add_entity(entry(MoveClass::Scout, 0, 0, 0));
    s.add_entity(entry(MoveClass::Knight, 0, 0, 0));
    s.seed(0, vec![state(0, 0, 0, 0), state(1, 9, 9, 0)]);
    s.query(2).unwrap();
    assert_eq!(
        s.all_states(),
        vec![
            state(0, 0, 0, 0),
            state(1, 9, 9, 0),
            state(0, 1, 1, 0),
            state(1, 9, 9, 0),
            state(0, 2, 4, 0),
            state(1, 9, 9, 0),
        ]
    );
}

#[test]
fn start_game_changes_nothing() {
    let mut s = scout_server();
    s.query(3).unwrap();
    let before = s.all_states();
    s.start_game();
    assert_eq!(s.all_states(), before);
    assert!(s.is_seeded());
}

#[test]
fn entity_added_after_seeding_is_known_from_then_on() {
    let mut s = Server::new();
    s.seed(0, vec![state(0, 0, 0, 0), state(1, 0, 0, 0)]);
    s.add_entity(entry(MoveClass::Scout, 0, 0, 0));
    assert_eq!(s.query(1), Err(TimelineError::UnknownEntity));
    s.add_entity(entry(MoveClass::Knight, 0, 0, 0));
    assert_eq!(s.query(1), Ok(vec![state(0, 1, 1, 0), state(1, 0, 0, 0)]));
}
