use actlib::errors::ActlibError;
use actlib::example::Ping;
use actlib::grid::{ActorInfo, Direction, Field, Position};
use actlib::reports::FieldReports;
use actlib::ids::{ActorId, LocalId, NodeIp};

#[test]
fn directions_reverse() {
    assert_eq!(Direction::North.reverse(), Direction::South);
    assert_eq!(Direction::West.reverse(), Direction::East);
    assert_eq!(Direction::South.reverse(), Direction::North);
    assert_eq!(Direction::East.reverse(), Direction::West);
}

#[test]
fn positions_step() {
    let p = Position { x: 0, y: 0 };
    assert_eq!(p.next(&Direction::North), Position { x: 0, y: 1 });
    assert_eq!(p.next(&Direction::West), Position { x: -1, y: 0 });
    assert_eq!(p.next(&Direction::South), Position { x: 0, y: -1 });
    assert_eq!(p.next(&Direction::East), Position { x: 1, y: 0 });
    let q = p.next(&Direction::East).next(&Direction::East.reverse());
    assert_eq!(q, p);
}

#[test]
fn field_starts_empty() {
    let f = Field::new();
    assert!(f.is_empty());
    assert_eq!(Field::type_id(), "FIELD");
}

#[test]
fn ping_clone_and_increase() {
    let mut ping = Ping(1, "Ping".to_string());
    let a = ping.clone_and_increase();
    let b = ping.clone_and_increase();
    assert_eq!(a.0, 1);
    assert_eq!(b.0, 2);
    assert_eq!(ping.0, 3);
    assert_eq!(b.1, "Ping");
}

#[test]
fn poison_error_is_lock_poisoned() {
    assert_eq!(ActlibError::from_poison_error("x".to_string()), ActlibError::LockPoisoned("x".to_string()));
}

#[test]
fn when_specified_gives_bytes() {
    let id = ActorId::new(LocalId::Specified(vec![1, 2]), NodeIp::V4(1));
    assert_eq!(id.when_specified(), Some(vec![1, 2]));
    let auto = ActorId::new(LocalId::Automatic(5), NodeIp::V4(1));
    assert_eq!(auto.when_specified(), None);
}

#[test]
fn identifiers_compare_by_value() {
    let a = ActorId::new(LocalId::Specified(vec![1]), NodeIp::V4(1));
    let b = ActorId::new(LocalId::Specified(vec![1]), NodeIp::V4(1));
    let c = ActorId::new(LocalId::Specified(vec![1]), NodeIp::V4(2));
    let d = ActorId::new(LocalId::Automatic(1), NodeIp::V4(1));
    assert!(a == b);
    assert!(a != c);
    assert!(a != d);
    assert!(a.copy() == a);
    assert!(a < c);
}

#[test]
fn field_reports_keep_latest_nonempty() {
    let a = ActorId::new(LocalId::Specified(vec![1]), NodeIp::V4(1));
    let b = ActorId::new(LocalId::Specified(vec![2]), NodeIp::V4(1));
    let mut r = FieldReports::new();
    assert_eq!(r.len(), 0);
    r.update(a.clone(), Position { x: 0, y: 0 }, 3);
    r.update(b.clone(), Position { x: 1, y: 0 }, 1);
    r.update(a.clone(), Position { x: 0, y: 0 }, 5);
    assert_eq!(r.len(), 2);
    let (id0, info0) = r.entry(0);
    assert!(id0 == b);
    assert_eq!(info0, ActorInfo { position: Position { x: 1, y: 0 }, num_figures: 1 });
    let (id1, info1) = r.entry(1);
    assert!(id1 == a);
    assert_eq!(info1.num_figures, 5);
    r.update(b.clone(), Position { x: 1, y: 0 }, 0);
    assert_eq!(r.len(), 1);
    assert!(r.entry(0).0 == a);
    r.update(b, Position { x: 1, y: 0 }, 0);
    assert_eq!(r.len(), 1);
}
