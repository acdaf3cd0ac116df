use actlib::balance::LoadBalancer;
use actlib::ids::{LocalId, NodeIp};
use actlib::node::{Node, Placement, SpawnId};
use actlib::wire::NetMessage;

const A: NodeIp = NodeIp::V4(0xC000_0201);
const B: NodeIp = NodeIp::V4(0xC000_0202);

#[test]
fn balancer_cycles_through_slots() {
    let mut lb = LoadBalancer::new(3);
    let got: Vec<usize> = (0..7).map(|_| lb.next_machine_no()).collect();
    assert_eq!(got, vec![0, 1, 2, 0, 1, 2, 0]);
    assert_eq!(lb.num_machines(), 3);
}

#[test]
fn balancer_single_slot_is_always_local() {
    let mut lb = LoadBalancer::new(1);
    for _ in 0..5 {
        assert_eq!(lb.next_machine_no(), 0);
    }
}

#[test]
fn balancer_spread_is_floor_or_ceiling() {
    let mut lb = LoadBalancer::new(3);
    let mut counts = [0usize; 3];
    for _ in 0..7 {
        counts[lb.next_machine_no()] += 1;
    }
    assert_eq!(counts, [3, 2, 2]);
}

#[test]
fn spawn_with_id_alternates_between_two_nodes() {
    let mut a: Node<u32, u32> = Node::new(A, &vec![A, B]);
    let mut here = 0;
    let mut there = 0;
    let mut order = Vec::new();
    for _ in 0..10 {
        match a.place("W", SpawnId::User(LocalId::Specified(vec![7]))) {
            Placement::Local(id) => {
                assert_eq!(id.location, A);
                assert!(id.local_id == LocalId::Specified(vec![7]));
                here += 1;
                order.push('A');
            }
            Placement::Remote(k, id, msg) => {
                assert_eq!(k, 0);
                assert_eq!(id.location, B);
                assert!(id.local_id == LocalId::Specified(vec![7]));
                match msg {
                    NetMessage::SpawnByTypeId(tag, l) => {
                        assert_eq!(tag, "W");
                        assert!(l == LocalId::Specified(vec![7]));
                    }
                    other => panic!("unexpected {:?}", other),
                }
                there += 1;
                order.push('B');
            }
        }
    }
    assert_eq!(here, 5);
    assert_eq!(there, 5);
    assert_eq!(order.iter().collect::<String>(), "ABABABABAB");
}

#[test]
fn spawn_here_stays_local_and_keeps_balancer() {
    let mut a: Node<u32, u32> = Node::new(A, &vec![B]);
    match a.place("X", SpawnId::SpawnHere(LocalId::Specified(vec![1, 2]))) {
        Placement::Local(id) => {
            assert_eq!(id.location, A);
            assert!(id.local_id == LocalId::Specified(vec![1, 2]));
        }
        _ => panic!("must stay here"),
    }
    // the balancer was not advanced: the next automatic placement is still local
    assert!(matches!(a.place("X", SpawnId::Automatic), Placement::Local(_)));
    assert!(matches!(a.place("X", SpawnId::Automatic), Placement::Remote(0, _, _)));
}

#[test]
fn automatic_ids_are_fresh() {
    let mut a: Node<u32, u32> = Node::new(A, &vec![]);
    let first = match a.place("X", SpawnId::Automatic) {
        Placement::Local(id) => id,
        _ => panic!("no peers"),
    };
    let second = match a.place("X", SpawnId::Automatic) {
        Placement::Local(id) => id,
        _ => panic!("no peers"),
    };
    assert!(matches!(first.local_id, LocalId::Automatic(_)));
    assert!(first != second);
    assert_eq!(first.clone().when_specified(), None);
}

#[test]
fn spawn_id_helpers() {
    assert!(SpawnId::SpawnHere(LocalId::Automatic(3)).is_spawn_here());
    assert!(!SpawnId::User(LocalId::Automatic(3)).is_spawn_here());
    assert!(!SpawnId::Automatic.is_spawn_here());
    assert!(SpawnId::User(LocalId::Specified(vec![4])).unwrap_or_automatic() == LocalId::Specified(vec![4]));
    assert!(matches!(SpawnId::Automatic.unwrap_or_automatic(), LocalId::Automatic(_)));
}

#[test]
fn peers_exclude_self_and_repeats() {
    let c = NodeIp::V4(0xC000_0203);
    let n: Node<u32, u32> = Node::new(A, &vec![B, A, c, B]);
    assert_eq!(n.num_peers(), 2);
    assert_eq!(n.peer_at(0), B);
    assert_eq!(n.peer_at(1), c);
    assert_eq!(n.peer_index(c), Some(1));
    assert_eq!(n.peer_index(A), None);
    assert_eq!(n.local_ip(), A);
}

