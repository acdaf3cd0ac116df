use actlib::actor::{ActorRef, LookupWait};
use actlib::ids::{ActorId, LocalId, NodeIp};
use actlib::node::{Action, EnvelopeKind, LoopStep, Node, Outgoing, Placement, Removal, SpawnId};
use actlib::wire::{NetMessage, Token};

const A: NodeIp = NodeIp::V4(0xC000_0201);
const B: NodeIp = NodeIp::V4(0xC000_0202);

fn spec_id(bytes: &[u8], ip: NodeIp) -> ActorId {
    ActorId::new(LocalId::Specified(bytes.to_vec()), ip)
}

fn two_nodes() -> (Node<u32, u32>, Node<u32, u32>) {
    (Node::new(A, &vec![A, B]), Node::new(B, &vec![A, B]))
}

/// Carries a lookup of `q` by `searcher` from `a` to `b` and back; the answer `a` produces.
fn remote_lookup(
    a: &mut Node<u32, u32>,
    b: &mut Node<u32, u32>,
    q: &Vec<u8>,
    searcher: &ActorId,
    protect: bool,
) -> Vec<Action<u32>> {
    let query = a.begin_lookup(q, searcher, protect, 77);
    let replies = b.handle_net_message(query);
    assert_eq!(replies.len(), 1);
    let reply = match replies.into_iter().next().unwrap() {
        Action::SendToPeer(k, m) => {
            assert_eq!(b.peer_at(k), A);
            m
        }
        _ => panic!("expected a reply to A"),
    };
    a.handle_net_message(reply)
}

#[test]
fn single_node_spawn_and_expire() {
    let mut n: Node<u32, u32> = Node::new(A, &vec![]);
    let id = match n.place("Echo", SpawnId::Automatic) {
        Placement::Local(id) => id,
        _ => panic!("single node spawns locally"),
    };
    n.register(id.clone(), 1);
    assert_eq!(n.mailbox(&id), Some(&1));
    let r = ActorRef::new(id.clone(), 1u32);
    assert!(r.clone_id() == id);
    assert!(r.clone().clone_id() == id);
    assert_eq!(*r.sender(), 1);
    assert_eq!(n.loop_step(&id, EnvelopeKind::Regular), LoopStep::Handle);
    assert!(!n.expired());
    assert!(n.expire());
    assert!(!n.expire());
    assert!(n.expired());
}

#[test]
fn local_lookup_finds_spawned_actor_until_removed() {
    let mut n: Node<u32, u32> = Node::new(A, &vec![B]);
    let searcher = spec_id(&[0], A);
    assert!(n.lookup_here(&vec![3], &searcher, false).is_none());
    let id = spec_id(&[3], A);
    n.register(id.clone(), 5);
    let found = n.lookup_here(&vec![3], &searcher, false).unwrap();
    assert!(found == id);
    assert!(!n.has_protector(&id));
    assert_eq!(n.unregister(&id), Some(5));
    assert!(n.lookup_here(&vec![3], &searcher, false).is_none());
    assert_eq!(n.unregister(&id), None);
}

#[test]
fn remote_lookup_misses_then_finds() {
    let (mut a, mut b) = two_nodes();
    let searcher = spec_id(&[0, 0], A);
    let q = vec![1, 0];
    let answer = remote_lookup(&mut a, &mut b, &q, &searcher, true);
    assert_eq!(answer.len(), 1);
    match &answer[0] {
        Action::AnswerMissing(qq, s) => {
            assert_eq!(qq, &q);
            assert!(*s == searcher);
        }
        _ => panic!("expected a miss"),
    }
    // the entry stays until the lookup ends it
    assert_eq!(a.lookup_reply(&q, &searcher), Some(&77));
    assert_eq!(a.end_lookup(&q, &searcher), Some(77));
    assert_eq!(a.lookup_reply(&q, &searcher), None);

    b.register(spec_id(&q, B), 9);
    let answer = remote_lookup(&mut a, &mut b, &q, &searcher, true);
    match &answer[0] {
        Action::AnswerFound(h, id) => {
            assert_eq!(*h, 77);
            assert!(*id == spec_id(&q, B));
            assert_eq!(id.location, B);
        }
        _ => panic!("expected a hit"),
    }
    assert_eq!(a.lookup_reply(&q, &searcher), None);
    assert!(b.has_protector(&spec_id(&q, B)));
}

#[test]
fn protector_holds_off_removal() {
    let (mut a, mut b) = two_nodes();
    let target = spec_id(&[4], B);
    b.register(target.clone(), 3);
    let searcher = spec_id(&[1], A);
    let _ = remote_lookup(&mut a, &mut b, &vec![4], &searcher, true);
    // A asks to remove B's actor: A sends a stop token, B's actor skips it
    assert_eq!(a.removal(&target), Removal::StopRemote(0));
    assert_eq!(b.removal(&target), Removal::Ignore);
    let acts = b.handle_net_message(Node::<u32, u32>::stop_message(target.clone()));
    assert!(matches!(&acts[0], Action::DeliverToken(id, Token::Stop) if *id == target));
    assert_eq!(b.loop_step(&target, EnvelopeKind::Special(Token::Stop)), LoopStep::Skip);
    // A drops its protector: the message goes to every peer
    let fwd = a.remove_protector(&searcher, &target).expect("target lives elsewhere");
    assert!(b.handle_net_message(fwd).is_empty());
    assert!(!b.has_protector(&target));
    assert_eq!(b.removal(&target), Removal::StopLocal);
    assert_eq!(b.loop_step(&target, EnvelopeKind::Special(Token::Stop)), LoopStep::Stop);
}

#[test]
fn protector_refcount_needs_every_protector_dropped() {
    let mut n: Node<u32, u32> = Node::new(A, &vec![]);
    let t = spec_id(&[8], A);
    n.register(t.clone(), 1);
    let first_protector = spec_id(&[1], A);
    let second_protector = spec_id(&[2], A);
    assert!(n.lookup_here(&vec![8], &first_protector, true).is_some());
    assert!(n.lookup_here(&vec![8], &second_protector, true).is_some());
    assert!(n.remove_protector(&first_protector, &t).is_none());
    assert_eq!(n.removal(&t), Removal::Ignore);
    assert!(n.remove_protector(&second_protector, &t).is_none());
    assert_eq!(n.removal(&t), Removal::StopLocal);
    n.add_protector(&first_protector, &t);
    n.add_protector(&first_protector, &t);
    assert!(n.remove_protector(&first_protector, &t).is_none());
    assert_eq!(n.removal(&t), Removal::StopLocal);
}

#[test]
fn broadcast_reaches_every_local_actor_once() {
    let (mut a, mut b) = two_nodes();
    a.register(spec_id(&[1], A), 1);
    a.register(spec_id(&[2], A), 2);
    b.register(spec_id(&[3], B), 3);
    b.register(spec_id(&[4], B), 4);
    let ids = a.local_actor_ids();
    assert_eq!(ids.len(), 2);
    let acts = b.handle_net_message(NetMessage::Broadcast(vec![0xAA]));
    assert_eq!(acts.len(), 2);
    let mut got: Vec<ActorId> = Vec::new();
    for act in acts {
        match act {
            Action::DeliverSerialized(id, bytes) => {
                assert_eq!(bytes, vec![0xAA]);
                got.push(id);
            }
            _ => panic!("expected deliveries"),
        }
    }
    assert!(got[0] == spec_id(&[3], B));
    assert!(got[1] == spec_id(&[4], B));
}

#[test]
fn inbound_messages_for_unknown_actors_are_dropped() {
    let (_, mut b) = two_nodes();
    assert!(b.handle_net_message(NetMessage::Message(spec_id(&[1], B), vec![1])).is_empty());
    let id = spec_id(&[1], B);
    b.register(id.clone(), 1);
    let acts = b.handle_net_message(NetMessage::Message(id.clone(), vec![1]));
    assert!(matches!(&acts[0], Action::DeliverSerialized(x, v) if *x == id && *v == vec![1]));
    assert!(b.handle_net_message(NetMessage::SpecialToken(id.clone(), vec![9])).is_empty());
    let acts = b.handle_net_message(NetMessage::SpecialToken(id.clone(), vec![1]));
    assert!(matches!(&acts[0], Action::DeliverToken(_, Token::Reset)));
}

#[test]
fn inbound_spawn_and_expiration() {
    let (_, mut b) = two_nodes();
    let acts = b.handle_net_message(NetMessage::SpawnByTypeId("F".to_string(), LocalId::Specified(vec![2])));
    assert!(matches!(&acts[0], Action::SpawnHere(t, l) if t == "F" && *l == LocalId::Specified(vec![2])));
    let acts = b.handle_net_message(NetMessage::SendExpirationSignal);
    assert!(matches!(acts[0], Action::Expire));
}

#[test]
fn expired_node_stops_protected_actors() {
    let mut n: Node<u32, u32> = Node::new(A, &vec![]);
    let t = spec_id(&[8], A);
    n.register(t.clone(), 1);
    n.add_protector(&spec_id(&[1], A), &t);
    assert_eq!(n.loop_step(&t, EnvelopeKind::Special(Token::Stop)), LoopStep::Skip);
    assert_eq!(n.loop_step(&t, EnvelopeKind::Special(Token::Reset)), LoopStep::Reset);
    assert_eq!(n.loop_step(&t, EnvelopeKind::Serialized), LoopStep::Decode);
    assert!(n.expire());
    assert_eq!(n.loop_step(&t, EnvelopeKind::Special(Token::Stop)), LoopStep::Stop);
}

#[test]
fn outbound_routes_by_residence() {
    let (a, _) = two_nodes();
    let target = spec_id(&[1], B);
    match a.route_outbound(target.clone(), Outgoing::Message(vec![5])) {
        Some((0, NetMessage::Message(id, b))) => {
            assert!(id == target);
            assert_eq!(b, vec![5]);
        }
        _ => panic!("expected a route to B"),
    }
    assert!(matches!(
        a.route_outbound(target.clone(), Outgoing::Token(vec![0])),
        Some((0, NetMessage::SpecialToken(_, _)))
    ));
    assert!(a.route_outbound(spec_id(&[1], NodeIp::V4(1)), Outgoing::Message(vec![])).is_none());
    assert_eq!(a.removal(&spec_id(&[1], NodeIp::V4(1))), Removal::Unknown);
    assert_eq!(a.removal(&spec_id(&[1], A)), Removal::Unknown);
}

#[test]
fn lookup_wait_ends_at_first_hit_or_all_misses() {
    let mut w = LookupWait::new(2);
    assert!(!w.is_done());
    w.record(false);
    assert!(!w.is_done());
    w.record(true);
    assert!(w.is_done());
    let mut w = LookupWait::new(2);
    w.record(false);
    w.record(false);
    assert!(w.is_done());
    assert!(LookupWait::new(0).is_done());
}

#[test]
fn query_from_unknown_node_gets_no_reply() {
    let (_, mut b) = two_nodes();
    let acts = b.handle_net_message(NetMessage::QuerySpecifiedId(vec![1], NodeIp::V4(3), spec_id(&[0], A), false));
    assert!(acts.is_empty());
}
