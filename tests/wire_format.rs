use actlib::codec::{decode_net_message, encode_net_message};
use actlib::frame::{encode_frame, split_frames, FrameReader};
use actlib::ids::{ActorId, LocalId, NodeIp};
use actlib::wire::{decode_token, encode_token, NetMessage, Token};

fn specified(bytes: &[u8], ip: NodeIp) -> ActorId {
    ActorId::new(LocalId::Specified(bytes.to_vec()), ip)
}

fn round_trip(m: NetMessage) -> NetMessage {
    let bytes = encode_net_message(&m);
    decode_net_message(&bytes).expect("decodes")
}

#[test]
fn expiration_signal_is_one_byte() {
    assert_eq!(encode_net_message(&NetMessage::SendExpirationSignal), vec![7]);
    assert!(matches!(decode_net_message(&vec![7]), Some(NetMessage::SendExpirationSignal)));
}

#[test]
fn broadcast_layout() {
    let bytes = encode_net_message(&NetMessage::Broadcast(vec![1, 2]));
    assert_eq!(bytes, vec![6, 2, 0, 0, 0, 0, 0, 0, 0, 1, 2]);
}

#[test]
fn actor_id_layout() {
    let id = ActorId::new(LocalId::Automatic(1), NodeIp::V4(0x0102_0304));
    let bytes = encode_net_message(&NetMessage::RemoveProtector(id.clone(), id));
    let mut one = vec![0u8, 1];
    one.extend_from_slice(&[0; 15]);
    one.extend_from_slice(&[0, 4, 3, 2, 1]);
    let mut expected = vec![5u8];
    expected.extend_from_slice(&one);
    expected.extend_from_slice(&one);
    assert_eq!(bytes, expected);
}

#[test]
fn message_round_trips() {
    let a = specified(&[1, 2, 3], NodeIp::V4(0xC000_0201));
    match round_trip(NetMessage::Message(a.clone(), vec![9, 8])) {
        NetMessage::Message(x, b) => {
            assert!(x == a);
            assert_eq!(b, vec![9, 8]);
        }
        other => panic!("{:?}", other),
    }
    match round_trip(NetMessage::SpecialToken(a.clone(), encode_token(Token::Reset))) {
        NetMessage::SpecialToken(x, b) => {
            assert!(x == a);
            assert_eq!(decode_token(&b), Some(Token::Reset));
        }
        other => panic!("{:?}", other),
    }
}

#[test]
fn spawn_round_trips_with_text() {
    match round_trip(NetMessage::SpawnByTypeId("Feld-ü".to_string(), LocalId::Automatic(u128::MAX))) {
        NetMessage::SpawnByTypeId(t, l) => {
            assert_eq!(t, "Feld-ü");
            assert!(l == LocalId::Automatic(u128::MAX));
        }
        other => panic!("{:?}", other),
    }
}

#[test]
fn query_and_result_round_trip() {
    let s = ActorId::new(LocalId::Automatic(42), NodeIp::V6(7));
    match round_trip(NetMessage::QuerySpecifiedId(vec![5], NodeIp::V4(9), s.clone(), true)) {
        NetMessage::QuerySpecifiedId(q, ip, x, p) => {
            assert_eq!(q, vec![5]);
            assert_eq!(ip, NodeIp::V4(9));
            assert!(x == s);
            assert!(p);
        }
        other => panic!("{:?}", other),
    }
    match round_trip(NetMessage::QuerySpecifiedIdResult(vec![], s.clone(), Some(NodeIp::V6(u128::MAX)))) {
        NetMessage::QuerySpecifiedIdResult(q, x, r) => {
            assert!(q.is_empty());
            assert!(x == s);
            assert_eq!(r, Some(NodeIp::V6(u128::MAX)));
        }
        other => panic!("{:?}", other),
    }
    match round_trip(NetMessage::QuerySpecifiedIdResult(vec![1], s.clone(), None)) {
        NetMessage::QuerySpecifiedIdResult(_, _, r) => assert_eq!(r, None),
        other => panic!("{:?}", other),
    }
}

#[test]
fn decode_rejects_malformed() {
    assert!(decode_net_message(&vec![]).is_none());
    assert!(decode_net_message(&vec![8]).is_none());
    assert!(decode_net_message(&vec![7, 0]).is_none());
    let mut b = encode_net_message(&NetMessage::Broadcast(vec![1, 2, 3]));
    b.pop();
    assert!(decode_net_message(&b).is_none());
    // a type tag that is not UTF-8
    let mut bad = vec![2u8, 1, 0, 0, 0, 0, 0, 0, 0, 0xFF];
    bad.extend_from_slice(&[0; 17]);
    assert!(decode_net_message(&bad).is_none());
}

#[test]
fn tokens_encode_to_one_byte() {
    assert_eq!(encode_token(Token::Stop), vec![0]);
    assert_eq!(encode_token(Token::Reset), vec![1]);
    assert_eq!(decode_token(&vec![0]), Some(Token::Stop));
    assert_eq!(decode_token(&vec![2]), None);
    assert_eq!(decode_token(&vec![0, 0]), None);
}

#[test]
fn frame_has_big_endian_length() {
    assert_eq!(encode_frame(&vec![10, 11, 12]), Some(vec![0, 3, 10, 11, 12]));
    let big = vec![0u8; 300];
    let f = encode_frame(&big).unwrap();
    assert_eq!(&f[0..2], &[1, 44]);
    assert_eq!(f.len(), 302);
    assert_eq!(encode_frame(&vec![0u8; 65535]).map(|f| f.len()), Some(65537));
    assert_eq!(encode_frame(&vec![0u8; 65536]), None);
}

#[test]
fn split_keeps_incomplete_tail() {
    let mut data = encode_frame(&vec![1, 2]).unwrap();
    data.extend(encode_frame(&vec![]).unwrap());
    data.extend(encode_frame(&vec![3]).unwrap());
    data.extend_from_slice(&[0, 5, 9]);
    let (frames, used) = split_frames(&data);
    assert_eq!(frames, vec![vec![1, 2], vec![], vec![3]]);
    assert_eq!(used, 9);
    let (none, zero) = split_frames(&vec![0]);
    assert!(none.is_empty());
    assert_eq!(zero, 0);
}

#[test]
fn frames_carry_encoded_messages() {
    let m = NetMessage::Broadcast(vec![4; 100]);
    let mut data = encode_frame(&encode_net_message(&m)).unwrap();
    data.extend(encode_frame(&encode_net_message(&NetMessage::SendExpirationSignal)).unwrap());
    let (frames, used) = split_frames(&data);
    assert_eq!(used, data.len());
    assert!(matches!(decode_net_message(&frames[0]), Some(NetMessage::Broadcast(b)) if b == vec![4; 100]));
    assert!(matches!(decode_net_message(&frames[1]), Some(NetMessage::SendExpirationSignal)));
}

#[test]
fn decode_rejects_unknown_field_tags() {
    let s = ActorId::new(LocalId::Automatic(1), NodeIp::V4(2));
    let mut bytes = encode_net_message(&NetMessage::QuerySpecifiedId(vec![], NodeIp::V4(3), s.clone(), false));
    *bytes.last_mut().unwrap() = 2;
    assert!(decode_net_message(&bytes).is_none());
    let mut bytes = encode_net_message(&NetMessage::Broadcast(vec![]));
    bytes[1] = 1;
    assert!(decode_net_message(&bytes).is_none());
    let mut bytes = encode_net_message(&NetMessage::RemoveProtector(s.clone(), s));
    bytes[1] = 2;
    assert!(decode_net_message(&bytes).is_none());
}

#[test]
fn every_variant_survives_encoding() {
    let a = ActorId::new(LocalId::Specified(vec![0; 3]), NodeIp::V6(1 << 100));
    let all = vec![
        NetMessage::Message(a.clone(), vec![1]),
        NetMessage::SpecialToken(a.clone(), vec![0]),
        NetMessage::SpawnByTypeId(String::new(), LocalId::Specified(vec![])),
        NetMessage::QuerySpecifiedId(vec![2], NodeIp::V6(3), a.clone(), false),
        NetMessage::QuerySpecifiedIdResult(vec![2], a.clone(), Some(NodeIp::V4(u32::MAX))),
        NetMessage::RemoveProtector(a.clone(), a.clone()),
        NetMessage::Broadcast(vec![]),
        NetMessage::SendExpirationSignal,
    ];
    for (tag, m) in all.iter().enumerate() {
        let bytes = encode_net_message(m);
        assert_eq!(bytes[0] as usize, tag);
        let back = decode_net_message(&bytes).expect("decodes");
        assert_eq!(encode_net_message(&back), bytes);
    }
}

#[test]
fn reader_reassembles_across_chunks() {
    let mut stream = encode_frame(&vec![1, 2, 3]).unwrap();
    stream.extend(encode_frame(&vec![4]).unwrap());
    stream.extend(encode_frame(&vec![5, 6]).unwrap());
    for cut in 0..=stream.len() {
        let mut reader = FrameReader::new();
        let mut got = reader.push(&stream[..cut]);
        got.extend(reader.push(&stream[cut..]));
        assert_eq!(got, vec![vec![1, 2, 3], vec![4], vec![5, 6]], "cut at {}", cut);
    }
    let mut reader = FrameReader::new();
    let mut got = Vec::new();
    for b in &stream {
        got.extend(reader.push(&[*b]));
    }
    assert_eq!(got.len(), 3);
    assert!(reader.push(&[]).is_empty());
}
