//! The binary encoding of node-to-node messages.
//!
//! Integers are little-endian with a fixed width; a byte string is its
//! length in eight bytes followed by its bytes; a string is its UTF-8 bytes
//! encoded as a byte string; a variant is one tag byte, its index in
//! declaration order, followed by its fields in order.
use vstd::prelude::*;
use vstd::utf8::{decode_utf8, decode_utf8_encode_utf8, encode_utf8, encode_utf8_decode_utf8, encode_utf8_valid_utf8, valid_utf8};
use vstd::arithmetic::div_mod::lemma_fundamental_div_mod_converse;
use crate::ids::{ActorId, ActorIdModel, LocalId, LocalIdModel, NodeIp};
use crate::wire::{NetMessage, NetMessageModel};

verus! {

pub open spec fn pow256(n: nat) -> nat
    decreases n,
{
    if n == 0 {
        1
    } else {
        256 * pow256((n - 1) as nat)
    }
}

/// The `n` low bytes of `x`, least significant first.
pub open spec fn le_bytes(x: nat, n: nat) -> Seq<u8>
    decreases n,
{
    if n == 0 {
        Seq::empty()
    } else {
        seq![(x % 256) as u8] + le_bytes(x / 256, (n - 1) as nat)
    }
}

/// The number whose bytes, least significant first, are `s`.
pub open spec fn le_value(s: Seq<u8>) -> nat
    decreases s.len(),
{
    if s.len() == 0 {
        0
    } else {
        s[0] as nat + 256 * le_value(s.drop_first())
    }
}

proof fn lemma_pow256_values()
    ensures
        pow256(4) == 0x1_0000_0000,
        pow256(8) == 0x1_0000_0000_0000_0000,
        pow256(16) == 0x1_0000_0000_0000_0000_0000_0000_0000_0000,
{
    reveal_with_fuel(pow256, 17);
}

proof fn lemma_pow256_mono(a: nat, b: nat)
    requires
        a <= b,
    ensures
        pow256(a) <= pow256(b),
    decreases b,
{
    if a < b {
        lemma_pow256_mono(a, (b - 1) as nat);
    }
}

proof fn lemma_le_bytes(x: nat, n: nat)
    requires
        x < pow256(n),
    ensures
        le_bytes(x, n).len() == n,
        le_value(le_bytes(x, n)) == x,
    decreases n,
{
    if n > 0 {
        let p = pow256((n - 1) as nat);
        assert(x / 256 < p) by (nonlinear_arith)
            requires
                x < 256 * p,
        ;
        lemma_le_bytes(x / 256, (n - 1) as nat);
        let s = le_bytes(x, n);
        assert(s.drop_first() =~= le_bytes(x / 256, (n - 1) as nat));
        assert(x == x % 256 + 256 * (x / 256)) by (nonlinear_arith);
    }
}

proof fn lemma_le_value_bound(s: Seq<u8>)
    ensures
        le_value(s) < pow256(s.len()),
    decreases s.len(),
{
    if s.len() > 0 {
        lemma_le_value_bound(s.drop_first());
        let v = le_value(s.drop_first());
        let p = pow256((s.len() - 1) as nat);
        assert(s[0] as nat + 256 * v < 256 * p) by (nonlinear_arith)
            requires
                v < p,
                s[0] < 256,
        ;
    }
}

// ----- encodings -----

pub open spec fn enc_bytes(b: Seq<u8>) -> Seq<u8> {
    le_bytes(b.len(), 8) + b
}

pub open spec fn enc_ip(ip: NodeIp) -> Seq<u8> {
    match ip {
        NodeIp::V4(a) => seq![0u8] + le_bytes(a as nat, 4),
        NodeIp::V6(a) => seq![1u8] + le_bytes(a as nat, 16),
    }
}

pub open spec fn enc_local(l: LocalIdModel) -> Seq<u8> {
    match l {
        LocalIdModel::Automatic(u) => seq![0u8] + le_bytes(u as nat, 16),
        LocalIdModel::Specified(b) => seq![1u8] + enc_bytes(b),
    }
}

pub open spec fn enc_actor(a: ActorIdModel) -> Seq<u8> {
    enc_local(a.local_id) + enc_ip(a.location)
}

pub open spec fn enc_bool(b: bool) -> Seq<u8> {
    if b {
        seq![1u8]
    } else {
        seq![0u8]
    }
}

pub open spec fn enc_opt_ip(o: Option<NodeIp>) -> Seq<u8> {
    match o {
        None => seq![0u8],
        Some(ip) => seq![1u8] + enc_ip(ip),
    }
}

/// The encoding of a node-to-node message.
pub open spec fn enc_msg(m: NetMessageModel) -> Seq<u8> {
    match m {
        NetMessageModel::Message(a, b) => seq![0u8] + enc_actor(a) + enc_bytes(b),
        NetMessageModel::SpecialToken(a, b) => seq![1u8] + enc_actor(a) + enc_bytes(b),
        NetMessageModel::SpawnByTypeId(t, l) => seq![2u8] + enc_bytes(encode_utf8(t)) + enc_local(
            l,
        ),
        NetMessageModel::QuerySpecifiedId(q, ip, s, p) => seq![3u8] + enc_bytes(q) + enc_ip(ip)
            + enc_actor(s) + enc_bool(p),
        NetMessageModel::QuerySpecifiedIdResult(q, s, r) => seq![4u8] + enc_bytes(q) + enc_actor(
            s,
        ) + enc_opt_ip(r),
        NetMessageModel::RemoveProtector(p, t) => seq![5u8] + enc_actor(p) + enc_actor(t),
        NetMessageModel::Broadcast(b) => seq![6u8] + enc_bytes(b),
        NetMessageModel::SendExpirationSignal => seq![7u8],
    }
}

// ----- parsers: the value read from the front of `s`, and how many bytes it took -----

pub open spec fn tail(s: Seq<u8>, c: nat) -> Seq<u8> {
    s.subrange(c as int, s.len() as int)
}

pub open spec fn parse_le(s: Seq<u8>, n: nat) -> Option<(nat, nat)> {
    if s.len() >= n {
        Some((le_value(s.subrange(0, n as int)), n))
    } else {
        None
    }
}

pub open spec fn parse_bytes(s: Seq<u8>) -> Option<(Seq<u8>, nat)> {
    match parse_le(s, 8) {
        Some((len, _)) => if s.len() >= 8 + len {
            Some((s.subrange(8, 8 + len as int), 8 + len))
        } else {
            None
        },
        None => None,
    }
}

pub open spec fn parse_ip(s: Seq<u8>) -> Option<(NodeIp, nat)> {
    if s.len() < 1 {
        None
    } else if s[0] == 0 {
        match parse_le(tail(s, 1), 4) {
            Some((v, c)) => Some((NodeIp::V4(v as u32), 1 + c)),
            None => None,
        }
    } else if s[0] == 1 {
        match parse_le(tail(s, 1), 16) {
            Some((v, c)) => Some((NodeIp::V6(v as u128), 1 + c)),
            None => None,
        }
    } else {
        None
    }
}

pub open spec fn parse_local(s: Seq<u8>) -> Option<(LocalIdModel, nat)> {
    if s.len() < 1 {
        None
    } else if s[0] == 0 {
        match parse_le(tail(s, 1), 16) {
            Some((v, c)) => Some((LocalIdModel::Automatic(v as u128), 1 + c)),
            None => None,
        }
    } else if s[0] == 1 {
        match parse_bytes(tail(s, 1)) {
            Some((b, c)) => Some((LocalIdModel::Specified(b), 1 + c)),
            None => None,
        }
    } else {
        None
    }
}

pub open spec fn parse_actor(s: Seq<u8>) -> Option<(ActorIdModel, nat)> {
    match parse_local(s) {
        Some((l, c1)) => match parse_ip(tail(s, c1)) {
            Some((ip, c2)) => Some((ActorIdModel { local_id: l, location: ip }, c1 + c2)),
            None => None,
        },
        None => None,
    }
}

pub open spec fn parse_bool(s: Seq<u8>) -> Option<(bool, nat)> {
    if s.len() < 1 {
        None
    } else if s[0] == 0 {
        Some((false, 1))
    } else if s[0] == 1 {
        Some((true, 1))
    } else {
        None
    }
}

pub open spec fn parse_opt_ip(s: Seq<u8>) -> Option<(Option<NodeIp>, nat)> {
    if s.len() < 1 {
        None
    } else if s[0] == 0 {
        Some((None, 1))
    } else if s[0] == 1 {
        match parse_ip(tail(s, 1)) {
            Some((ip, c)) => Some((Some(ip), 1 + c)),
            None => None,
        }
    } else {
        None
    }
}

pub open spec fn parse_str(s: Seq<u8>) -> Option<(Seq<char>, nat)> {
    match parse_bytes(s) {
        Some((b, c)) => if valid_utf8(b) {
            Some((decode_utf8(b), c))
        } else {
            None
        },
        None => None,
    }
}


/// An actor identifier followed by a byte string, filling all of `t`.
pub open spec fn parse_addressed(t: Seq<u8>) -> Option<(ActorIdModel, Seq<u8>)> {
    match parse_actor(t) {
        Some((a, c1)) => match parse_bytes(tail(t, c1)) {
            Some((b, c2)) => if c1 + c2 == t.len() {
                Some((a, b))
            } else {
                None
            },
            None => None,
        },
        None => None,
    }
}

/// The fields of `SpawnByTypeId`, filling all of `t`.
pub open spec fn parse_spawn(t: Seq<u8>) -> Option<NetMessageModel> {
    match parse_str(t) {
        Some((name, c1)) => match parse_local(tail(t, c1)) {
            Some((l, c2)) => if c1 + c2 == t.len() {
                Some(NetMessageModel::SpawnByTypeId(name, l))
            } else {
                None
            },
            None => None,
        },
        None => None,
    }
}

/// The fields of `QuerySpecifiedId`, filling all of `t`.
pub open spec fn parse_query(t: Seq<u8>) -> Option<NetMessageModel> {
    match parse_bytes(t) {
        Some((q, c1)) => match parse_ip(tail(t, c1)) {
            Some((ip, c2)) => match parse_actor(tail(t, c1 + c2)) {
                Some((a, c3)) => match parse_bool(tail(t, c1 + c2 + c3)) {
                    Some((p, c4)) => if c1 + c2 + c3 + c4 == t.len() {
                        Some(NetMessageModel::QuerySpecifiedId(q, ip, a, p))
                    } else {
                        None
                    },
                    None => None,
                },
                None => None,
            },
            None => None,
        },
        None => None,
    }
}

/// The fields of `QuerySpecifiedIdResult`, filling all of `t`.
pub open spec fn parse_result(t: Seq<u8>) -> Option<NetMessageModel> {
    match parse_bytes(t) {
        Some((q, c1)) => match parse_actor(tail(t, c1)) {
            Some((a, c2)) => match parse_opt_ip(tail(t, c1 + c2)) {
                Some((r, c3)) => if c1 + c2 + c3 == t.len() {
                    Some(NetMessageModel::QuerySpecifiedIdResult(q, a, r))
                } else {
                    None
                },
                None => None,
            },
            None => None,
        },
        None => None,
    }
}

/// The fields of `RemoveProtector`, filling all of `t`.
pub open spec fn parse_remove(t: Seq<u8>) -> Option<NetMessageModel> {
    match parse_actor(t) {
        Some((p, c1)) => match parse_actor(tail(t, c1)) {
            Some((a, c2)) => if c1 + c2 == t.len() {
                Some(NetMessageModel::RemoveProtector(p, a))
            } else {
                None
            },
            None => None,
        },
        None => None,
    }
}

/// The message that `s` encodes, if `s` is exactly the encoding of one.
pub open spec fn parse_msg(s: Seq<u8>) -> Option<NetMessageModel> {
    if s.len() < 1 {
        None
    } else {
        let t = tail(s, 1);
        if s[0] == 0 {
            match parse_addressed(t) {
                Some((a, b)) => Some(NetMessageModel::Message(a, b)),
                None => None,
            }
        } else if s[0] == 1 {
            match parse_addressed(t) {
                Some((a, b)) => Some(NetMessageModel::SpecialToken(a, b)),
                None => None,
            }
        } else if s[0] == 2 {
            parse_spawn(t)
        } else if s[0] == 3 {
            parse_query(t)
        } else if s[0] == 4 {
            parse_result(t)
        } else if s[0] == 5 {
            parse_remove(t)
        } else if s[0] == 6 {
            match parse_bytes(t) {
                Some((b, c1)) => if c1 == t.len() {
                    Some(NetMessageModel::Broadcast(b))
                } else {
                    None
                },
                None => None,
            }
        } else if s[0] == 7 {
            if t.len() == 0 {
                Some(NetMessageModel::SendExpirationSignal)
            } else {
                None
            }
        } else {
            None
        }
    }
}

// ----- round trips -----

proof fn lemma_tail_concat(a: Seq<u8>, b: Seq<u8>)
    ensures
        tail(a + b, a.len()) == b,
{
    assert(tail(a + b, a.len()) =~= b);
}

proof fn lemma_tail_tail(s: Seq<u8>, a: nat, b: nat)
    requires
        a + b <= s.len(),
    ensures
        tail(tail(s, a), b) == tail(s, a + b),
{
    assert(tail(tail(s, a), b) =~= tail(s, a + b));
}

proof fn lemma_le_round(x: nat, n: nat, rest: Seq<u8>)
    requires
        x < pow256(n),
    ensures
        parse_le(le_bytes(x, n) + rest, n) == Some((x, n)),
{
    lemma_le_bytes(x, n);
    assert((le_bytes(x, n) + rest).subrange(0, n as int) =~= le_bytes(x, n));
}

proof fn lemma_bytes_round(b: Seq<u8>, rest: Seq<u8>)
    requires
        b.len() < pow256(8),
    ensures
        parse_bytes(enc_bytes(b) + rest) == Some((b, enc_bytes(b).len())),
        enc_bytes(b).len() == 8 + b.len(),
{
    lemma_le_bytes(b.len(), 8);
    assert(enc_bytes(b) + rest =~= le_bytes(b.len(), 8) + (b + rest));
    lemma_le_round(b.len(), 8, b + rest);
    assert((enc_bytes(b) + rest).subrange(8, 8 + b.len() as int) =~= b);
}

proof fn lemma_ip_round(ip: NodeIp, rest: Seq<u8>)
    ensures
        parse_ip(enc_ip(ip) + rest) == Some((ip, enc_ip(ip).len())),
{
    lemma_pow256_values();
    let s = enc_ip(ip) + rest;
    match ip {
        NodeIp::V4(a) => {
            lemma_le_bytes(a as nat, 4);
            assert(tail(s, 1) =~= le_bytes(a as nat, 4) + rest);
            lemma_le_round(a as nat, 4, rest);
        },
        NodeIp::V6(a) => {
            lemma_le_bytes(a as nat, 16);
            assert(tail(s, 1) =~= le_bytes(a as nat, 16) + rest);
            lemma_le_round(a as nat, 16, rest);
        },
    }
}

proof fn lemma_local_round(l: LocalIdModel, rest: Seq<u8>)
    requires
        l matches LocalIdModel::Specified(b) ==> b.len() < pow256(8),
    ensures
        parse_local(enc_local(l) + rest) == Some((l, enc_local(l).len())),
{
    lemma_pow256_values();
    let s = enc_local(l) + rest;
    match l {
        LocalIdModel::Automatic(u) => {
            lemma_le_bytes(u as nat, 16);
            assert(tail(s, 1) =~= le_bytes(u as nat, 16) + rest);
            lemma_le_round(u as nat, 16, rest);
        },
        LocalIdModel::Specified(b) => {
            assert(tail(s, 1) =~= enc_bytes(b) + rest);
            lemma_bytes_round(b, rest);
        },
    }
}

pub open spec fn actor_fits(a: ActorIdModel) -> bool {
    a.local_id matches LocalIdModel::Specified(b) ==> b.len() < pow256(8)
}

proof fn lemma_actor_round(a: ActorIdModel, rest: Seq<u8>)
    requires
        actor_fits(a),
    ensures
        parse_actor(enc_actor(a) + rest) == Some((a, enc_actor(a).len())),
{
    let s = enc_actor(a) + rest;
    assert(s =~= enc_local(a.local_id) + (enc_ip(a.location) + rest));
    lemma_local_round(a.local_id, enc_ip(a.location) + rest);
    lemma_tail_concat(enc_local(a.local_id), enc_ip(a.location) + rest);
    lemma_ip_round(a.location, rest);
}

proof fn lemma_bool_round(b: bool, rest: Seq<u8>)
    ensures
        parse_bool(enc_bool(b) + rest) == Some((b, 1nat)),
        enc_bool(b).len() == 1,
{
}

proof fn lemma_opt_ip_round(o: Option<NodeIp>, rest: Seq<u8>)
    ensures
        parse_opt_ip(enc_opt_ip(o) + rest) == Some((o, enc_opt_ip(o).len())),
{
    match o {
        None => {},
        Some(ip) => {
            assert(tail(enc_opt_ip(o) + rest, 1) =~= enc_ip(ip) + rest);
            lemma_ip_round(ip, rest);
        },
    }
}

proof fn lemma_str_round(t: Seq<char>, rest: Seq<u8>)
    requires
        encode_utf8(t).len() < pow256(8),
    ensures
        parse_str(enc_bytes(encode_utf8(t)) + rest) == Some((t, enc_bytes(encode_utf8(t)).len())),
{
    lemma_bytes_round(encode_utf8(t), rest);
    encode_utf8_valid_utf8(t);
    encode_utf8_decode_utf8(t);
}

/// Whether every byte string in `m` is short enough for its eight-byte length.
pub open spec fn msg_fits(m: NetMessageModel) -> bool {
    match m {
        NetMessageModel::Message(a, b) => actor_fits(a) && b.len() < pow256(8),
        NetMessageModel::SpecialToken(a, b) => actor_fits(a) && b.len() < pow256(8),
        NetMessageModel::SpawnByTypeId(t, l) => encode_utf8(t).len() < pow256(8) && (
        l matches LocalIdModel::Specified(b) ==> b.len() < pow256(8)),
        NetMessageModel::QuerySpecifiedId(q, _, s, _) => q.len() < pow256(8) && actor_fits(s),
        NetMessageModel::QuerySpecifiedIdResult(q, s, _) => q.len() < pow256(8) && actor_fits(s),
        NetMessageModel::RemoveProtector(p, t) => actor_fits(p) && actor_fits(t),
        NetMessageModel::Broadcast(b) => b.len() < pow256(8),
        NetMessageModel::SendExpirationSignal => true,
    }
}

proof fn lemma_addressed_round(a: ActorIdModel, b: Seq<u8>)
    requires
        actor_fits(a),
        b.len() < pow256(8),
    ensures
        parse_addressed(enc_actor(a) + enc_bytes(b)) == Some((a, b)),
{
    let e = Seq::<u8>::empty();
    let t = enc_actor(a) + enc_bytes(b);
    assert(t =~= enc_actor(a) + (enc_bytes(b) + e));
    lemma_actor_round(a, enc_bytes(b) + e);
    lemma_tail_concat(enc_actor(a), enc_bytes(b) + e);
    lemma_bytes_round(b, e);
}

proof fn lemma_spawn_round(name: Seq<char>, l: LocalIdModel)
    requires
        encode_utf8(name).len() < pow256(8),
        l matches LocalIdModel::Specified(b) ==> b.len() < pow256(8),
    ensures
        parse_spawn(enc_bytes(encode_utf8(name)) + enc_local(l)) == Some(
            NetMessageModel::SpawnByTypeId(name, l),
        ),
{
    let e = Seq::<u8>::empty();
    let eb = enc_bytes(encode_utf8(name));
    let t = eb + enc_local(l);
    assert(t =~= eb + (enc_local(l) + e));
    lemma_str_round(name, enc_local(l) + e);
    lemma_tail_concat(eb, enc_local(l) + e);
    lemma_local_round(l, e);
}

proof fn lemma_query_round(q: Seq<u8>, ip: NodeIp, a: ActorIdModel, p: bool)
    requires
        q.len() < pow256(8),
        actor_fits(a),
    ensures
        parse_query(enc_bytes(q) + enc_ip(ip) + enc_actor(a) + enc_bool(p)) == Some(
            NetMessageModel::QuerySpecifiedId(q, ip, a, p),
        ),
{
    let e = Seq::<u8>::empty();
    let x1 = enc_bytes(q);
    let x2 = enc_ip(ip);
    let x3 = enc_actor(a);
    let x4 = enc_bool(p);
    let t = x1 + x2 + x3 + x4;
    assert(t =~= x1 + (x2 + (x3 + x4)));
    lemma_bytes_round(q, x2 + (x3 + x4));
    lemma_tail_concat(x1, x2 + (x3 + x4));
    lemma_ip_round(ip, x3 + x4);
    assert(tail(t, x1.len() + x2.len()) =~= x3 + x4);
    lemma_actor_round(a, x4);
    assert(tail(t, x1.len() + x2.len() + x3.len()) =~= x4 + e);
    lemma_bool_round(p, e);
}

proof fn lemma_result_round(q: Seq<u8>, a: ActorIdModel, r: Option<NodeIp>)
    requires
        q.len() < pow256(8),
        actor_fits(a),
    ensures
        parse_result(enc_bytes(q) + enc_actor(a) + enc_opt_ip(r)) == Some(
            NetMessageModel::QuerySpecifiedIdResult(q, a, r),
        ),
{
    let e = Seq::<u8>::empty();
    let x1 = enc_bytes(q);
    let x2 = enc_actor(a);
    let x3 = enc_opt_ip(r);
    let t = x1 + x2 + x3;
    assert(t =~= x1 + (x2 + x3));
    lemma_bytes_round(q, x2 + x3);
    lemma_tail_concat(x1, x2 + x3);
    lemma_actor_round(a, x3);
    assert(tail(t, x1.len() + x2.len()) =~= x3 + e);
    lemma_opt_ip_round(r, e);
}

proof fn lemma_remove_round(p: ActorIdModel, a: ActorIdModel)
    requires
        actor_fits(p),
        actor_fits(a),
    ensures
        parse_remove(enc_actor(p) + enc_actor(a)) == Some(NetMessageModel::RemoveProtector(p, a)),
{
    let e = Seq::<u8>::empty();
    let t = enc_actor(p) + enc_actor(a);
    assert(t =~= enc_actor(p) + (enc_actor(a) + e));
    lemma_actor_round(p, enc_actor(a) + e);
    lemma_tail_concat(enc_actor(p), enc_actor(a) + e);
    lemma_actor_round(a, e);
}

/// Decoding the encoding of a message gives the message back.
#[verifier::rlimit(50)]
pub proof fn message_round_trip(m: NetMessageModel)
    requires
        msg_fits(m),
    ensures
        parse_msg(enc_msg(m)) == Some(m),
{
    let s = enc_msg(m);
    let e = Seq::<u8>::empty();
    let t = tail(s, 1);
    match m {
        NetMessageModel::Message(a, b) => {
            assert(t =~= enc_actor(a) + enc_bytes(b));
            lemma_addressed_round(a, b);
        },
        NetMessageModel::SpecialToken(a, b) => {
            assert(t =~= enc_actor(a) + enc_bytes(b));
            lemma_addressed_round(a, b);
        },
        NetMessageModel::SpawnByTypeId(name, l) => {
            assert(t =~= enc_bytes(encode_utf8(name)) + enc_local(l));
            lemma_spawn_round(name, l);
        },
        NetMessageModel::QuerySpecifiedId(q, ip, a, p) => {
            assert(t =~= enc_bytes(q) + enc_ip(ip) + enc_actor(a) + enc_bool(p));
            lemma_query_round(q, ip, a, p);
        },
        NetMessageModel::QuerySpecifiedIdResult(q, a, r) => {
            assert(t =~= enc_bytes(q) + enc_actor(a) + enc_opt_ip(r));
            lemma_result_round(q, a, r);
        },
        NetMessageModel::RemoveProtector(p, a) => {
            assert(t =~= enc_actor(p) + enc_actor(a));
            lemma_remove_round(p, a);
        },
        NetMessageModel::Broadcast(b) => {
            assert(t =~= enc_bytes(b) + e);
            lemma_bytes_round(b, e);
        },
        NetMessageModel::SendExpirationSignal => {
            assert(t =~= e);
        },
    }
}


// ----- canonical form: what decodes is exactly an encoding -----

proof fn lemma_le_inverse(t: Seq<u8>)
    ensures
        le_bytes(le_value(t), t.len()) == t,
    decreases t.len(),
{
    if t.len() > 0 {
        let r = t.drop_first();
        lemma_le_inverse(r);
        let v = le_value(t);
        let w = le_value(r);
        assert(v % 256 == t[0] as nat && v / 256 == w) by {
            lemma_fundamental_div_mod_converse(v as int, 256, w as int, t[0] as int);
        }
        assert(le_bytes(v, t.len()) =~= seq![t[0]] + r);
        assert(seq![t[0]] + r =~= t);
    }
}

/// Whether `s` begins with `e`, which is `c` bytes long.
pub open spec fn begins_with(s: Seq<u8>, c: nat, e: Seq<u8>) -> bool {
    c <= s.len() && s.subrange(0, c as int) == e
}

proof fn lemma_begins_concat(s: Seq<u8>, c1: nat, e1: Seq<u8>, c2: nat, e2: Seq<u8>)
    requires
        begins_with(s, c1, e1),
        begins_with(tail(s, c1), c2, e2),
    ensures
        begins_with(s, c1 + c2, e1 + e2),
{
    assert(s.subrange(0, (c1 + c2) as int) =~= e1 + e2);
}

proof fn lemma_le_canon(s: Seq<u8>, n: nat)
    ensures
        parse_le(s, n) matches Some((v, c)) ==> begins_with(s, c, le_bytes(v, n)),
{
    if s.len() >= n {
        lemma_le_inverse(s.subrange(0, n as int));
    }
}

proof fn lemma_bytes_canon(s: Seq<u8>)
    ensures
        parse_bytes(s) matches Some((b, c)) ==> begins_with(s, c, enc_bytes(b)),
{
    lemma_le_canon(s, 8);
    if let Some((b, c)) = parse_bytes(s) {
        assert(s.subrange(0, c as int) =~= s.subrange(0, 8) + b);
    }
}

proof fn lemma_first_byte(s: Seq<u8>)
    requires
        s.len() >= 1,
    ensures
        begins_with(s, 1, seq![s[0]]),
{
    assert(s.subrange(0, 1) =~= seq![s[0]]);
}

proof fn lemma_ip_canon(s: Seq<u8>)
    ensures
        parse_ip(s) matches Some((ip, c)) ==> begins_with(s, c, enc_ip(ip)),
{
    lemma_pow256_values();
    if s.len() >= 1 {
        let t = tail(s, 1);
        lemma_first_byte(s);
        if s[0] == 0 && t.len() >= 4 {
            lemma_le_canon(t, 4);
            lemma_le_value_bound(t.subrange(0, 4));
            let v = le_value(t.subrange(0, 4));
            lemma_begins_concat(s, 1, seq![s[0]], 4, le_bytes(v, 4));
            assert(seq![s[0]] + le_bytes(v, 4) =~= enc_ip(NodeIp::V4(v as u32)));
        } else if s[0] == 1 && t.len() >= 16 {
            lemma_le_canon(t, 16);
            lemma_le_value_bound(t.subrange(0, 16));
            let v = le_value(t.subrange(0, 16));
            lemma_begins_concat(s, 1, seq![s[0]], 16, le_bytes(v, 16));
            assert(seq![s[0]] + le_bytes(v, 16) =~= enc_ip(NodeIp::V6(v as u128)));
        }
    }
}

proof fn lemma_local_canon(s: Seq<u8>)
    ensures
        parse_local(s) matches Some((l, c)) ==> begins_with(s, c, enc_local(l)),
{
    lemma_pow256_values();
    if s.len() >= 1 {
        let t = tail(s, 1);
        lemma_first_byte(s);
        if s[0] == 0 && t.len() >= 16 {
            lemma_le_canon(t, 16);
            lemma_le_value_bound(t.subrange(0, 16));
            let v = le_value(t.subrange(0, 16));
            lemma_begins_concat(s, 1, seq![s[0]], 16, le_bytes(v, 16));
            assert(seq![s[0]] + le_bytes(v, 16) =~= enc_local(LocalIdModel::Automatic(v as u128)));
        } else if s[0] == 1 {
            lemma_bytes_canon(t);
            if let Some((b, c)) = parse_bytes(t) {
                lemma_begins_concat(s, 1, seq![s[0]], c, enc_bytes(b));
                assert(seq![s[0]] + enc_bytes(b) =~= enc_local(LocalIdModel::Specified(b)));
            }
        }
    }
}

proof fn lemma_actor_canon(s: Seq<u8>)
    ensures
        parse_actor(s) matches Some((a, c)) ==> begins_with(s, c, enc_actor(a)),
{
    lemma_local_canon(s);
    if let Some((l, c1)) = parse_local(s) {
        lemma_ip_canon(tail(s, c1));
        if let Some((ip, c2)) = parse_ip(tail(s, c1)) {
            lemma_begins_concat(s, c1, enc_local(l), c2, enc_ip(ip));
        }
    }
}

proof fn lemma_opt_ip_canon(s: Seq<u8>)
    ensures
        parse_opt_ip(s) matches Some((o, c)) ==> begins_with(s, c, enc_opt_ip(o)),
{
    if s.len() >= 1 {
        let t = tail(s, 1);
        lemma_ip_canon(t);
        if let Some((o, c)) = parse_opt_ip(s) {
            lemma_first_byte(s);
            if let Some(ip) = o {
                lemma_begins_concat(s, 1, seq![s[0]], (c - 1) as nat, enc_ip(ip));
                assert(seq![s[0]] + enc_ip(ip) =~= enc_opt_ip(o));
            } else {
                assert(seq![s[0]] =~= enc_opt_ip(o));
            }
        }
    }
}

proof fn lemma_str_canon(s: Seq<u8>)
    ensures
        parse_str(s) matches Some((t, c)) ==> begins_with(s, c, enc_bytes(encode_utf8(t))),
{
    lemma_bytes_canon(s);
    if let Some((b, c)) = parse_bytes(s) {
        if valid_utf8(b) {
            decode_utf8_encode_utf8(b);
        }
    }
}

/// The whole of `s` is `e`.
pub open spec fn is_exactly(s: Seq<u8>, e: Seq<u8>) -> bool {
    begins_with(s, s.len(), e)
}

proof fn lemma_bool_canon(s: Seq<u8>)
    ensures
        parse_bool(s) matches Some((b, c)) ==> begins_with(s, c, enc_bool(b)),
{
    if let Some((b, c)) = parse_bool(s) {
        assert(s.subrange(0, 1) =~= enc_bool(b));
    }
}

proof fn lemma_whole(t: Seq<u8>, c: nat, e: Seq<u8>)
    requires
        begins_with(t, c, e),
        c == t.len(),
    ensures
        t == e,
{
    assert(t.subrange(0, c as int) =~= t);
}

proof fn lemma_addressed_canon(t: Seq<u8>)
    ensures
        parse_addressed(t) matches Some((a, b)) ==> t == enc_actor(a) + enc_bytes(b),
{
    lemma_actor_canon(t);
    if let Some((a, c1)) = parse_actor(t) {
        lemma_bytes_canon(tail(t, c1));
        if let Some((b, c2)) = parse_bytes(tail(t, c1)) {
            lemma_begins_concat(t, c1, enc_actor(a), c2, enc_bytes(b));
            if c1 + c2 == t.len() {
                lemma_whole(t, c1 + c2, enc_actor(a) + enc_bytes(b));
            }
        }
    }
}

proof fn lemma_spawn_canon(t: Seq<u8>)
    ensures
        parse_spawn(t) matches Some(m) ==> (m matches NetMessageModel::SpawnByTypeId(name, l) && t
            == enc_bytes(encode_utf8(name)) + enc_local(l)),
{
    lemma_str_canon(t);
    if let Some((name, c1)) = parse_str(t) {
        lemma_local_canon(tail(t, c1));
        if let Some((l, c2)) = parse_local(tail(t, c1)) {
            lemma_begins_concat(t, c1, enc_bytes(encode_utf8(name)), c2, enc_local(l));
            if c1 + c2 == t.len() {
                lemma_whole(t, c1 + c2, enc_bytes(encode_utf8(name)) + enc_local(l));
            }
        }
    }
}

proof fn lemma_query_canon(t: Seq<u8>)
    ensures
        parse_query(t) matches Some(m) ==> (m matches NetMessageModel::QuerySpecifiedId(
            q,
            ip,
            a,
            p,
        ) && t == enc_bytes(q) + enc_ip(ip) + enc_actor(a) + enc_bool(p)),
{
    lemma_bytes_canon(t);
    if let Some((q, c1)) = parse_bytes(t) {
        lemma_ip_canon(tail(t, c1));
        if let Some((ip, c2)) = parse_ip(tail(t, c1)) {
            lemma_begins_concat(t, c1, enc_bytes(q), c2, enc_ip(ip));
            lemma_actor_canon(tail(t, c1 + c2));
            if let Some((a, c3)) = parse_actor(tail(t, c1 + c2)) {
                lemma_begins_concat(t, c1 + c2, enc_bytes(q) + enc_ip(ip), c3, enc_actor(a));
                lemma_bool_canon(tail(t, c1 + c2 + c3));
                if let Some((p, c4)) = parse_bool(tail(t, c1 + c2 + c3)) {
                    lemma_begins_concat(
                        t,
                        c1 + c2 + c3,
                        enc_bytes(q) + enc_ip(ip) + enc_actor(a),
                        c4,
                        enc_bool(p),
                    );
                    if c1 + c2 + c3 + c4 == t.len() {
                        lemma_whole(
                            t,
                            c1 + c2 + c3 + c4,
                            enc_bytes(q) + enc_ip(ip) + enc_actor(a) + enc_bool(p),
                        );
                    }
                }
            }
        }
    }
}

proof fn lemma_result_canon(t: Seq<u8>)
    ensures
        parse_result(t) matches Some(m) ==> (m matches NetMessageModel::QuerySpecifiedIdResult(
            q,
            a,
            r,
        ) && t == enc_bytes(q) + enc_actor(a) + enc_opt_ip(r)),
{
    lemma_bytes_canon(t);
    if let Some((q, c1)) = parse_bytes(t) {
        lemma_actor_canon(tail(t, c1));
        if let Some((a, c2)) = parse_actor(tail(t, c1)) {
            lemma_begins_concat(t, c1, enc_bytes(q), c2, enc_actor(a));
            lemma_opt_ip_canon(tail(t, c1 + c2));
            if let Some((r, c3)) = parse_opt_ip(tail(t, c1 + c2)) {
                lemma_begins_concat(t, c1 + c2, enc_bytes(q) + enc_actor(a), c3, enc_opt_ip(r));
                if c1 + c2 + c3 == t.len() {
                    lemma_whole(t, c1 + c2 + c3, enc_bytes(q) + enc_actor(a) + enc_opt_ip(r));
                }
            }
        }
    }
}

proof fn lemma_remove_canon(t: Seq<u8>)
    ensures
        parse_remove(t) matches Some(m) ==> (m matches NetMessageModel::RemoveProtector(p, a) && t
            == enc_actor(p) + enc_actor(a)),
{
    lemma_actor_canon(t);
    if let Some((p, c1)) = parse_actor(t) {
        lemma_actor_canon(tail(t, c1));
        if let Some((a, c2)) = parse_actor(tail(t, c1)) {
            lemma_begins_concat(t, c1, enc_actor(p), c2, enc_actor(a));
            if c1 + c2 == t.len() {
                lemma_whole(t, c1 + c2, enc_actor(p) + enc_actor(a));
            }
        }
    }
}

proof fn lemma_tagged(s: Seq<u8>, body: Seq<u8>, m: NetMessageModel)
    requires
        s.len() >= 1,
        tail(s, 1) == body,
        enc_msg(m) == seq![s[0]] + body,
    ensures
        s == enc_msg(m),
{
    assert(s =~= seq![s[0]] + tail(s, 1));
}

proof fn lemma_canon_addressed(s: Seq<u8>)
    requires
        s.len() >= 1,
        s[0] == 0 || s[0] == 1,
    ensures
        parse_msg(s) matches Some(m) ==> s == enc_msg(m),
{
    let t = tail(s, 1);
    if let Some(m) = parse_msg(s) {
        lemma_addressed_canon(t);
        let (a, b) = parse_addressed(t).unwrap();
        assert(enc_msg(m) =~= seq![s[0]] + (enc_actor(a) + enc_bytes(b)));
        lemma_tagged(s, enc_actor(a) + enc_bytes(b), m);
    }
}

proof fn lemma_canon_spawn(s: Seq<u8>)
    requires
        s.len() >= 1,
        s[0] == 2,
    ensures
        parse_msg(s) matches Some(m) ==> s == enc_msg(m),
{
    let t = tail(s, 1);
    if let Some(m) = parse_msg(s) {
        lemma_spawn_canon(t);
        let (name, l) = (m->SpawnByTypeId_0, m->SpawnByTypeId_1);
        assert(enc_msg(m) =~= seq![s[0]] + (enc_bytes(encode_utf8(name)) + enc_local(l)));
        lemma_tagged(s, enc_bytes(encode_utf8(name)) + enc_local(l), m);
    }
}

proof fn lemma_canon_query(s: Seq<u8>)
    requires
        s.len() >= 1,
        s[0] == 3,
    ensures
        parse_msg(s) matches Some(m) ==> s == enc_msg(m),
{
    let t = tail(s, 1);
    if let Some(m) = parse_msg(s) {
        lemma_query_canon(t);
        let (q, ip, a, p) = (
            m->QuerySpecifiedId_0,
            m->QuerySpecifiedId_1,
            m->QuerySpecifiedId_2,
            m->QuerySpecifiedId_3,
        );
        let body = enc_bytes(q) + enc_ip(ip) + enc_actor(a) + enc_bool(p);
        assert(enc_msg(m) =~= seq![s[0]] + body);
        lemma_tagged(s, body, m);
    }
}

proof fn lemma_canon_result(s: Seq<u8>)
    requires
        s.len() >= 1,
        s[0] == 4,
    ensures
        parse_msg(s) matches Some(m) ==> s == enc_msg(m),
{
    let t = tail(s, 1);
    if let Some(m) = parse_msg(s) {
        lemma_result_canon(t);
        let (q, a, r) = (
            m->QuerySpecifiedIdResult_0,
            m->QuerySpecifiedIdResult_1,
            m->QuerySpecifiedIdResult_2,
        );
        let body = enc_bytes(q) + enc_actor(a) + enc_opt_ip(r);
        assert(enc_msg(m) =~= seq![s[0]] + body);
        lemma_tagged(s, body, m);
    }
}

proof fn lemma_canon_remove(s: Seq<u8>)
    requires
        s.len() >= 1,
        s[0] == 5,
    ensures
        parse_msg(s) matches Some(m) ==> s == enc_msg(m),
{
    let t = tail(s, 1);
    if let Some(m) = parse_msg(s) {
        lemma_remove_canon(t);
        let (p, a) = (m->RemoveProtector_0, m->RemoveProtector_1);
        assert(enc_msg(m) =~= seq![s[0]] + (enc_actor(p) + enc_actor(a)));
        lemma_tagged(s, enc_actor(p) + enc_actor(a), m);
    }
}

proof fn lemma_canon_broadcast(s: Seq<u8>)
    requires
        s.len() >= 1,
        s[0] == 6,
    ensures
        parse_msg(s) matches Some(m) ==> s == enc_msg(m),
{
    let t = tail(s, 1);
    if let Some(m) = parse_msg(s) {
        lemma_bytes_canon(t);
        let (b, c1) = parse_bytes(t).unwrap();
        lemma_whole(t, c1, enc_bytes(b));
        assert(enc_msg(m) =~= seq![s[0]] + enc_bytes(b));
        lemma_tagged(s, enc_bytes(b), m);
    }
}

proof fn lemma_canon_signal(s: Seq<u8>)
    requires
        s.len() >= 1,
        s[0] == 7,
    ensures
        parse_msg(s) matches Some(m) ==> s == enc_msg(m),
{
    let t = tail(s, 1);
    if let Some(m) = parse_msg(s) {
        assert(t =~= Seq::<u8>::empty());
        assert(enc_msg(m) =~= seq![s[0]] + t);
        lemma_tagged(s, t, m);
    }
}

/// A message decodes only from its own encoding: whatever `s` decodes to,
/// `s` is exactly that message's encoding.
pub proof fn message_encoding_is_canonical(s: Seq<u8>)
    ensures
        parse_msg(s) matches Some(m) ==> s == enc_msg(m),
{
    if s.len() >= 1 {
        if s[0] == 0 || s[0] == 1 {
            lemma_canon_addressed(s);
        } else if s[0] == 2 {
            lemma_canon_spawn(s);
        } else if s[0] == 3 {
            lemma_canon_query(s);
        } else if s[0] == 4 {
            lemma_canon_result(s);
        } else if s[0] == 5 {
            lemma_canon_remove(s);
        } else if s[0] == 6 {
            lemma_canon_broadcast(s);
        } else if s[0] == 7 {
            lemma_canon_signal(s);
        }
    }
}

/// Decoding and encoding are inverse: a byte string decodes to a message
/// exactly when it is that message's encoding.
pub proof fn decodes_exactly_from_encoding(s: Seq<u8>, m: NetMessageModel)
    requires
        msg_fits(m),
    ensures
        parse_msg(s) == Some(m) <==> s == enc_msg(m),
{
    message_round_trip(m);
    message_encoding_is_canonical(s);
}

// ----- encoding -----

fn put_le(out: &mut Vec<u8>, x: u128, n: usize)
    requires
        n <= 16,
        x < pow256(n as nat),
    ensures
        final(out)@ == old(out)@ + le_bytes(x as nat, n as nat),
{
    let mut cur: u128 = x;
    let mut i: usize = 0;
    while i < n
        invariant
            0 <= i <= n,
            out@ + le_bytes(cur as nat, (n - i) as nat) == old(out)@ + le_bytes(x as nat, n as nat),
        decreases n - i,
    {
        let ghost before = out@;
        assert(le_bytes(cur as nat, (n - i) as nat) == seq![(cur as nat % 256) as u8] + le_bytes(
            cur as nat / 256,
            (n - i - 1) as nat,
        ));
        out.push((cur % 256) as u8);
        assert(out@ + le_bytes(cur as nat / 256, (n - i - 1) as nat) =~= before + le_bytes(
            cur as nat,
            (n - i) as nat,
        ));
        cur = cur / 256;
        i = i + 1;
    }
    assert(out@ + le_bytes(cur as nat, 0) =~= out@);
}

fn put_slice(out: &mut Vec<u8>, b: &[u8])
    ensures
        final(out)@ == old(out)@ + b@,
{
    let mut i: usize = 0;
    while i < b.len()
        invariant
            0 <= i <= b@.len(),
            out@ == old(out)@ + b@.subrange(0, i as int),
        decreases b@.len() - i,
    {
        out.push(b[i]);
        i = i + 1;
        assert(out@ =~= old(out)@ + b@.subrange(0, i as int));
    }
    assert(b@.subrange(0, i as int) =~= b@);
}

fn put_bytes(out: &mut Vec<u8>, b: &[u8])
    ensures
        final(out)@ == old(out)@ + enc_bytes(b@),
{
    proof {
        lemma_pow256_values();
    }
    put_le(out, b.len() as u128, 8);
    put_slice(out, b);
    assert(final(out)@ =~= old(out)@ + enc_bytes(b@));
}

fn put_ip(out: &mut Vec<u8>, ip: NodeIp)
    ensures
        final(out)@ == old(out)@ + enc_ip(ip),
{
    proof {
        lemma_pow256_values();
    }
    match ip {
        NodeIp::V4(a) => {
            out.push(0);
            put_le(out, a as u128, 4);
        },
        NodeIp::V6(a) => {
            out.push(1);
            put_le(out, a, 16);
        },
    }
    assert(final(out)@ =~= old(out)@ + enc_ip(ip));
}

fn put_local(out: &mut Vec<u8>, l: &LocalId)
    ensures
        final(out)@ == old(out)@ + enc_local(l@),
{
    proof {
        lemma_pow256_values();
    }
    match l {
        LocalId::Automatic(u) => {
            out.push(0);
            put_le(out, *u, 16);
        },
        LocalId::Specified(b) => {
            out.push(1);
            put_bytes(out, b.as_slice());
        },
    }
    assert(final(out)@ =~= old(out)@ + enc_local(l@));
}

fn put_actor(out: &mut Vec<u8>, a: &ActorId)
    ensures
        final(out)@ == old(out)@ + enc_actor(a@),
{
    put_local(out, &a.local_id);
    put_ip(out, a.location);
    assert(final(out)@ =~= old(out)@ + enc_actor(a@));
}

/// Encodes a node-to-node message.
pub fn encode_net_message(m: &NetMessage) -> (r: Vec<u8>)
    ensures
        r@ == enc_msg(m@),
{
    let mut out: Vec<u8> = Vec::new();
    match m {
        NetMessage::Message(a, b) => {
            out.push(0);
            put_actor(&mut out, a);
            put_bytes(&mut out, b.as_slice());
        },
        NetMessage::SpecialToken(a, b) => {
            out.push(1);
            put_actor(&mut out, a);
            put_bytes(&mut out, b.as_slice());
        },
        NetMessage::SpawnByTypeId(t, l) => {
            out.push(2);
            put_bytes(&mut out, t.as_str().as_bytes());
            put_local(&mut out, l);
        },
        NetMessage::QuerySpecifiedId(q, ip, a, p) => {
            out.push(3);
            put_bytes(&mut out, q.as_slice());
            put_ip(&mut out, *ip);
            put_actor(&mut out, a);
            out.push(if *p { 1 } else { 0 });
        },
        NetMessage::QuerySpecifiedIdResult(q, a, r) => {
            out.push(4);
            put_bytes(&mut out, q.as_slice());
            put_actor(&mut out, a);
            match r {
                None => out.push(0),
                Some(ip) => {
                    out.push(1);
                    put_ip(&mut out, *ip);
                },
            }
        },
        NetMessage::RemoveProtector(p, a) => {
            out.push(5);
            put_actor(&mut out, p);
            put_actor(&mut out, a);
        },
        NetMessage::Broadcast(b) => {
            out.push(6);
            put_bytes(&mut out, b.as_slice());
        },
        NetMessage::SendExpirationSignal => {
            out.push(7);
        },
    }
    assert(out@ =~= enc_msg(m@));
    out
}


// ----- decoding -----

/// Relies on String::from_utf8: it succeeds exactly on valid UTF-8, and the
/// string then holds the characters that the bytes encode.
#[verifier::external_body]
fn utf8_string(b: Vec<u8>) -> (r: Option<String>)
    ensures
        r.is_some() == valid_utf8(b@),
        r.is_some() ==> r.unwrap()@ == decode_utf8(b@),
{
    String::from_utf8(b).ok()
}

fn get_le(data: &Vec<u8>, pos: usize, n: usize) -> (r: Option<u128>)
    requires
        pos <= data@.len(),
        n <= 16,
    ensures
        match parse_le(tail(data@, pos as nat), n as nat) {
            Some((v, c)) => r == Some(v as u128) && v < pow256(n as nat),
            None => r is None,
        },
{
    if data.len() - pos < n {
        return None;
    }
    let ghost s = tail(data@, pos as nat);
    let mut acc: u128 = 0;
    let mut i: usize = n;
    proof {
        lemma_pow256_values();
        assert(data@.subrange(pos + n, pos + n) =~= Seq::<u8>::empty());
    }
    while i > 0
        invariant
            0 <= i <= n <= 16,
            pos + n <= data@.len(),
            data@.len() <= usize::MAX,
            acc as nat == le_value(data@.subrange(pos + i, pos + n)),
            acc < pow256((n - i) as nat),
            pow256(16) == 0x1_0000_0000_0000_0000_0000_0000_0000_0000,
        decreases i,
    {
        i = i - 1;
        let b = data[pos + i];
        proof {
            lemma_pow256_mono((n - i) as nat, 16);
            assert(data@.subrange(pos + i, pos + n).drop_first() =~= data@.subrange(
                pos + i + 1,
                pos + n,
            ));
            let p = pow256((n - i - 1) as nat);
            assert(b as nat + 256 * acc < 256 * p) by (nonlinear_arith)
                requires
                    acc < p,
                    b < 256,
            ;
        }
        acc = b as u128 + 256 * acc;
    }
    proof {
        assert(s.subrange(0, n as int) =~= data@.subrange(pos as int, pos + n));
    }
    Some(acc)
}

fn get_bytes(data: &Vec<u8>, pos: usize) -> (r: Option<(Vec<u8>, usize)>)
    requires
        pos <= data@.len(),
    ensures
        match parse_bytes(tail(data@, pos as nat)) {
            Some((v, c)) => r matches Some((x, p)) && x@ == v && p == pos + c && p <= data@.len(),
            None => r is None,
        },
{
    let ghost s = tail(data@, pos as nat);
    proof {
        lemma_pow256_values();
    }
    let len = match get_le(data, pos, 8) {
        Some(v) => v,
        None => return None,
    };
    if len > (data.len() - pos - 8) as u128 {
        return None;
    }
    let start = pos + 8;
    let end = start + len as usize;
    assert(s.len() == data@.len() - pos);
    assert(parse_le(s, 8) == Some((len as nat, 8nat)));
    let mut out: Vec<u8> = Vec::new();
    let mut i: usize = start;
    while i < end
        invariant
            start <= i <= end <= data@.len(),
            out@ == data@.subrange(start as int, i as int),
        decreases end - i,
    {
        out.push(data[i]);
        i = i + 1;
        assert(out@ =~= data@.subrange(start as int, i as int));
    }
    assert(s.subrange(8, 8 + len as int) =~= data@.subrange(start as int, end as int));
    Some((out, end))
}

fn get_ip(data: &Vec<u8>, pos: usize) -> (r: Option<(NodeIp, usize)>)
    requires
        pos <= data@.len(),
    ensures
        match parse_ip(tail(data@, pos as nat)) {
            Some((v, c)) => r matches Some((x, p)) && x == v && p == pos + c && p <= data@.len(),
            None => r is None,
        },
{
    if pos >= data.len() {
        return None;
    }
    let tag = data[pos];
    proof {
        lemma_tail_tail(data@, pos as nat, 1);
    }
    if tag == 0 {
        match get_le(data, pos + 1, 4) {
            Some(v) => {
                proof {
                    lemma_pow256_values();
                }
                Some((NodeIp::V4(v as u32), pos + 5))
            },
            None => None,
        }
    } else if tag == 1 {
        match get_le(data, pos + 1, 16) {
            Some(v) => Some((NodeIp::V6(v), pos + 17)),
            None => None,
        }
    } else {
        None
    }
}

fn get_local(data: &Vec<u8>, pos: usize) -> (r: Option<(LocalId, usize)>)
    requires
        pos <= data@.len(),
    ensures
        match parse_local(tail(data@, pos as nat)) {
            Some((v, c)) => r matches Some((x, p)) && x@ == v && p == pos + c && p <= data@.len(),
            None => r is None,
        },
{
    if pos >= data.len() {
        return None;
    }
    let tag = data[pos];
    proof {
        lemma_tail_tail(data@, pos as nat, 1);
    }
    if tag == 0 {
        match get_le(data, pos + 1, 16) {
            Some(v) => Some((LocalId::Automatic(v), pos + 17)),
            None => None,
        }
    } else if tag == 1 {
        match get_bytes(data, pos + 1) {
            Some((b, p)) => Some((LocalId::Specified(b), p)),
            None => None,
        }
    } else {
        None
    }
}

fn get_actor(data: &Vec<u8>, pos: usize) -> (r: Option<(ActorId, usize)>)
    requires
        pos <= data@.len(),
    ensures
        match parse_actor(tail(data@, pos as nat)) {
            Some((v, c)) => r matches Some((x, p)) && x@ == v && p == pos + c && p <= data@.len(),
            None => r is None,
        },
{
    match get_local(data, pos) {
        Some((l, at1)) => {
            proof {
                let c1 = (at1 - pos) as nat;
                assert(parse_local(tail(data@, pos as nat)) matches Some((_, c)) && c == c1);
                lemma_tail_tail(data@, pos as nat, c1);
            }
            match get_ip(data, at1) {
                Some((ip, at2)) => {
                    let a = ActorId::new(l, ip);
                    proof {
                        let s = tail(data@, pos as nat);
                        let c1 = (at1 - pos) as nat;
                        let c2 = (at2 - at1) as nat;
                        assert(parse_local(s) == Some((l@, c1)));
                        assert(tail(s, c1) == tail(data@, at1 as nat));
                        assert(parse_ip(tail(s, c1)) == Some((ip, c2)));
                        assert(a@ == ActorIdModel { local_id: l@, location: ip });
                    }
                    Some((a, at2))
                },
                None => None,
            }
        },
        None => None,
    }
}

fn get_opt_ip(data: &Vec<u8>, pos: usize) -> (r: Option<(Option<NodeIp>, usize)>)
    requires
        pos <= data@.len(),
    ensures
        match parse_opt_ip(tail(data@, pos as nat)) {
            Some((v, c)) => r matches Some((x, p)) && x == v && p == pos + c && p <= data@.len(),
            None => r is None,
        },
{
    if pos >= data.len() {
        return None;
    }
    let tag = data[pos];
    proof {
        lemma_tail_tail(data@, pos as nat, 1);
    }
    if tag == 0 {
        Some((None, pos + 1))
    } else if tag == 1 {
        match get_ip(data, pos + 1) {
            Some((ip, p)) => Some((Some(ip), p)),
            None => None,
        }
    } else {
        None
    }
}

fn get_str(data: &Vec<u8>, pos: usize) -> (r: Option<(String, usize)>)
    requires
        pos <= data@.len(),
    ensures
        match parse_str(tail(data@, pos as nat)) {
            Some((v, c)) => r matches Some((x, p)) && x@ == v && p == pos + c && p <= data@.len(),
            None => r is None,
        },
{
    match get_bytes(data, pos) {
        Some((b, p)) => match utf8_string(b) {
            Some(t) => Some((t, p)),
            None => None,
        },
        None => None,
    }
}


fn decode_addressed(data: &Vec<u8>) -> (r: Option<(ActorId, Vec<u8>)>)
    requires
        data@.len() >= 1,
    ensures
        match parse_addressed(tail(data@, 1)) {
            Some((a, b)) => r matches Some((x, y)) && x@ == a && y@ == b,
            None => r is None,
        },
{
    let ghost t = tail(data@, 1);
    match get_actor(data, 1) {
        Some((a, at1)) => {
            proof {
                lemma_tail_tail(data@, 1, (at1 - 1) as nat);
            }
            match get_bytes(data, at1) {
                Some((b, at2)) => if at2 == data.len() {
                    Some((a, b))
                } else {
                    None
                },
                None => None,
            }
        },
        None => None,
    }
}

fn decode_spawn(data: &Vec<u8>) -> (r: Option<NetMessage>)
    requires
        data@.len() >= 1,
    ensures
        match parse_spawn(tail(data@, 1)) {
            Some(m) => r matches Some(x) && x@ == m,
            None => r is None,
        },
{
    match get_str(data, 1) {
        Some((name, at1)) => {
            proof {
                lemma_tail_tail(data@, 1, (at1 - 1) as nat);
            }
            match get_local(data, at1) {
                Some((l, at2)) => if at2 == data.len() {
                    Some(NetMessage::SpawnByTypeId(name, l))
                } else {
                    None
                },
                None => None,
            }
        },
        None => None,
    }
}

fn decode_query(data: &Vec<u8>) -> (r: Option<NetMessage>)
    requires
        data@.len() >= 1,
    ensures
        match parse_query(tail(data@, 1)) {
            Some(m) => r matches Some(x) && x@ == m,
            None => r is None,
        },
{
    let (q, at1) = match get_bytes(data, 1) {
        Some(v) => v,
        None => return None,
    };
    proof {
        lemma_tail_tail(data@, 1, (at1 - 1) as nat);
    }
    let (ip, at2) = match get_ip(data, at1) {
        Some(v) => v,
        None => return None,
    };
    proof {
        lemma_tail_tail(data@, 1, (at2 - 1) as nat);
    }
    let (a, at3) = match get_actor(data, at2) {
        Some(v) => v,
        None => return None,
    };
    proof {
        lemma_tail_tail(data@, 1, (at3 - 1) as nat);
    }
    if at3 >= data.len() {
        return None;
    }
    let flag = data[at3];
    let p = if flag == 0 {
        false
    } else if flag == 1 {
        true
    } else {
        return None;
    };
    if at3 + 1 != data.len() {
        return None;
    }
    Some(NetMessage::QuerySpecifiedId(q, ip, a, p))
}

fn decode_result(data: &Vec<u8>) -> (r: Option<NetMessage>)
    requires
        data@.len() >= 1,
    ensures
        match parse_result(tail(data@, 1)) {
            Some(m) => r matches Some(x) && x@ == m,
            None => r is None,
        },
{
    let (q, at1) = match get_bytes(data, 1) {
        Some(v) => v,
        None => return None,
    };
    proof {
        lemma_tail_tail(data@, 1, (at1 - 1) as nat);
    }
    let (a, at2) = match get_actor(data, at1) {
        Some(v) => v,
        None => return None,
    };
    proof {
        lemma_tail_tail(data@, 1, (at2 - 1) as nat);
    }
    let (res, at3) = match get_opt_ip(data, at2) {
        Some(v) => v,
        None => return None,
    };
    if at3 != data.len() {
        return None;
    }
    Some(NetMessage::QuerySpecifiedIdResult(q, a, res))
}

fn decode_remove(data: &Vec<u8>) -> (r: Option<NetMessage>)
    requires
        data@.len() >= 1,
    ensures
        match parse_remove(tail(data@, 1)) {
            Some(m) => r matches Some(x) && x@ == m,
            None => r is None,
        },
{
    let (p, at1) = match get_actor(data, 1) {
        Some(v) => v,
        None => return None,
    };
    proof {
        lemma_tail_tail(data@, 1, (at1 - 1) as nat);
    }
    let (a, at2) = match get_actor(data, at1) {
        Some(v) => v,
        None => return None,
    };
    if at2 != data.len() {
        return None;
    }
    Some(NetMessage::RemoveProtector(p, a))
}

/// Decodes a node-to-node message; `None` unless `data` is exactly the
/// encoding of one.
pub fn decode_net_message(data: &Vec<u8>) -> (r: Option<NetMessage>)
    ensures
        match parse_msg(data@) {
            Some(m) => r matches Some(x) && x@ == m,
            None => r is None,
        },
{
    if data.len() < 1 {
        return None;
    }
    let tag = data[0];
    if tag == 0 || tag == 1 {
        match decode_addressed(data) {
            Some((a, b)) => if tag == 0 {
                Some(NetMessage::Message(a, b))
            } else {
                Some(NetMessage::SpecialToken(a, b))
            },
            None => None,
        }
    } else if tag == 2 {
        decode_spawn(data)
    } else if tag == 3 {
        decode_query(data)
    } else if tag == 4 {
        decode_result(data)
    } else if tag == 5 {
        decode_remove(data)
    } else if tag == 6 {
        match get_bytes(data, 1) {
            Some((b, p)) => if p == data.len() {
                Some(NetMessage::Broadcast(b))
            } else {
                None
            },
            None => None,
        }
    } else if tag == 7 {
        if data.len() == 1 {
            Some(NetMessage::SendExpirationSignal)
        } else {
            None
        }
    } else {
        None
    }
}

} // verus!
