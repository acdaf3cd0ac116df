//! Messages exchanged between nodes.
use vstd::prelude::*;
use crate::ids::{ActorId, ActorIdModel, LocalId, LocalIdModel, NodeIp};

verus! {

/// Runtime control token delivered to an actor's mailbox.
#[derive(Clone, Copy, Debug, PartialEq, Eq, Structural)]
pub enum Token {
    Stop,
    Reset,
}

/// The encoding of a token: one byte, 0 for `Stop` and 1 for `Reset`.
pub open spec fn token_bytes(t: Token) -> Seq<u8> {
    match t {
        Token::Stop => seq![0u8],
        Token::Reset => seq![1u8],
    }
}

/// The token that `b` encodes, if any.
pub open spec fn token_of(b: Seq<u8>) -> Option<Token> {
    if b == seq![0u8] {
        Some(Token::Stop)
    } else if b == seq![1u8] {
        Some(Token::Reset)
    } else {
        None
    }
}

/// Encodes a token.
pub fn encode_token(t: Token) -> (r: Vec<u8>)
    ensures
        r@ == token_bytes(t),
{
    let mut r: Vec<u8> = Vec::new();
    match t {
        Token::Stop => r.push(0),
        Token::Reset => r.push(1),
    }
    assert(r@ =~= token_bytes(t));
    r
}

/// Decodes a token.
pub fn decode_token(b: &Vec<u8>) -> (r: Option<Token>)
    ensures
        r == token_of(b@),
{
    if b.len() != 1 {
        proof {
            assert(b@ != seq![0u8]);
            assert(b@ != seq![1u8]);
        }
        None
    } else if b[0] == 0 {
        assert(b@ =~= seq![0u8]);
        Some(Token::Stop)
    } else if b[0] == 1 {
        assert(b@ =~= seq![1u8]);
        Some(Token::Reset)
    } else {
        proof {
            assert(b@[0] != seq![0u8][0]);
            assert(b@[0] != seq![1u8][0]);
        }
        None
    }
}

/// Decoding an encoded token gives the token back.
pub proof fn token_round_trip(t: Token)
    ensures
        token_of(token_bytes(t)) == Some(t),
{
    assert(seq![1u8] != seq![0u8]) by {
        assert(seq![1u8][0] != seq![0u8][0]);
    }
}

/// What a node-to-node message stands for.
pub enum NetMessageModel {
    Message(ActorIdModel, Seq<u8>),
    SpecialToken(ActorIdModel, Seq<u8>),
    SpawnByTypeId(Seq<char>, LocalIdModel),
    QuerySpecifiedId(Seq<u8>, NodeIp, ActorIdModel, bool),
    QuerySpecifiedIdResult(Seq<u8>, ActorIdModel, Option<NodeIp>),
    RemoveProtector(ActorIdModel, ActorIdModel),
    Broadcast(Seq<u8>),
    SendExpirationSignal,
}

/// A message from one node to another.
#[derive(Debug)]
pub enum NetMessage {
    /// An application message, encoded, for the actor named.
    Message(ActorId, Vec<u8>),
    /// An encoded control token for the actor named.
    SpecialToken(ActorId, Vec<u8>),
    /// Spawn an actor of the given type tag here, under the given local identifier.
    SpawnByTypeId(String, LocalId),
    /// Queried local identifier, node to answer to, searcher, whether to protect.
    QuerySpecifiedId(Vec<u8>, NodeIp, ActorId, bool),
    /// Queried local identifier, searcher, node where the actor was found.
    QuerySpecifiedIdResult(Vec<u8>, ActorId, Option<NodeIp>),
    /// Protector first, then target.
    RemoveProtector(ActorId, ActorId),
    /// An application message, encoded, for every actor.
    Broadcast(Vec<u8>),
    /// Shut the whole cluster down.
    SendExpirationSignal,
}

impl View for NetMessage {
    type V = NetMessageModel;

    open spec fn view(&self) -> NetMessageModel {
        match self {
            NetMessage::Message(id, b) => NetMessageModel::Message(id@, b@),
            NetMessage::SpecialToken(id, b) => NetMessageModel::SpecialToken(id@, b@),
            NetMessage::SpawnByTypeId(t, l) => NetMessageModel::SpawnByTypeId(t@, l@),
            NetMessage::QuerySpecifiedId(q, ip, s, p) => NetMessageModel::QuerySpecifiedId(
                q@,
                *ip,
                s@,
                *p,
            ),
            NetMessage::QuerySpecifiedIdResult(q, s, r) => NetMessageModel::QuerySpecifiedIdResult(
                q@,
                s@,
                *r,
            ),
            NetMessage::RemoveProtector(p, t) => NetMessageModel::RemoveProtector(p@, t@),
            NetMessage::Broadcast(b) => NetMessageModel::Broadcast(b@),
            NetMessage::SendExpirationSignal => NetMessageModel::SendExpirationSignal,
        }
    }
}

} // verus!
