//! The per-node bookkeeping of the runtime and the decisions taken on it:
//! where a spawn goes, whether a removal or a stop takes effect, how a
//! lookup is answered, what an inbound message from a peer causes, and where
//! an outbound message is written.
//!
//! A `Node` holds the table of resident actors (each with its mailbox handle
//! `M`), the ordered list of peers, the protector pairs, the outstanding
//! lookups (each with its reply handle `R`) and the load balancer. The code
//! that owns threads, channels and sockets performs the actions returned here.
use vstd::prelude::*;
use crate::balance::{LoadBalancer, next_slot};
use crate::ids::{ActorId, ActorIdModel, LocalId, LocalIdModel, NodeIp, bytes_equal, copy_bytes};
use crate::seqs::{lemma_push_unique, lemma_remove_unique};
use crate::wire::{NetMessage, NetMessageModel, Token, decode_token, encode_token, token_bytes, token_of};

verus! {

/// Relies on uuid::Uuid::new_v4 for a fresh random UUID, taken as its 128-bit value.
#[verifier::external_body]
fn fresh_uuid() -> (r: u128) {
    uuid::Uuid::new_v4().as_u128()
}

/// How the local identifier of a new actor is chosen, and whether it must stay here.
pub enum SpawnId {
    /// A fresh UUID; placed by the load balancer.
    Automatic,
    /// The given identifier; placed on this node.
    SpawnHere(LocalId),
    /// The given identifier; placed by the load balancer.
    User(LocalId),
}

impl SpawnId {
    /// Whether the actor must be placed on this node.
    pub fn is_spawn_here(&self) -> (r: bool)
        ensures
            r == (self is SpawnHere),
    {
        match self {
            SpawnId::SpawnHere(_) => true,
            _ => false,
        }
    }

    /// The local identifier to use: the given one, or a fresh UUID.
    pub fn unwrap_or_automatic(self) -> (r: LocalId)
        ensures
            match self {
                SpawnId::Automatic => r is Automatic,
                SpawnId::SpawnHere(l) => r@ == l@,
                SpawnId::User(l) => r@ == l@,
            },
    {
        match self {
            SpawnId::Automatic => LocalId::Automatic(fresh_uuid()),
            SpawnId::SpawnHere(id) => id,
            SpawnId::User(id) => id,
        }
    }
}

/// Where a spawn goes.
pub enum Placement {
    /// Build the actor here under this identifier.
    Local(ActorId),
    /// Send the message to the peer with this index; the actor will bear this identifier.
    Remote(usize, ActorId, NetMessage),
}

/// What a removal amounts to.
#[derive(Debug, PartialEq, Eq, Structural)]
pub enum Removal {
    /// The actor is protected: nothing happens.
    Ignore,
    /// Put a stop token into the resident actor's mailbox.
    StopLocal,
    /// Write a stop token to the peer with this index.
    StopRemote(usize),
    /// The actor is not known here: nothing happens.
    Unknown,
}

/// What an actor's loop does with the envelope it took from its mailbox.
#[derive(Debug, PartialEq, Eq, Structural)]
pub enum LoopStep {
    /// Hand the message to the actor's handler.
    Handle,
    /// Decode the bytes with the actor's decoder, then hand over what came out.
    Decode,
    /// Call the actor's reset hook and go on.
    Reset,
    /// Call the actor's stop hook, deregister it and leave the loop.
    Stop,
    /// Drop the envelope and go on.
    Skip,
}

/// The kind of envelope an actor's loop took from its mailbox.
#[derive(Debug, PartialEq, Eq, Structural, Clone, Copy)]
pub enum EnvelopeKind {
    Regular,
    Serialized,
    Special(Token),
}

/// Something to be carried out after an inbound message from a peer.
pub enum Action<R> {
    /// Put the encoded application message into the mailbox of this resident actor.
    DeliverSerialized(ActorId, Vec<u8>),
    /// Put the token into the mailbox of this resident actor.
    DeliverToken(ActorId, Token),
    /// Spawn an actor of this type tag here under this local identifier.
    SpawnHere(String, LocalId),
    /// Write the message to the peer with this index.
    SendToPeer(usize, NetMessage),
    /// Hand the reference to the actor found to the waiting lookup, whose entry is gone.
    AnswerFound(R, ActorId),
    /// Tell the lookup of (queried, searcher), whose entry stays, that one peer has not found it.
    AnswerMissing(Vec<u8>, ActorId),
    /// Run expiration on this node.
    Expire,
}

/// What an action stands for.
pub enum ActionModel<R> {
    DeliverSerialized(ActorIdModel, Seq<u8>),
    DeliverToken(ActorIdModel, Token),
    SpawnHere(Seq<char>, LocalIdModel),
    SendToPeer(nat, NetMessageModel),
    AnswerFound(R, ActorIdModel),
    AnswerMissing(Seq<u8>, ActorIdModel),
    Expire,
}

impl<R> View for Action<R> {
    type V = ActionModel<R>;

    open spec fn view(&self) -> ActionModel<R> {
        match self {
            Action::DeliverSerialized(id, b) => ActionModel::DeliverSerialized(id@, b@),
            Action::DeliverToken(id, t) => ActionModel::DeliverToken(id@, *t),
            Action::SpawnHere(t, l) => ActionModel::SpawnHere(t@, l@),
            Action::SendToPeer(i, m) => ActionModel::SendToPeer(*i as nat, m@),
            Action::AnswerFound(r, id) => ActionModel::AnswerFound(*r, id@),
            Action::AnswerMissing(q, s) => ActionModel::AnswerMissing(q@, s@),
            Action::Expire => ActionModel::Expire,
        }
    }
}

/// The views of a sequence of actions.
pub open spec fn actions_view<R>(a: Seq<Action<R>>) -> Seq<ActionModel<R>> {
    a.map_values(|x: Action<R>| x@)
}

/// The peers of a node at `here` configured with `configured`: in configured
/// order, without `here` and without repetitions (the first occurrence stays).
pub open spec fn peer_list(configured: Seq<NodeIp>, here: NodeIp) -> Seq<NodeIp>
    decreases configured.len(),
{
    if configured.len() == 0 {
        Seq::empty()
    } else {
        let before = peer_list(configured.drop_last(), here);
        let ip = configured.last();
        if ip == here || before.contains(ip) {
            before
        } else {
            before.push(ip)
        }
    }
}

/// The identifier of the actor with application-chosen bytes `q` on node `ip`.
pub open spec fn specified_at(q: Seq<u8>, ip: NodeIp) -> ActorIdModel {
    ActorIdModel { local_id: LocalIdModel::Specified(q), location: ip }
}

/// What removing the resident-side identifier `id` amounts to on `n`.
pub open spec fn local_removal<M, R>(n: &Node<M, R>, id: ActorIdModel) -> Removal {
    if n.is_protected(id) {
        Removal::Ignore
    } else if n.is_resident(id) {
        Removal::StopLocal
    } else {
        Removal::Unknown
    }
}

/// What the loop of actor `id` on `n` does with an envelope of kind `kind`.
pub open spec fn step_outcome<M, R>(n: &Node<M, R>, id: ActorIdModel, kind: EnvelopeKind) -> LoopStep {
    match kind {
        EnvelopeKind::Regular => LoopStep::Handle,
        EnvelopeKind::Serialized => LoopStep::Decode,
        EnvelopeKind::Special(Token::Reset) => LoopStep::Reset,
        EnvelopeKind::Special(Token::Stop) => if n.is_protected(id) && !n.is_expired() {
            LoopStep::Skip
        } else {
            LoopStep::Stop
        },
    }
}

/// What looking up the bytes `q` among the residents of `n` finds.
pub open spec fn lookup_result<M, R>(n: &Node<M, R>, q: Seq<u8>) -> Option<ActorIdModel> {
    if n.is_resident(specified_at(q, n.here_ip())) {
        Some(specified_at(q, n.here_ip()))
    } else {
        None
    }
}

/// `b` protects what `a` does, and `target` by `protector` besides.
pub open spec fn protection_added<M, R>(
    a: &Node<M, R>,
    b: &Node<M, R>,
    target: ActorIdModel,
    protector: ActorIdModel,
) -> bool {
    forall|t: ActorIdModel, p: ActorIdModel|
        b.protects(t, p) == (a.protects(t, p) || (t == target && p == protector))
}

/// `b` protects what `a` does, except `target` by `protector`.
pub open spec fn protection_dropped<M, R>(
    a: &Node<M, R>,
    b: &Node<M, R>,
    target: ActorIdModel,
    protector: ActorIdModel,
) -> bool {
    forall|t: ActorIdModel, p: ActorIdModel|
        b.protects(t, p) == (a.protects(t, p) && !(t == target && p == protector))
}

/// `b` holds the residents of `a` and `id` besides.
pub open spec fn registered<M, R>(a: &Node<M, R>, b: &Node<M, R>, id: ActorIdModel) -> bool {
    &&& b.here_ip() == a.here_ip()
    &&& b.is_resident(id)
    &&& forall|x: ActorIdModel| x != id ==> (b.is_resident(x) == a.is_resident(x))
}

/// `b` holds the residents of `a` but `id`.
pub open spec fn unregistered<M, R>(a: &Node<M, R>, b: &Node<M, R>, id: ActorIdModel) -> bool {
    &&& b.here_ip() == a.here_ip()
    &&& !b.is_resident(id)
    &&& forall|x: ActorIdModel| x != id ==> (b.is_resident(x) == a.is_resident(x))
}

/// Whether the termination signal is still to be released on `n`.
pub open spec fn releases<M, R>(n: &Node<M, R>) -> bool {
    !n.is_expired()
}

/// Per-node bookkeeping of the runtime.
pub struct Node<M, R> {
    here: NodeIp,
    actors: Vec<(ActorId, M)>,
    peers: Vec<NodeIp>,
    protections: Vec<(ActorId, ActorId)>,
    lookups: Vec<(Vec<u8>, ActorId, R)>,
    balancer: LoadBalancer,
    expired: bool,
}

impl<M, R> Node<M, R> {
    /// This node's address.
    pub closed spec fn here_ip(&self) -> NodeIp {
        self.here
    }

    /// Identifiers of the resident actors, in registration order.
    pub closed spec fn local_ids(&self) -> Seq<ActorIdModel> {
        self.actors@.map_values(|e: (ActorId, M)| e.0@)
    }

    /// Mailbox handles of the resident actors, in the order of `local_ids`.
    pub closed spec fn mailboxes(&self) -> Seq<M> {
        self.actors@.map_values(|e: (ActorId, M)| e.1)
    }

    /// The peers, in configured order.
    pub closed spec fn peer_ips(&self) -> Seq<NodeIp> {
        self.peers@
    }

    /// The pairs (target, protector) in force.
    pub closed spec fn protection_pairs(&self) -> Seq<(ActorIdModel, ActorIdModel)> {
        self.protections@.map_values(|p: (ActorId, ActorId)| (p.0@, p.1@))
    }

    /// Keys (queried bytes, searcher) of the outstanding lookups.
    pub closed spec fn lookup_keys(&self) -> Seq<(Seq<u8>, ActorIdModel)> {
        self.lookups@.map_values(|l: (Vec<u8>, ActorId, R)| (l.0@, l.1@))
    }

    /// Reply handles of the outstanding lookups, in the order of `lookup_keys`.
    pub closed spec fn lookup_handles(&self) -> Seq<R> {
        self.lookups@.map_values(|l: (Vec<u8>, ActorId, R)| l.2)
    }

    /// The load balancer's current slot.
    pub closed spec fn next_slot_view(&self) -> nat {
        self.balancer.current()
    }

    /// Whether expiration has been released on this node.
    pub closed spec fn is_expired(&self) -> bool {
        self.expired
    }

    /// Whether `id` names a resident actor.
    pub open spec fn is_resident(&self, id: ActorIdModel) -> bool {
        self.local_ids().contains(id)
    }

    /// Whether some protector keeps `target` alive.
    pub open spec fn is_protected(&self, target: ActorIdModel) -> bool {
        exists|i: int|
            0 <= i < self.protection_pairs().len() && #[trigger] self.protection_pairs()[i].0
                == target
    }

    pub closed spec fn wf(&self) -> bool {
        &&& self.local_ids().no_duplicates()
        &&& forall|i: int|
            0 <= i < self.local_ids().len() ==> (#[trigger] self.local_ids()[i]).location
                == self.here
        &&& self.peers@.no_duplicates()
        &&& !self.peers@.contains(self.here)
        &&& self.balancer.wf()
        &&& self.balancer.slots() == self.peers@.len() + 1
        &&& self.protection_pairs().no_duplicates()
        &&& self.lookup_keys().no_duplicates()
    }

    /// A node at `here` with the given peers, no actors, protectors or lookups.
    pub fn new(here: NodeIp, configured: &Vec<NodeIp>) -> (r: Node<M, R>)
        requires
            configured@.len() < usize::MAX,
        ensures
            r.wf(),
            r.here_ip() == here,
            r.peer_ips() == peer_list(configured@, here),
            r.local_ids().len() == 0,
            r.protection_pairs().len() == 0,
            r.lookup_keys().len() == 0,
            r.next_slot_view() == 0,
            !r.is_expired(),
    {
        let mut peers: Vec<NodeIp> = Vec::new();
        let mut i: usize = 0;
        while i < configured.len()
            invariant
                0 <= i <= configured@.len(),
                configured@.len() < usize::MAX,
                peers@ == peer_list(configured@.subrange(0, i as int), here),
                peers@.no_duplicates(),
                !peers@.contains(here),
                peers@.len() <= i,
            decreases configured@.len() - i,
        {
            let ip = configured[i];
            assert(configured@.subrange(0, i + 1).drop_last() =~= configured@.subrange(0, i as int));
            let mut known = ip == here;
            let mut j: usize = 0;
            while j < peers.len()
                invariant
                    0 <= j <= peers@.len(),
                    known ==> (ip == here || peers@.contains(ip)),
                    !known ==> ip != here && forall|k: int| 0 <= k < j ==> peers@[k] != ip,
                decreases peers@.len() - j,
            {
                if peers[j] == ip {
                    known = true;
                }
                j = j + 1;
            }
            if !known {
                proof {
                    lemma_push_unique(peers@, ip);
                }
                peers.push(ip);
            }
            i = i + 1;
        }
        assert(configured@.subrange(0, configured@.len() as int) =~= configured@);
        let n = peers.len() + 1;
        Node {
            here,
            actors: Vec::new(),
            peers,
            protections: Vec::new(),
            lookups: Vec::new(),
            balancer: LoadBalancer::new(n),
            expired: false,
        }
    }

    /// This node's address.
    pub fn local_ip(&self) -> (r: NodeIp)
        ensures
            r == self.here_ip(),
    {
        self.here
    }

    /// The number of peers.
    pub fn num_peers(&self) -> (r: usize)
        ensures
            r == self.peer_ips().len(),
    {
        self.peers.len()
    }

    /// The address of the peer with index `i`.
    pub fn peer_at(&self, i: usize) -> (r: NodeIp)
        requires
            i < self.peer_ips().len(),
        ensures
            r == self.peer_ips()[i as int],
    {
        self.peers[i]
    }

    /// The index of the peer at `ip`, if it is one.
    pub fn peer_index(&self, ip: NodeIp) -> (r: Option<usize>)
        ensures
            match r {
                Some(i) => i < self.peer_ips().len() && self.peer_ips()[i as int] == ip,
                None => !self.peer_ips().contains(ip),
            },
    {
        let mut i: usize = 0;
        while i < self.peers.len()
            invariant
                0 <= i <= self.peers@.len(),
                forall|k: int| 0 <= k < i ==> self.peers@[k] != ip,
            decreases self.peers@.len() - i,
        {
            if self.peers[i] == ip {
                return Some(i);
            }
            i = i + 1;
        }
        None
    }

    fn actor_index(&self, id: &ActorId) -> (r: Option<usize>)
        ensures
            match r {
                Some(i) => i < self.local_ids().len() && self.local_ids()[i as int] == id@,
                None => !self.local_ids().contains(id@),
            },
    {
        let mut i: usize = 0;
        while i < self.actors.len()
            invariant
                0 <= i <= self.actors@.len(),
                forall|k: int| 0 <= k < i ==> self.local_ids()[k] != id@,
            decreases self.actors@.len() - i,
        {
            if self.actors[i].0.eq(id) {
                return Some(i);
            }
            i = i + 1;
        }
        None
    }

    /// Whether `id` names a resident actor.
    pub fn contains_actor(&self, id: &ActorId) -> (r: bool)
        ensures
            r == self.is_resident(id@),
    {
        self.actor_index(id).is_some()
    }

    /// The mailbox handle of the resident actor `id`.
    pub fn mailbox(&self, id: &ActorId) -> (r: Option<&M>)
        ensures
            r.is_some() == self.is_resident(id@),
            r.is_some() ==> exists|i: int|
                0 <= i < self.local_ids().len() && self.local_ids()[i] == id@ && self.mailboxes()[i]
                    == *r.unwrap(),
    {
        match self.actor_index(id) {
            Some(i) => Some(&self.actors[i].1),
            None => None,
        }
    }

    /// Identifiers of all resident actors.
    pub fn local_actor_ids(&self) -> (r: Vec<ActorId>)
        ensures
            r@.map_values(|a: ActorId| a@) == self.local_ids(),
    {
        let mut r: Vec<ActorId> = Vec::new();
        let mut i: usize = 0;
        while i < self.actors.len()
            invariant
                0 <= i <= self.actors@.len(),
                r@.map_values(|a: ActorId| a@) == self.local_ids().subrange(0, i as int),
            decreases self.actors@.len() - i,
        {
            let c = self.actors[i].0.copy();
            let ghost prev = r@;
            r.push(c);
            assert(self.local_ids()[i as int] == c@);
            assert(r@.map_values(|a: ActorId| a@) =~= prev.map_values(|a: ActorId| a@).push(c@));
            assert(self.local_ids().subrange(0, i + 1) =~= self.local_ids().subrange(
                0,
                i as int,
            ).push(c@));
            i = i + 1;
        }
        assert(self.local_ids().subrange(0, i as int) =~= self.local_ids());
        r
    }

    /// Records the mailbox of a resident actor; an earlier entry for `id` is replaced.
    pub fn register(&mut self, id: ActorId, mailbox: M)
        requires
            old(self).wf(),
            id@.location == old(self).here_ip(),
        ensures
            final(self).wf(),
            registered(old(self), final(self), id@),
            exists|i: int|
                0 <= i < final(self).local_ids().len() && final(self).local_ids()[i] == id@
                    && final(self).mailboxes()[i] == mailbox,
            final(self).peer_ips() == old(self).peer_ips(),
            final(self).protection_pairs() == old(self).protection_pairs(),
            final(self).lookup_keys() == old(self).lookup_keys(),
            final(self).lookup_handles() == old(self).lookup_handles(),
            final(self).next_slot_view() == old(self).next_slot_view(),
            final(self).here_ip() == old(self).here_ip(),
            final(self).is_expired() == old(self).is_expired(),
    {
        match self.actor_index(&id) {
            Some(i) => {
                proof {
                    lemma_remove_unique(self.local_ids(), i as int);
                }
                let _ = self.actors.remove(i);
                assert(self.local_ids() =~= old(self).local_ids().remove(i as int));
            },
            None => {},
        }
        let ghost before = self.local_ids();
        proof {
            lemma_push_unique(before, id@);
        }
        self.actors.push((id, mailbox));
        assert(self.local_ids() =~= before.push(id@));
        assert(self.local_ids()[before.len() as int] == id@);
        assert(self.mailboxes()[before.len() as int] == mailbox);
    }

    /// Forgets the resident actor `id`, if there is one, and hands back its mailbox.
    pub fn unregister(&mut self, id: &ActorId) -> (r: Option<M>)
        requires
            old(self).wf(),
        ensures
            final(self).wf(),
            r.is_some() == old(self).is_resident(id@),
            unregistered(old(self), final(self), id@),
            final(self).peer_ips() == old(self).peer_ips(),
            final(self).protection_pairs() == old(self).protection_pairs(),
            final(self).lookup_keys() == old(self).lookup_keys(),
            final(self).lookup_handles() == old(self).lookup_handles(),
            final(self).next_slot_view() == old(self).next_slot_view(),
            final(self).here_ip() == old(self).here_ip(),
            final(self).is_expired() == old(self).is_expired(),
    {
        match self.actor_index(id) {
            Some(i) => {
                proof {
                    lemma_remove_unique(self.local_ids(), i as int);
                }
                let (_, m) = self.actors.remove(i);
                assert(self.local_ids() =~= old(self).local_ids().remove(i as int));
                Some(m)
            },
            None => None,
        }
    }
}


/// Whether local identifier `l` is one that `how` allows.
pub open spec fn chosen_by(how: SpawnId, l: LocalIdModel) -> bool {
    match how {
        SpawnId::Automatic => l is Automatic,
        SpawnId::SpawnHere(x) => l == x@,
        SpawnId::User(x) => l == x@,
    }
}

/// Encoded content bound for an actor on another node.
pub enum Outgoing {
    /// An encoded application message.
    Message(Vec<u8>),
    /// An encoded control token.
    Token(Vec<u8>),
}

impl<M, R> Node<M, R> {
    /// Whether `a` and `b` hold the same actors, peers and address.
    pub open spec fn same_actors(a: &Self, b: &Self) -> bool {
        &&& a.here_ip() == b.here_ip()
        &&& a.local_ids() == b.local_ids()
        &&& a.mailboxes() == b.mailboxes()
        &&& a.peer_ips() == b.peer_ips()
    }

    /// Whether `a` and `b` hold the same outstanding lookups.
    pub open spec fn same_lookups(a: &Self, b: &Self) -> bool {
        &&& a.lookup_keys() == b.lookup_keys()
        &&& a.lookup_handles() == b.lookup_handles()
    }

    /// Whether `a` and `b` agree on the balancer and on expiration.
    pub open spec fn same_rest(a: &Self, b: &Self) -> bool {
        &&& a.next_slot_view() == b.next_slot_view()
        &&& a.is_expired() == b.is_expired()
    }

    /// Whether `protector` keeps `target` alive.
    pub open spec fn protects(&self, target: ActorIdModel, protector: ActorIdModel) -> bool {
        self.protection_pairs().contains((target, protector))
    }

    /// Decides where a spawn goes. A spawn that must stay here, or that the
    /// balancer gives slot 0, is local; slot `k > 0` is the `k - 1`-th peer.
    /// Only a spawn that is not bound here advances the balancer.
    pub fn place(&mut self, tag: &str, how: SpawnId) -> (r: Placement)
        requires
            old(self).wf(),
        ensures
            final(self).wf(),
            Self::same_actors(old(self), final(self)),
            Self::same_lookups(old(self), final(self)),
            final(self).protection_pairs() == old(self).protection_pairs(),
            final(self).is_expired() == old(self).is_expired(),
            how is SpawnHere ==> final(self).next_slot_view() == old(self).next_slot_view(),
            !(how is SpawnHere) ==> final(self).next_slot_view() == next_slot(
                old(self).next_slot_view(),
                old(self).peer_ips().len() + 1,
            ),
            match r {
                Placement::Local(id) => {
                    &&& (how is SpawnHere || old(self).next_slot_view() == 0)
                    &&& id@.location == old(self).here_ip()
                    &&& chosen_by(how, id@.local_id)
                },
                Placement::Remote(k, id, m) => {
                    &&& !(how is SpawnHere)
                    &&& k + 1 == old(self).next_slot_view()
                    &&& k < old(self).peer_ips().len()
                    &&& id@.location == old(self).peer_ips()[k as int]
                    &&& chosen_by(how, id@.local_id)
                    &&& m@ == NetMessageModel::SpawnByTypeId(tag@, id@.local_id)
                },
            },
    {
        let ghost h = how;
        let slot: usize = if how.is_spawn_here() {
            0
        } else {
            self.balancer.next_machine_no()
        };
        let local_id = how.unwrap_or_automatic();
        if slot == 0 {
            Placement::Local(ActorId::new(local_id, self.here))
        } else {
            let k = slot - 1;
            let id = ActorId::new(local_id.copy(), self.peers[k]);
            let msg = NetMessage::SpawnByTypeId(tag.to_owned(), local_id);
            Placement::Remote(k, id, msg)
        }
    }

    /// Decides what removing `id` amounts to: nothing for a protected or
    /// unknown resident, a stop token into the mailbox of a resident, a stop
    /// token over the link to the node it lives on otherwise.
    pub fn removal(&self, id: &ActorId) -> (r: Removal)
        ensures
            id@.location == self.here_ip() ==> r == local_removal(self, id@),
            id@.location != self.here_ip() ==> match r {
                Removal::StopRemote(k) => k < self.peer_ips().len() && self.peer_ips()[k as int]
                    == id@.location,
                Removal::Unknown => !self.peer_ips().contains(id@.location),
                _ => false,
            },
    {
        if id.location == self.here {
            if self.has_protector(id) {
                Removal::Ignore
            } else if self.contains_actor(id) {
                Removal::StopLocal
            } else {
                Removal::Unknown
            }
        } else {
            match self.peer_index(id.location) {
                Some(k) => Removal::StopRemote(k),
                None => Removal::Unknown,
            }
        }
    }

    /// The message that asks the node `id` lives on to stop it.
    pub fn stop_message(id: ActorId) -> (r: NetMessage)
        ensures
            r@ == NetMessageModel::SpecialToken(id@, token_bytes(Token::Stop)),
    {
        NetMessage::SpecialToken(id, encode_token(Token::Stop))
    }

    /// What the loop of resident actor `id` does with an envelope of kind `kind`.
    /// A stop token is skipped while the actor is protected, unless the node expired.
    pub fn loop_step(&self, id: &ActorId, kind: EnvelopeKind) -> (r: LoopStep)
        ensures
            r == step_outcome(self, id@, kind),
    {
        match kind {
            EnvelopeKind::Regular => LoopStep::Handle,
            EnvelopeKind::Serialized => LoopStep::Decode,
            EnvelopeKind::Special(Token::Reset) => LoopStep::Reset,
            EnvelopeKind::Special(Token::Stop) => {
                if !self.expired && self.has_protector(id) {
                    LoopStep::Skip
                } else {
                    LoopStep::Stop
                }
            },
        }
    }

    fn protection_index(&self, target: &ActorId, protector: &ActorId) -> (r: Option<usize>)
        ensures
            match r {
                Some(i) => i < self.protection_pairs().len() && self.protection_pairs()[i as int]
                    == (target@, protector@),
                None => !self.protects(target@, protector@),
            },
    {
        let mut i: usize = 0;
        while i < self.protections.len()
            invariant
                0 <= i <= self.protections@.len(),
                forall|k: int| 0 <= k < i ==> self.protection_pairs()[k] != (target@, protector@),
            decreases self.protections@.len() - i,
        {
            if self.protections[i].0.eq(target) && self.protections[i].1.eq(protector) {
                return Some(i);
            }
            i = i + 1;
        }
        None
    }

    /// Whether some protector keeps `target` alive.
    pub fn has_protector(&self, target: &ActorId) -> (r: bool)
        ensures
            r == self.is_protected(target@),
    {
        let mut i: usize = 0;
        while i < self.protections.len()
            invariant
                0 <= i <= self.protections@.len(),
                forall|k: int| 0 <= k < i ==> self.protection_pairs()[k].0 != target@,
            decreases self.protections@.len() - i,
        {
            if self.protections[i].0.eq(target) {
                assert(self.protection_pairs()[i as int].0 == target@);
                return true;
            }
            i = i + 1;
        }
        false
    }

    /// Records that `protector` keeps `target` alive.
    pub fn add_protector(&mut self, protector: &ActorId, target: &ActorId)
        requires
            old(self).wf(),
        ensures
            final(self).wf(),
            Self::same_actors(old(self), final(self)),
            Self::same_lookups(old(self), final(self)),
            Self::same_rest(old(self), final(self)),
            protection_added(old(self), final(self), target@, protector@),
    {
        match self.protection_index(target, protector) {
            Some(_) => {},
            None => {
                let ghost before = self.protection_pairs();
                proof {
                    lemma_push_unique(before, (target@, protector@));
                }
                self.protections.push((target.copy(), protector.copy()));
                assert(self.protection_pairs() =~= before.push((target@, protector@)));
            },
        }
    }

    /// Forgets that `protector` keeps `target` alive; a target without
    /// protectors is no longer protected.
    fn drop_protection(&mut self, protector: &ActorId, target: &ActorId)
        requires
            old(self).wf(),
        ensures
            final(self).wf(),
            Self::same_actors(old(self), final(self)),
            Self::same_lookups(old(self), final(self)),
            Self::same_rest(old(self), final(self)),
            protection_dropped(old(self), final(self), target@, protector@),
    {
        match self.protection_index(target, protector) {
            Some(i) => {
                proof {
                    lemma_remove_unique(self.protection_pairs(), i as int);
                }
                let _ = self.protections.remove(i);
                assert(self.protection_pairs() =~= old(self).protection_pairs().remove(i as int));
            },
            None => {},
        }
    }

    /// Drops a protector on behalf of a caller of this node. When the target
    /// lives elsewhere, the returned message is to be written to every peer.
    pub fn remove_protector(&mut self, protector: &ActorId, target: &ActorId) -> (r: Option<
        NetMessage,
    >)
        requires
            old(self).wf(),
        ensures
            final(self).wf(),
            Self::same_actors(old(self), final(self)),
            Self::same_lookups(old(self), final(self)),
            Self::same_rest(old(self), final(self)),
            protection_dropped(old(self), final(self), target@, protector@),
            r.is_some() == (target@.location != old(self).here_ip()),
            r.is_some() ==> r.unwrap()@ == NetMessageModel::RemoveProtector(protector@, target@),
    {
        self.drop_protection(protector, target);
        if target.location != self.here {
            Some(NetMessage::RemoveProtector(protector.copy(), target.copy()))
        } else {
            None
        }
    }

    /// Looks for the actor with application-chosen bytes `queried` among the
    /// residents; when it is there and `protect` holds, `searcher` becomes one
    /// of its protectors.
    pub fn lookup_here(&mut self, queried: &Vec<u8>, searcher: &ActorId, protect: bool) -> (r:
        Option<ActorId>)
        requires
            old(self).wf(),
        ensures
            final(self).wf(),
            Self::same_actors(old(self), final(self)),
            Self::same_lookups(old(self), final(self)),
            Self::same_rest(old(self), final(self)),
            match lookup_result(old(self), queried@) {
                Some(a) => r matches Some(x) && x@ == a,
                None => r is None,
            },
            if r.is_some() && protect {
                protection_added(
                    old(self),
                    final(self),
                    specified_at(queried@, old(self).here_ip()),
                    searcher@,
                )
            } else {
                final(self).protection_pairs() == old(self).protection_pairs()
            },
    {
        let candidate = ActorId::new(LocalId::Specified(copy_bytes(queried)), self.here);
        if self.contains_actor(&candidate) {
            if protect {
                self.add_protector(searcher, &candidate);
            }
            Some(candidate)
        } else {
            None
        }
    }

    fn lookup_index(&self, queried: &Vec<u8>, searcher: &ActorId) -> (r: Option<usize>)
        ensures
            match r {
                Some(i) => i < self.lookup_keys().len() && self.lookup_keys()[i as int] == (
                    queried@,
                    searcher@,
                ),
                None => !self.lookup_keys().contains((queried@, searcher@)),
            },
    {
        let mut i: usize = 0;
        while i < self.lookups.len()
            invariant
                0 <= i <= self.lookups@.len(),
                forall|k: int| 0 <= k < i ==> self.lookup_keys()[k] != (queried@, searcher@),
            decreases self.lookups@.len() - i,
        {
            if bytes_equal(&self.lookups[i].0, queried) && self.lookups[i].1.eq(searcher) {
                return Some(i);
            }
            i = i + 1;
        }
        None
    }

    /// Ends the outstanding lookup of (`queried`, `searcher`), if there is
    /// one, and hands back its reply handle.
    pub fn end_lookup(&mut self, queried: &Vec<u8>, searcher: &ActorId) -> (r: Option<R>)
        requires
            old(self).wf(),
        ensures
            final(self).wf(),
            Self::same_actors(old(self), final(self)),
            Self::same_rest(old(self), final(self)),
            final(self).protection_pairs() == old(self).protection_pairs(),
            !final(self).lookup_keys().contains((queried@, searcher@)),
            forall|k: (Seq<u8>, ActorIdModel)|
                k != (queried@, searcher@) ==> (final(self).lookup_keys().contains(k) == old(
                    self,
                ).lookup_keys().contains(k)),
            r.is_some() == old(self).lookup_keys().contains((queried@, searcher@)),
            r.is_some() ==> exists|i: int|
                0 <= i < old(self).lookup_keys().len() && old(self).lookup_keys()[i] == (
                    queried@,
                    searcher@,
                ) && old(self).lookup_handles()[i] == r.unwrap(),
    {
        match self.lookup_index(queried, searcher) {
            Some(i) => {
                proof {
                    lemma_remove_unique(self.lookup_keys(), i as int);
                }
                let (_, _, h) = self.lookups.remove(i);
                assert(self.lookup_keys() =~= old(self).lookup_keys().remove(i as int));
                assert(old(self).lookup_handles()[i as int] == h);
                Some(h)
            },
            None => None,
        }
    }

    /// The reply handle of the outstanding lookup of (`queried`, `searcher`).
    pub fn lookup_reply(&self, queried: &Vec<u8>, searcher: &ActorId) -> (r: Option<&R>)
        ensures
            r.is_some() == self.lookup_keys().contains((queried@, searcher@)),
            r.is_some() ==> exists|i: int|
                0 <= i < self.lookup_keys().len() && self.lookup_keys()[i] == (queried@, searcher@)
                    && self.lookup_handles()[i] == *r.unwrap(),
    {
        match self.lookup_index(queried, searcher) {
            Some(i) => Some(&self.lookups[i].2),
            None => None,
        }
    }

    /// Registers the lookup of (`queried`, `searcher`) with its reply handle,
    /// replacing an earlier one with the same key, and returns the query to
    /// write to every peer.
    pub fn begin_lookup(&mut self, queried: &Vec<u8>, searcher: &ActorId, protect: bool, reply: R)
        -> (r: NetMessage)
        requires
            old(self).wf(),
        ensures
            final(self).wf(),
            Self::same_actors(old(self), final(self)),
            Self::same_rest(old(self), final(self)),
            final(self).protection_pairs() == old(self).protection_pairs(),
            forall|k: (Seq<u8>, ActorIdModel)|
                final(self).lookup_keys().contains(k) == (old(self).lookup_keys().contains(k) || k
                    == (queried@, searcher@)),
            exists|i: int|
                0 <= i < final(self).lookup_keys().len() && final(self).lookup_keys()[i] == (
                    queried@,
                    searcher@,
                ) && final(self).lookup_handles()[i] == reply,
            r@ == NetMessageModel::QuerySpecifiedId(
                queried@,
                old(self).here_ip(),
                searcher@,
                protect,
            ),
    {
        let _ = self.end_lookup(queried, searcher);
        let ghost before = self.lookup_keys();
        let ghost hs = self.lookup_handles();
        proof {
            lemma_push_unique(before, (queried@, searcher@));
        }
        self.lookups.push((copy_bytes(queried), searcher.copy(), reply));
        assert(self.lookup_keys() =~= before.push((queried@, searcher@)));
        assert(self.lookup_handles() =~= hs.push(reply));
        assert(self.lookup_keys()[before.len() as int] == (queried@, searcher@));
        NetMessage::QuerySpecifiedId(copy_bytes(queried), self.here, searcher.copy(), protect)
    }

    /// Where content bound for `target` is written: the index of the peer it
    /// lives on, with the message to write; `None` when that node is no peer.
    pub fn route_outbound(&self, target: ActorId, content: Outgoing) -> (r: Option<(usize, NetMessage)>)
        ensures
            match r {
                Some((k, m)) => {
                    &&& k < self.peer_ips().len()
                    &&& self.peer_ips()[k as int] == target@.location
                    &&& m@ == match content {
                        Outgoing::Message(b) => NetMessageModel::Message(target@, b@),
                        Outgoing::Token(b) => NetMessageModel::SpecialToken(target@, b@),
                    }
                },
                None => !self.peer_ips().contains(target@.location),
            },
    {
        match self.peer_index(target.location) {
            Some(k) => {
                let m = match content {
                    Outgoing::Message(b) => NetMessage::Message(target, b),
                    Outgoing::Token(b) => NetMessage::SpecialToken(target, b),
                };
                Some((k, m))
            },
            None => None,
        }
    }

    /// Marks the node expired. Returns `true` the first time only: the
    /// termination signal is released once.
    pub fn expire(&mut self) -> (r: bool)
        requires
            old(self).wf(),
        ensures
            final(self).wf(),
            Self::same_actors(old(self), final(self)),
            Self::same_lookups(old(self), final(self)),
            final(self).protection_pairs() == old(self).protection_pairs(),
            final(self).next_slot_view() == old(self).next_slot_view(),
            final(self).is_expired(),
            r == releases(old(self)),
    {
        let first = !self.expired;
        self.expired = true;
        first
    }

    /// Whether the node has expired.
    pub fn expired(&self) -> (r: bool)
        ensures
            r == self.is_expired(),
    {
        self.expired
    }
}


/// One delivery of the encoded message `b` per resident actor, in registration order.
pub open spec fn broadcast_actions<R>(ids: Seq<ActorIdModel>, b: Seq<u8>) -> Seq<ActionModel<R>> {
    Seq::new(ids.len(), |i: int| ActionModel::DeliverSerialized(ids[i], b))
}

impl<M, R> Node<M, R> {
    fn broadcast_here(&self, content: &Vec<u8>) -> (r: Vec<Action<R>>)
        ensures
            actions_view(r@) == broadcast_actions::<R>(self.local_ids(), content@),
    {
        let mut r: Vec<Action<R>> = Vec::new();
        let mut i: usize = 0;
        while i < self.actors.len()
            invariant
                0 <= i <= self.actors@.len(),
                actions_view(r@) == broadcast_actions::<R>(self.local_ids(), content@).subrange(
                    0,
                    i as int,
                ),
            decreases self.actors@.len() - i,
        {
            let ghost prev = r@;
            r.push(Action::DeliverSerialized(self.actors[i].0.copy(), copy_bytes(content)));
            assert(actions_view(r@) =~= actions_view(prev).push(
                ActionModel::DeliverSerialized(self.local_ids()[i as int], content@),
            ));
            i = i + 1;
            assert(actions_view(r@) =~= broadcast_actions::<R>(self.local_ids(), content@).subrange(
                0,
                i as int,
            ));
        }
        assert(broadcast_actions::<R>(self.local_ids(), content@).subrange(0, i as int)
            =~= broadcast_actions::<R>(self.local_ids(), content@));
        r
    }

    /// Carries out on this node's tables what an inbound message from a peer
    /// asks, and returns what remains to be done:
    /// - `Message` and `SpecialToken` go to the mailbox of a resident target
    ///   (a token only when it decodes), and are dropped otherwise;
    /// - `SpawnByTypeId` asks for a spawn here under the given identifier;
    /// - `Broadcast` goes to the mailbox of every resident actor;
    /// - `QuerySpecifiedId` is looked up among the residents, protecting a
    ///   found actor when asked, and answered over the link to the asking node;
    /// - a positive `QuerySpecifiedIdResult` ends the waiting lookup and hands
    ///   it a reference; a negative one tells the lookup that one peer missed;
    /// - `RemoveProtector` drops the protector here, without forwarding;
    /// - `SendExpirationSignal` asks for expiration.
    pub fn handle_net_message(&mut self, msg: NetMessage) -> (r: Vec<Action<R>>)
        requires
            old(self).wf(),
        ensures
            final(self).wf(),
            Self::same_actors(old(self), final(self)),
            Self::same_rest(old(self), final(self)),
            match msg@ {
                NetMessageModel::QuerySpecifiedIdResult(q, s, Some(ip)) => true,
                _ => Self::same_lookups(old(self), final(self)),
            },
            match msg@ {
                NetMessageModel::QuerySpecifiedId(_, _, _, _) => true,
                NetMessageModel::RemoveProtector(_, _) => true,
                _ => final(self).protection_pairs() == old(self).protection_pairs(),
            },
            match msg@ {
                NetMessageModel::Message(id, b) => actions_view(r@) == if old(self).is_resident(id) {
                    seq![ActionModel::<R>::DeliverSerialized(id, b)]
                } else {
                    Seq::empty()
                },
                NetMessageModel::SpecialToken(id, b) => actions_view(r@) == if old(self).is_resident(
                    id,
                ) && token_of(b).is_some() {
                    seq![ActionModel::<R>::DeliverToken(id, token_of(b).unwrap())]
                } else {
                    Seq::empty()
                },
                NetMessageModel::SpawnByTypeId(t, l) => actions_view(r@) == seq![
                    ActionModel::<R>::SpawnHere(t, l),
                ],
                NetMessageModel::Broadcast(b) => actions_view(r@) == broadcast_actions::<R>(
                    old(self).local_ids(),
                    b,
                ),
                NetMessageModel::QuerySpecifiedId(q, ip, s, p) => {
                    let cand = specified_at(q, old(self).here_ip());
                    let found = old(self).is_resident(cand);
                    &&& if found && p {
                        protection_added(old(self), final(self), cand, s)
                    } else {
                        final(self).protection_pairs() == old(self).protection_pairs()
                    }
                    &&& if old(self).peer_ips().contains(ip) {
                        &&& r@.len() == 1
                        &&& r@[0] matches Action::SendToPeer(k, m)
                        &&& k < old(self).peer_ips().len()
                        &&& old(self).peer_ips()[k as int] == ip
                        &&& m@ == NetMessageModel::QuerySpecifiedIdResult(
                            q,
                            s,
                            if found {
                                Some(old(self).here_ip())
                            } else {
                                None
                            },
                        )
                    } else {
                        r@.len() == 0
                    }
                },
                NetMessageModel::QuerySpecifiedIdResult(q, s, Some(ip)) => {
                    &&& !final(self).lookup_keys().contains((q, s))
                    &&& forall|k: (Seq<u8>, ActorIdModel)|
                        k != (q, s) ==> (final(self).lookup_keys().contains(k) == old(
                            self,
                        ).lookup_keys().contains(k))
                    &&& if old(self).lookup_keys().contains((q, s)) {
                        &&& r@.len() == 1
                        &&& r@[0] matches Action::AnswerFound(h, id)
                        &&& id@ == specified_at(q, ip)
                        &&& exists|i: int|
                            0 <= i < old(self).lookup_keys().len() && old(self).lookup_keys()[i]
                                == (q, s) && old(self).lookup_handles()[i] == h
                    } else {
                        r@.len() == 0
                    }
                },
                NetMessageModel::QuerySpecifiedIdResult(q, s, None) => actions_view(r@) == if old(
                    self,
                ).lookup_keys().contains((q, s)) {
                    seq![ActionModel::<R>::AnswerMissing(q, s)]
                } else {
                    Seq::empty()
                },
                NetMessageModel::RemoveProtector(p, t) => {
                    &&& protection_dropped(old(self), final(self), t, p)
                    &&& r@.len() == 0
                },
                NetMessageModel::SendExpirationSignal => actions_view(r@) == seq![
                    ActionModel::<R>::Expire,
                ],
            },
    {
        let ghost m = msg@;
        let mut r: Vec<Action<R>> = Vec::new();
        match msg {
            NetMessage::Message(id, b) => {
                if self.contains_actor(&id) {
                    r.push(Action::DeliverSerialized(id, b));
                }
            },
            NetMessage::SpecialToken(id, b) => {
                if self.contains_actor(&id) {
                    match decode_token(&b) {
                        Some(t) => r.push(Action::DeliverToken(id, t)),
                        None => {},
                    }
                }
            },
            NetMessage::SpawnByTypeId(t, l) => {
                r.push(Action::SpawnHere(t, l));
            },
            NetMessage::Broadcast(b) => {
                r = self.broadcast_here(&b);
            },
            NetMessage::QuerySpecifiedId(q, ip, s, p) => {
                let found = self.lookup_here(&q, &s, p);
                match self.peer_index(ip) {
                    Some(k) => {
                        let at = match found {
                            Some(_) => Some(self.here),
                            None => None,
                        };
                        r.push(Action::SendToPeer(k, NetMessage::QuerySpecifiedIdResult(q, s, at)));
                    },
                    None => {},
                }
            },
            NetMessage::QuerySpecifiedIdResult(q, s, result) => {
                match result {
                    Some(ip) => {
                        match self.end_lookup(&q, &s) {
                            Some(h) => {
                                let id = ActorId::new(LocalId::Specified(q), ip);
                                r.push(Action::AnswerFound(h, id));
                            },
                            None => {},
                        }
                    },
                    None => {
                        if self.lookup_reply(&q, &s).is_some() {
                            r.push(Action::AnswerMissing(q, s));
                        }
                    },
                }
            },
            NetMessage::RemoveProtector(p, t) => {
                self.drop_protection(&p, &t);
            },
            NetMessage::SendExpirationSignal => {
                r.push(Action::Expire);
            },
        }
        proof {
            match m {
                NetMessageModel::Message(_, _) | NetMessageModel::SpecialToken(_, _)
                | NetMessageModel::SpawnByTypeId(_, _) | NetMessageModel::SendExpirationSignal
                | NetMessageModel::QuerySpecifiedIdResult(_, _, None) => {
                    assert(actions_view(r@) =~= r@.map_values(|x: Action<R>| x@));
                },
                _ => {},
            }
        }
        r
    }
}


/// Spawn-with-id: once the actor with application-chosen bytes `q` is
/// registered on a node, looking `q` up there finds it under that
/// identifier; once it is unregistered again, the lookup finds nothing.
pub proof fn spawned_with_id_is_found<M, R>(
    before: &Node<M, R>,
    spawned: &Node<M, R>,
    removed: &Node<M, R>,
    q: Seq<u8>,
)
    requires
        registered(before, spawned, specified_at(q, before.here_ip())),
        unregistered(spawned, removed, specified_at(q, before.here_ip())),
    ensures
        lookup_result(spawned, q) == Some(specified_at(q, before.here_ip())),
        lookup_result(removed, q) is None,
{
}

proof fn lemma_protected_by<M, R>(n: &Node<M, R>, t: ActorIdModel)
    ensures
        n.is_protected(t) <==> exists|p: ActorIdModel| n.protects(t, p),
{
    if n.is_protected(t) {
        let i = choose|i: int|
            0 <= i < n.protection_pairs().len() && #[trigger] n.protection_pairs()[i].0 == t;
        assert(n.protects(t, n.protection_pairs()[i].1));
    }
    if exists|p: ActorIdModel| n.protects(t, p) {
        let p = choose|p: ActorIdModel| n.protects(t, p);
        let i = choose|i: int|
            0 <= i < n.protection_pairs().len() && n.protection_pairs()[i] == (t, p);
        assert(n.protection_pairs()[i].0 == t);
    }
}

/// Protector refcount: after `searcher` protects resident `target`, removing
/// `target` is ignored. Once that protector is dropped, removing it is still
/// ignored while another protector remains, and stops it otherwise.
pub proof fn protection_holds_off_removal<M, R>(
    before: &Node<M, R>,
    protected: &Node<M, R>,
    dropped: &Node<M, R>,
    target: ActorIdModel,
    searcher: ActorIdModel,
)
    requires
        before.is_resident(target),
        Node::same_actors(before, protected),
        Node::same_actors(protected, dropped),
        protection_added(before, protected, target, searcher),
        protection_dropped(protected, dropped, target, searcher),
    ensures
        local_removal(protected, target) == Removal::Ignore,
        local_removal(dropped, target) == if exists|p: ActorIdModel|
            p != searcher && #[trigger] before.protects(target, p) {
            Removal::Ignore
        } else {
            Removal::StopLocal
        },
{
    lemma_protected_by(protected, target);
    lemma_protected_by(dropped, target);
    assert(protected.protects(target, searcher));
    if exists|p: ActorIdModel| p != searcher && #[trigger] before.protects(target, p) {
        let p = choose|p: ActorIdModel| p != searcher && #[trigger] before.protects(target, p);
        assert(dropped.protects(target, p));
    } else {
        assert forall|p: ActorIdModel| !dropped.protects(target, p) by {
            if p != searcher {
                assert(!before.protects(target, p));
            }
        }
    }
}

/// Broadcast locality: a broadcast reaches every resident actor exactly once
/// and no one else.
pub proof fn broadcast_reaches_each_once<R>(ids: Seq<ActorIdModel>, b: Seq<u8>, id: ActorIdModel)
    requires
        ids.no_duplicates(),
    ensures
        ids.contains(id) ==> exists|i: int|
            0 <= i < ids.len() && broadcast_actions::<R>(ids, b)[i]
                == ActionModel::<R>::DeliverSerialized(id, b),
        forall|i: int, j: int|
            0 <= i < ids.len() && 0 <= j < ids.len() && broadcast_actions::<R>(ids, b)[i]
                == ActionModel::<R>::DeliverSerialized(id, b) && broadcast_actions::<R>(ids, b)[j]
                == ActionModel::<R>::DeliverSerialized(id, b) ==> i == j,
        broadcast_actions::<R>(ids, b).len() == ids.len(),
        forall|i: int|
            0 <= i < ids.len() ==> #[trigger] broadcast_actions::<R>(ids, b)[i]
                == ActionModel::<R>::DeliverSerialized(ids[i], b),
{
    if ids.contains(id) {
        let i = choose|i: int| 0 <= i < ids.len() && ids[i] == id;
        assert(broadcast_actions::<R>(ids, b)[i] == ActionModel::<R>::DeliverSerialized(id, b));
    }
}

/// Expiration: once a node has expired, every actor stops at its next stop
/// token, protected or not, and the termination signal is not released again.
pub proof fn expiration_stops_everyone<M, R>(n: &Node<M, R>, id: ActorIdModel)
    requires
        n.is_expired(),
    ensures
        step_outcome(n, id, EnvelopeKind::Special(Token::Stop)) == LoopStep::Stop,
        !releases(n),
{
}

} // verus!
