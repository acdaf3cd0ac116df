//! Identity of actors: the node an actor lives on, its node-local identifier,
//! and the pair of both that names it across the cluster.
use vstd::prelude::*;

verus! {

/// Address of a node (the IP part of its endpoint), held as plain integers.
#[derive(Clone, Copy, Debug, PartialEq, Eq, Structural, Hash, PartialOrd, Ord)]
pub enum NodeIp {
    V4(u32),
    V6(u128),
}

/// What a node-local identifier stands for.
pub enum LocalIdModel {
    Automatic(u128),
    Specified(Seq<u8>),
}

/// A node-local identifier: a fresh 128-bit UUID, or bytes chosen by the application.
#[derive(Clone, Debug, Hash, PartialOrd, Ord)]
pub enum LocalId {
    Automatic(u128),
    Specified(Vec<u8>),
}

impl View for LocalId {
    type V = LocalIdModel;

    open spec fn view(&self) -> LocalIdModel {
        match self {
            LocalId::Automatic(u) => LocalIdModel::Automatic(*u),
            LocalId::Specified(v) => LocalIdModel::Specified(v@),
        }
    }
}

/// Byte-wise equality of two byte strings.
pub fn bytes_equal(a: &Vec<u8>, b: &Vec<u8>) -> (r: bool)
    ensures
        r == (a@ == b@),
{
    if a.len() != b.len() {
        return false;
    }
    let mut i: usize = 0;
    while i < a.len()
        invariant
            a@.len() == b@.len(),
            0 <= i <= a@.len(),
            forall|j: int| 0 <= j < i ==> a@[j] == b@[j],
        decreases a@.len() - i,
    {
        if a[i] != b[i] {
            return false;
        }
        i = i + 1;
    }
    assert(a@ =~= b@);
    true
}

/// A copy of a byte string.
pub fn copy_bytes(a: &Vec<u8>) -> (r: Vec<u8>)
    ensures
        r@ == a@,
{
    let mut r: Vec<u8> = Vec::new();
    let mut i: usize = 0;
    while i < a.len()
        invariant
            0 <= i <= a@.len(),
            r@ == a@.subrange(0, i as int),
        decreases a@.len() - i,
    {
        r.push(a[i]);
        i = i + 1;
        assert(r@ =~= a@.subrange(0, i as int));
    }
    assert(a@.subrange(0, a@.len() as int) =~= a@);
    r
}

impl LocalId {
    /// A copy of this identifier.
    pub fn copy(&self) -> (r: LocalId)
        ensures
            r@ == self@,
    {
        match self {
            LocalId::Automatic(u) => LocalId::Automatic(*u),
            LocalId::Specified(v) => LocalId::Specified(copy_bytes(v)),
        }
    }
}

impl PartialEq for LocalId {
    fn eq(&self, other: &LocalId) -> (r: bool)
        ensures
            r == (self@ == other@),
    {
        match (self, other) {
            (LocalId::Automatic(a), LocalId::Automatic(b)) => *a == *b,
            (LocalId::Specified(a), LocalId::Specified(b)) => bytes_equal(a, b),
            _ => false,
        }
    }
}

impl vstd::std_specs::cmp::PartialEqSpecImpl for LocalId {
    open spec fn obeys_eq_spec() -> bool {
        true
    }

    open spec fn eq_spec(&self, other: &LocalId) -> bool {
        self@ == other@
    }
}

impl Eq for LocalId {
}

/// What an actor identifier stands for.
pub struct ActorIdModel {
    pub local_id: LocalIdModel,
    pub location: NodeIp,
}

/// Names one actor cluster-wide: its node-local identifier and the node it lives on.
#[derive(Clone, Debug, Hash, PartialOrd, Ord)]
pub struct ActorId {
    pub local_id: LocalId,
    pub location: NodeIp,
}

impl View for ActorId {
    type V = ActorIdModel;

    open spec fn view(&self) -> ActorIdModel {
        ActorIdModel { local_id: self.local_id@, location: self.location }
    }
}

impl ActorId {
    /// The identifier of the actor with local identifier `local_id` on node `location`.
    pub fn new(local_id: LocalId, location: NodeIp) -> (r: ActorId)
        ensures
            r@ == (ActorIdModel { local_id: local_id@, location }),
    {
        ActorId { local_id, location }
    }

    /// A copy of this identifier.
    pub fn copy(&self) -> (r: ActorId)
        ensures
            r@ == self@,
    {
        ActorId { local_id: self.local_id.copy(), location: self.location }
    }

    /// The application-chosen bytes of this identifier, or `None` when it was generated.
    pub fn when_specified(self) -> (r: Option<Vec<u8>>)
        ensures
            match self@.local_id {
                LocalIdModel::Specified(b) => r.is_some() && r.unwrap()@ == b,
                LocalIdModel::Automatic(_) => r.is_none(),
            },
    {
        match self.local_id {
            LocalId::Specified(bytes) => Some(bytes),
            LocalId::Automatic(_) => None,
        }
    }
}

impl PartialEq for ActorId {
    fn eq(&self, other: &ActorId) -> (r: bool)
        ensures
            r == (self@ == other@),
    {
        self.location == other.location && self.local_id.eq(&other.local_id)
    }
}

impl vstd::std_specs::cmp::PartialEqSpecImpl for ActorId {
    open spec fn obeys_eq_spec() -> bool {
        true
    }

    open spec fn eq_spec(&self, other: &ActorId) -> bool {
        self@ == other@
    }
}

impl Eq for ActorId {
}

} // verus!
