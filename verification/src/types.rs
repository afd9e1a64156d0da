//! Identifiers and small value types shared by the replication machinery.
use vstd::prelude::*;
use vstd::string::StringExecFns;
use crate::text::{push_decimal, spec_decimal};

verus! {

/// Index of a reliable message on the wire; wraps around at 65536.
pub type MessageIndex = u16;

/// Which end of a connection this side is.
#[derive(Clone, Copy, PartialEq, Eq, Hash, Debug, Structural)]
pub enum HostType {
    Server,
    Client,
}

impl HostType {
    /// The other end of the connection.
    pub fn invert(&self) -> (r: HostType)
        ensures
            r != *self,
    {
        match self {
            HostType::Server => HostType::Client,
            HostType::Client => HostType::Server,
        }
    }
}

/// An entity identifier that one number stands for: two identifiers with
/// the same number are the same.
pub trait EntityKey: Copy + Eq + Sized {
    spec fn spec_key(&self) -> u64;

    proof fn lemma_key_injective(a: Self, b: Self)
        requires
            a.spec_key() == b.spec_key(),
        ensures
            a == b,
    ;

    fn key(&self) -> (r: u64)
        ensures
            r == self.spec_key(),
    ;

    /// The identifier as its `Debug` writes it.
    spec fn spec_debug_text(&self) -> Seq<char>;

    fn debug_text(&self) -> (r: String)
        ensures
            r@ == self.spec_debug_text(),
    ;
}

/// The entries of `stored`, each under the identifier its number stands for.
pub open spec fn spec_keyed<E: EntityKey, V>(stored: Map<u64, V>) -> Map<E, V> {
    Map::new(|e: E| stored.contains_key(e.spec_key()), |e: E| stored[e.spec_key()])
}

/// Storing under an identifier's number stores under that identifier.
pub proof fn lemma_keyed_insert<E: EntityKey, V>(stored: Map<u64, V>, e: E, v: V)
    ensures
        spec_keyed::<E, V>(stored.insert(e.spec_key(), v)) == spec_keyed::<E, V>(stored).insert(e, v),
{
    assert forall|x: E| #[trigger] stored.insert(e.spec_key(), v).contains_key(x.spec_key()) && x != e implies stored.contains_key(
        x.spec_key(),
    ) by {
        if x.spec_key() == e.spec_key() {
            E::lemma_key_injective(x, e);
        }
    }
    assert forall|x: E| x != e && stored.contains_key(x.spec_key()) implies #[trigger] stored.insert(e.spec_key(), v)[x.spec_key()]
        == stored[x.spec_key()] by {
        if x.spec_key() == e.spec_key() {
            E::lemma_key_injective(x, e);
        }
    }
    assert(spec_keyed::<E, V>(stored.insert(e.spec_key(), v)) =~= spec_keyed::<E, V>(stored).insert(e, v));
}

/// Dropping the entry under an identifier's number drops it for that identifier.
pub proof fn lemma_keyed_remove<E: EntityKey, V>(stored: Map<u64, V>, e: E)
    ensures
        spec_keyed::<E, V>(stored.remove(e.spec_key())) == spec_keyed::<E, V>(stored).remove(e),
{
    assert forall|x: E| x != e implies (#[trigger] stored.remove(e.spec_key()).contains_key(x.spec_key())) == stored.contains_key(
        x.spec_key(),
    ) by {
        if x.spec_key() == e.spec_key() {
            E::lemma_key_injective(x, e);
        }
    }
    assert(spec_keyed::<E, V>(stored.remove(e.spec_key())) =~= spec_keyed::<E, V>(stored).remove(e));
}

/// An entity as numbered by the side that created and owns it.
#[derive(Clone, Copy, PartialEq, Eq, Hash, Debug, Structural)]
pub struct HostEntity(pub u16);

impl HostEntity {
    pub fn new(value: u16) -> (r: HostEntity)
        ensures
            r.0 == value,
    {
        HostEntity(value)
    }

    pub fn value(&self) -> (r: u16)
        ensures
            r == self.0,
    {
        self.0
    }

    /// The same number, as the peer sees it.
    pub fn to_remote(&self) -> (r: RemoteEntity)
        ensures
            r.0 == self.0,
    {
        RemoteEntity(self.0)
    }
}

/// An entity as numbered by the peer that created and owns it.
#[derive(Clone, Copy, PartialEq, Eq, Hash, Debug, Structural)]
pub struct RemoteEntity(pub u16);

impl RemoteEntity {
    pub fn new(value: u16) -> (r: RemoteEntity)
        ensures
            r.0 == value,
    {
        RemoteEntity(value)
    }

    pub fn value(&self) -> (r: u16)
        ensures
            r == self.0,
    {
        self.0
    }

    /// The same number, as the peer sees it.
    pub fn to_host(&self) -> (r: HostEntity)
        ensures
            r.0 == self.0,
    {
        HostEntity(self.0)
    }
}

/// A local entity number, tagged with which side owns it.
#[derive(Clone, Copy, PartialEq, Eq, Hash, Debug, Structural)]
pub enum OwnedLocalEntity {
    Host(u16),
    Remote(u16),
}

impl OwnedLocalEntity {
    pub fn new_host(entity: HostEntity) -> (r: OwnedLocalEntity)
        ensures
            r == OwnedLocalEntity::Host(entity.0),
    {
        OwnedLocalEntity::Host(entity.0)
    }

    pub fn new_remote(entity: RemoteEntity) -> (r: OwnedLocalEntity)
        ensures
            r == OwnedLocalEntity::Remote(entity.0),
    {
        OwnedLocalEntity::Remote(entity.0)
    }

    pub fn is_host(&self) -> (r: bool)
        ensures
            r == (*self is Host),
    {
        matches!(self, OwnedLocalEntity::Host(_))
    }

    pub fn is_remote(&self) -> (r: bool)
        ensures
            r == (*self is Remote),
    {
        matches!(self, OwnedLocalEntity::Remote(_))
    }

    /// The host entity; only meaningful on a host-owned entity.
    pub fn host(&self) -> (r: HostEntity)
        requires
            *self is Host,
        ensures
            r.0 == self->Host_0,
    {
        match self {
            OwnedLocalEntity::Host(v) => HostEntity(*v),
            OwnedLocalEntity::Remote(v) => HostEntity(*v),
        }
    }

    /// The remote entity; only meaningful on a remote-owned entity.
    pub fn remote(&self) -> (r: RemoteEntity)
        requires
            *self is Remote,
        ensures
            r.0 == self->Remote_0,
    {
        match self {
            OwnedLocalEntity::Host(v) => RemoteEntity(*v),
            OwnedLocalEntity::Remote(v) => RemoteEntity(*v),
        }
    }

    /// The remote entity named by this number, whichever side it is tagged with.
    pub fn take_remote(&self) -> (r: RemoteEntity)
        ensures
            r.0 == spec_local_value(*self),
    {
        match self {
            OwnedLocalEntity::Host(v) => RemoteEntity(*v),
            OwnedLocalEntity::Remote(v) => RemoteEntity(*v),
        }
    }

    /// The same number with ownership swapped, as the peer sees it.
    pub fn to_reversed(&self) -> (r: OwnedLocalEntity)
        ensures
            r == spec_reversed(*self),
    {
        match self {
            OwnedLocalEntity::Host(v) => OwnedLocalEntity::Remote(*v),
            OwnedLocalEntity::Remote(v) => OwnedLocalEntity::Host(*v),
        }
    }
}

/// The number carried by a local entity.
pub open spec fn spec_local_value(e: OwnedLocalEntity) -> u16 {
    match e {
        OwnedLocalEntity::Host(v) => v,
        OwnedLocalEntity::Remote(v) => v,
    }
}

/// The local entity with its ownership swapped.
pub open spec fn spec_reversed(e: OwnedLocalEntity) -> OwnedLocalEntity {
    match e {
        OwnedLocalEntity::Host(v) => OwnedLocalEntity::Remote(v),
        OwnedLocalEntity::Remote(v) => OwnedLocalEntity::Host(v),
    }
}

/// Reversing ownership twice gives back the same entity.
pub proof fn lemma_reversed_involutive(e: OwnedLocalEntity)
    ensures
        spec_reversed(spec_reversed(e)) == e,
        spec_local_value(spec_reversed(e)) == spec_local_value(e),
{
}

/// A connection-independent entity identifier.
#[derive(Clone, Copy, PartialEq, Eq, Hash, Debug, Structural)]
pub struct GlobalEntity(pub u64);

impl GlobalEntity {
    pub fn to_u64(&self) -> (r: u64)
        ensures
            r == self.0,
    {
        self.0
    }

    pub fn from_u64(value: u64) -> (r: GlobalEntity)
        ensures
            r.0 == value,
    {
        GlobalEntity(value)
    }
}

/// The kind of a replicated component, by its protocol id.
#[derive(Clone, Copy, PartialEq, Eq, Hash, Debug, Structural)]
pub struct ComponentKind {
    pub id: u16,
}

impl ComponentKind {
    pub fn new(id: u16) -> (r: ComponentKind)
        ensures
            r.id == id,
    {
        ComponentKind { id }
    }
}

/// Who holds authority over a delegated entity.
#[derive(Clone, Copy, PartialEq, Eq, Hash, Debug, Structural)]
pub enum EntityAuthStatus {
    Available,
    Requested,
    Granted,
    Releasing,
    Denied,
}

/// An authority status, together with the side that observes it.
#[derive(Clone, Copy, PartialEq, Eq, Hash, Debug, Structural)]
pub struct HostEntityAuthStatus {
    pub host_type: HostType,
    pub auth_status: EntityAuthStatus,
}

/// This side may change the value locally.
pub open spec fn spec_can_mutate(s: HostEntityAuthStatus) -> bool {
    match (s.host_type, s.auth_status) {
        (HostType::Client, EntityAuthStatus::Requested) => true,
        (HostType::Client, EntityAuthStatus::Granted) => true,
        (HostType::Client, EntityAuthStatus::Releasing) => true,
        (HostType::Server, EntityAuthStatus::Available) => true,
        (HostType::Server, EntityAuthStatus::Requested) => true,
        _ => false,
    }
}

/// This side accepts the value that the peer sends.
pub open spec fn spec_can_read(s: HostEntityAuthStatus) -> bool {
    match (s.host_type, s.auth_status) {
        (HostType::Client, EntityAuthStatus::Available) => true,
        (HostType::Client, EntityAuthStatus::Denied) => true,
        (HostType::Server, EntityAuthStatus::Granted) => true,
        (HostType::Server, EntityAuthStatus::Releasing) => true,
        _ => false,
    }
}

/// This side sends its value to the peer.
pub open spec fn spec_can_write(s: HostEntityAuthStatus) -> bool {
    match (s.host_type, s.auth_status) {
        (HostType::Client, EntityAuthStatus::Granted) => true,
        (HostType::Client, EntityAuthStatus::Releasing) => true,
        (HostType::Server, EntityAuthStatus::Available) => true,
        (HostType::Server, EntityAuthStatus::Requested) => true,
        _ => false,
    }
}

impl HostEntityAuthStatus {
    pub fn new(host_type: HostType, auth_status: EntityAuthStatus) -> (r: HostEntityAuthStatus)
        ensures
            r.host_type == host_type,
            r.auth_status == auth_status,
    {
        HostEntityAuthStatus { host_type, auth_status }
    }

    pub fn status(&self) -> (r: EntityAuthStatus)
        ensures
            r == self.auth_status,
    {
        self.auth_status
    }

    pub fn can_mutate(&self) -> (r: bool)
        ensures
            r == spec_can_mutate(*self),
    {
        match (self.host_type, self.auth_status) {
            (HostType::Client, EntityAuthStatus::Requested) => true,
            (HostType::Client, EntityAuthStatus::Granted) => true,
            (HostType::Client, EntityAuthStatus::Releasing) => true,
            (HostType::Server, EntityAuthStatus::Available) => true,
            (HostType::Server, EntityAuthStatus::Requested) => true,
            _ => false,
        }
    }

    pub fn can_read(&self) -> (r: bool)
        ensures
            r == spec_can_read(*self),
    {
        match (self.host_type, self.auth_status) {
            (HostType::Client, EntityAuthStatus::Available) => true,
            (HostType::Client, EntityAuthStatus::Denied) => true,
            (HostType::Server, EntityAuthStatus::Granted) => true,
            (HostType::Server, EntityAuthStatus::Releasing) => true,
            _ => false,
        }
    }

    pub fn can_write(&self) -> (r: bool)
        ensures
            r == spec_can_write(*self),
    {
        match (self.host_type, self.auth_status) {
            (HostType::Client, EntityAuthStatus::Granted) => true,
            (HostType::Client, EntityAuthStatus::Releasing) => true,
            (HostType::Server, EntityAuthStatus::Available) => true,
            (HostType::Server, EntityAuthStatus::Requested) => true,
            _ => false,
        }
    }
}

/// A side never both sends its value and accepts the peer's value, it may
/// change locally whatever it sends, and it never changes locally a value it
/// takes from the peer.
pub proof fn lemma_auth_write_excludes_read(s: HostEntityAuthStatus)
    ensures
        spec_can_write(s) ==> !spec_can_read(s),
        spec_can_write(s) ==> spec_can_mutate(s),
        spec_can_read(s) ==> !spec_can_mutate(s),
{
}

impl EntityKey for HostEntity {
    open spec fn spec_debug_text(&self) -> Seq<char> {
        "HostEntity("@ + spec_decimal(self.0 as nat) + ")"@
    }

    fn debug_text(&self) -> (r: String) {
        let mut r = String::from_str("HostEntity(");
        push_decimal(&mut r, self.0 as u64);
        r.append(")");
        r
    }

    open spec fn spec_key(&self) -> u64 {
        self.0 as u64
    }

    proof fn lemma_key_injective(a: Self, b: Self) {
    }

    fn key(&self) -> (r: u64) {
        self.0 as u64
    }
}

impl EntityKey for RemoteEntity {
    open spec fn spec_debug_text(&self) -> Seq<char> {
        "RemoteEntity("@ + spec_decimal(self.0 as nat) + ")"@
    }

    fn debug_text(&self) -> (r: String) {
        let mut r = String::from_str("RemoteEntity(");
        push_decimal(&mut r, self.0 as u64);
        r.append(")");
        r
    }

    open spec fn spec_key(&self) -> u64 {
        self.0 as u64
    }

    proof fn lemma_key_injective(a: Self, b: Self) {
    }

    fn key(&self) -> (r: u64) {
        self.0 as u64
    }
}

impl EntityKey for GlobalEntity {
    open spec fn spec_debug_text(&self) -> Seq<char> {
        "GlobalEntity("@ + spec_decimal(self.0 as nat) + ")"@
    }

    fn debug_text(&self) -> (r: String) {
        let mut r = String::from_str("GlobalEntity(");
        push_decimal(&mut r, self.0);
        r.append(")");
        r
    }

    open spec fn spec_key(&self) -> u64 {
        self.0
    }

    proof fn lemma_key_injective(a: Self, b: Self) {
    }

    fn key(&self) -> (r: u64) {
        self.0
    }
}

impl EntityKey for u64 {
    open spec fn spec_debug_text(&self) -> Seq<char> {
        spec_decimal(*self as nat)
    }

    fn debug_text(&self) -> (r: String) {
        let mut r = String::new();
        push_decimal(&mut r, *self);
        r
    }

    open spec fn spec_key(&self) -> u64 {
        *self
    }

    proof fn lemma_key_injective(a: Self, b: Self) {
    }

    fn key(&self) -> (r: u64) {
        *self
    }
}

} // verus!
