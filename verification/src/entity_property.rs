//! A component property whose value is a reference to another entity, and
//! the rules for how it may be changed depending on who owns it.
use vstd::prelude::*;

use crate::auth_channel::EntityAuthAccessor;
use crate::errors::EntityPropertyError;
use crate::local_entity_map::LocalEntityMap;
use crate::property_mutator::PropertyMutator;
use crate::types::{
    GlobalEntity, HostEntityAuthStatus, HostType, OwnedLocalEntity, RemoteEntity, spec_can_mutate,
    spec_can_read, spec_can_write,
};

verus! {

/// The property indices reported through an optional handle.
pub open spec fn spec_reported(m: Option<PropertyMutator>) -> Seq<u8> {
    match m {
        Some(m) => m.reported(),
        None => Seq::empty(),
    }
}

/// Reports a change through an optional handle, if there is one.
fn report_change(mutator: &mut Option<PropertyMutator>, index: u8)
    ensures
        (*final(mutator) is Some) == (*old(mutator) is Some),
        *final(mutator) matches Some(m) ==> m.id() == old(mutator)->0.id(),
        spec_reported(*final(mutator)) == (if *old(mutator) is Some {
            spec_reported(*old(mutator)).push(index)
        } else {
            spec_reported(*old(mutator))
        }),
{
    match mutator {
        Some(m) => {
            let _ = m.mutate(index);
        },
        None => {},
    }
}

// HostOwnedRelation

/// A property of a component this side owns.
#[derive(Clone)]
pub struct HostOwnedRelation {
    global_entity: Option<GlobalEntity>,
    mutator: Option<PropertyMutator>,
    index: u8,
}

impl HostOwnedRelation {
    pub closed spec fn global(&self) -> Option<GlobalEntity> {
        self.global_entity
    }

    pub closed spec fn mutator_id(&self) -> Option<u32> {
        match self.mutator {
            Some(m) => Some(m.id()),
            None => None,
        }
    }

    pub closed spec fn reported(&self) -> Seq<u8> {
        spec_reported(self.mutator)
    }

    pub closed spec fn spec_index(&self) -> u8 {
        self.index
    }

    pub fn new() -> (r: HostOwnedRelation)
        ensures
            r.global() is None,
            r.mutator_id() is None,
            r.spec_index() == 0,
            r.reported() == Seq::<u8>::empty(),
    {
        HostOwnedRelation { global_entity: None, mutator: None, index: 0 }
    }

    pub fn with_mutator(mutate_index: u8) -> (r: HostOwnedRelation)
        ensures
            r.global() is None,
            r.mutator_id() is None,
            r.spec_index() == mutate_index,
            r.reported() == Seq::<u8>::empty(),
    {
        HostOwnedRelation { global_entity: None, mutator: None, index: mutate_index }
    }

    /// Reports future changes through a new handle to `mutator`'s component.
    pub fn set_mutator(&mut self, mutator: &PropertyMutator)
        ensures
            final(self).global() == old(self).global(),
            final(self).spec_index() == old(self).spec_index(),
            final(self).mutator_id() == Some(mutator.id()),
            final(self).reported() == Seq::<u8>::empty(),
    {
        self.mutator = Some(mutator.clone_new());
    }

    /// Sets the value to `converted`, the global entity of the world entity
    /// given by the caller, and reports the change; `None` (the world entity
    /// has no global entity) leaves everything as it was.
    pub fn set(&mut self, converted: Option<GlobalEntity>)
        ensures
            converted is Some ==> final(self).global() == converted && final(self).reported() == (if old(
                self,
            ).mutator_id() is Some {
                old(self).reported().push(old(self).spec_index())
            } else {
                old(self).reported()
            }),
            converted is None ==> *final(self) == *old(self),
            final(self).spec_index() == old(self).spec_index(),
            final(self).mutator_id() == old(self).mutator_id(),
    {
        if let Some(new_global_entity) = converted {
            self.global_entity = Some(new_global_entity);
            self.mutate();
        }
    }

    pub fn set_to_none(&mut self)
        ensures
            final(self).global() is None,
            final(self).spec_index() == old(self).spec_index(),
            final(self).mutator_id() == old(self).mutator_id(),
            final(self).reported() == (if old(self).mutator_id() is Some {
                old(self).reported().push(old(self).spec_index())
            } else {
                old(self).reported()
            }),
    {
        self.global_entity = None;
        self.mutate();
    }

    /// Mirrors a property still waiting for its entity: the value becomes `None`.
    pub fn mirror_waiting(&mut self)
        ensures
            final(self).global() is None,
            final(self).spec_index() == old(self).spec_index(),
            final(self).mutator_id() == old(self).mutator_id(),
            final(self).reported() == (if old(self).mutator_id() is Some {
                old(self).reported().push(old(self).spec_index())
            } else {
                old(self).reported()
            }),
    {
        self.global_entity = None;
        self.mutate();
    }

    pub fn set_global_entity(&mut self, other_global_entity: &Option<GlobalEntity>)
        ensures
            final(self).global() == *other_global_entity,
            final(self).spec_index() == old(self).spec_index(),
            final(self).mutator_id() == old(self).mutator_id(),
            final(self).reported() == (if old(self).mutator_id() is Some {
                old(self).reported().push(old(self).spec_index())
            } else {
                old(self).reported()
            }),
    {
        self.global_entity = *other_global_entity;
        self.mutate();
    }

    fn mutate(&mut self)
        ensures
            final(self).global() == old(self).global(),
            final(self).spec_index() == old(self).spec_index(),
            final(self).mutator_id() == old(self).mutator_id(),
            final(self).reported() == (if old(self).mutator_id() is Some {
                old(self).reported().push(old(self).spec_index())
            } else {
                old(self).reported()
            }),
    {
        report_change(&mut self.mutator, self.index);
    }
}

// RemoteOwnedRelation

/// A property of a component the peer owns and has not published.
#[derive(Clone)]
pub struct RemoteOwnedRelation {
    global_entity: Option<GlobalEntity>,
}

impl RemoteOwnedRelation {
    pub closed spec fn global(&self) -> Option<GlobalEntity> {
        self.global_entity
    }

    fn new_empty() -> (r: RemoteOwnedRelation)
        ensures
            r.global() is None,
    {
        RemoteOwnedRelation { global_entity: None }
    }

    fn new_with_value(global_entity: Option<GlobalEntity>) -> (r: RemoteOwnedRelation)
        ensures
            r.global() == global_entity,
    {
        RemoteOwnedRelation { global_entity }
    }
}

// RemoteWaitingRelation

/// A property the peer sent that refers to an entity not yet known here,
/// with what is to become of it once the entity arrives.
#[derive(Clone)]
pub struct RemoteWaitingRelation {
    remote_entity: RemoteEntity,
    will_publish: Option<(u8, PropertyMutator)>,
    will_delegate: Option<EntityAuthAccessor>,
}

impl RemoteWaitingRelation {
    pub closed spec fn remote(&self) -> RemoteEntity {
        self.remote_entity
    }

    /// The index and component it will be published with, if it will be.
    pub closed spec fn will_publish(&self) -> Option<(u8, u32)> {
        match self.will_publish {
            Some((i, m)) => Some((i, m.id())),
            None => None,
        }
    }

    /// The side of the authority record it will be delegated with, if it will be.
    pub closed spec fn will_delegate(&self) -> Option<HostType> {
        match self.will_delegate {
            Some(a) => Some(a.host_type()),
            None => None,
        }
    }

    fn new(remote_entity: RemoteEntity) -> (r: RemoteWaitingRelation)
        ensures
            r.remote() == remote_entity,
            r.will_publish() is None,
            r.will_delegate() is None,
    {
        RemoteWaitingRelation { remote_entity, will_publish: None, will_delegate: None }
    }

    fn new_public(remote_entity: RemoteEntity, index: u8, mutator: &PropertyMutator) -> (r: RemoteWaitingRelation)
        ensures
            r.remote() == remote_entity,
            r.will_publish() == Some((index, mutator.id())),
            r.will_delegate() is None,
    {
        RemoteWaitingRelation { remote_entity, will_publish: Some((index, mutator.clone_new())), will_delegate: None }
    }

    fn new_delegated(
        local_entity: RemoteEntity,
        auth_accessor: &EntityAuthAccessor,
        mutator: &PropertyMutator,
        index: u8,
    ) -> (r: RemoteWaitingRelation)
        ensures
            r.remote() == local_entity,
            r.will_publish() == Some((index, mutator.id())),
            r.will_delegate() == Some(auth_accessor.host_type()),
    {
        RemoteWaitingRelation {
            remote_entity: local_entity,
            will_publish: Some((index, mutator.clone_new())),
            will_delegate: Some(auth_accessor.share()),
        }
    }

    pub(crate) fn remote_publish(&mut self, index: u8, mutator: &PropertyMutator)
        ensures
            final(self).remote() == old(self).remote(),
            final(self).will_publish() == Some((index, mutator.id())),
            final(self).will_delegate() == old(self).will_delegate(),
    {
        self.will_publish = Some((index, mutator.clone_new()));
    }

    pub(crate) fn remote_unpublish(&mut self)
        ensures
            final(self).remote() == old(self).remote(),
            final(self).will_publish() is None,
            final(self).will_delegate() == old(self).will_delegate(),
    {
        self.will_publish = None;
    }

    pub(crate) fn remote_delegate(&mut self, accessor: &EntityAuthAccessor)
        ensures
            final(self).remote() == old(self).remote(),
            final(self).will_publish() == old(self).will_publish(),
            final(self).will_delegate() == Some(accessor.host_type()),
    {
        self.will_delegate = Some(accessor.share());
    }

    pub(crate) fn remote_undelegate(&mut self)
        ensures
            final(self).remote() == old(self).remote(),
            final(self).will_publish() == old(self).will_publish(),
            final(self).will_delegate() is None,
    {
        self.will_delegate = None;
    }
}

// RemotePublicRelation

/// A property of a component the peer owns and has published.
#[derive(Clone)]
pub struct RemotePublicRelation {
    global_entity: Option<GlobalEntity>,
    mutator: PropertyMutator,
    index: u8,
}

impl RemotePublicRelation {
    pub closed spec fn global(&self) -> Option<GlobalEntity> {
        self.global_entity
    }

    pub closed spec fn mutator_id(&self) -> u32 {
        self.mutator.id()
    }

    pub closed spec fn spec_index(&self) -> u8 {
        self.index
    }

    pub fn new(global_entity: Option<GlobalEntity>, index: u8, mutator: &PropertyMutator) -> (r: RemotePublicRelation)
        ensures
            r.global() == global_entity,
            r.spec_index() == index,
            r.mutator_id() == mutator.id(),
    {
        RemotePublicRelation { global_entity, mutator: mutator.clone_new(), index }
    }
}

// DelegatedRelation

/// A property of a delegated component: whoever holds authority may change it.
#[derive(Clone)]
pub struct DelegatedRelation {
    global_entity: Option<GlobalEntity>,
    auth_accessor: EntityAuthAccessor,
    mutator: PropertyMutator,
    index: u8,
}

impl DelegatedRelation {
    pub closed spec fn global(&self) -> Option<GlobalEntity> {
        self.global_entity
    }

    pub closed spec fn mutator_id(&self) -> u32 {
        self.mutator.id()
    }

    pub closed spec fn reported(&self) -> Seq<u8> {
        self.mutator.reported()
    }

    pub closed spec fn spec_index(&self) -> u8 {
        self.index
    }

    /// The side of the authority record.
    pub closed spec fn auth_host(&self) -> HostType {
        self.auth_accessor.host_type()
    }

    /// Everything but the value and what was reported is as in `other`.
    pub open spec fn same_setup(&self, other: DelegatedRelation) -> bool {
        &&& self.mutator_id() == other.mutator_id()
        &&& self.spec_index() == other.spec_index()
        &&& self.auth_host() == other.auth_host()
    }

    pub fn new(
        global_entity: Option<GlobalEntity>,
        auth_accessor: &EntityAuthAccessor,
        mutator: &PropertyMutator,
        index: u8,
    ) -> (r: DelegatedRelation)
        ensures
            r.global() == global_entity,
            r.spec_index() == index,
            r.mutator_id() == mutator.id(),
            r.reported() == Seq::<u8>::empty(),
            r.auth_host() == auth_accessor.host_type(),
    {
        DelegatedRelation {
            global_entity,
            auth_accessor: auth_accessor.share(),
            mutator: mutator.clone_new(),
            index,
        }
    }

    /// Sets the value to `new_global` and reports the change, if this side
    /// may change the value now; otherwise fails and changes nothing.
    fn try_change(&mut self, new_global: Option<GlobalEntity>) -> (r: Result<(), EntityPropertyError>)
        ensures
            final(self).same_setup(*old(self)),
            r is Ok ==> final(self).global() == new_global && final(self).reported() == old(self).reported().push(
                old(self).spec_index(),
            ),
            r is Err ==> *final(self) == *old(self) && r->Err_0 is MutationNotAuthorized,
    {
        if !self.can_mutate() {
            return Err(EntityPropertyError::MutationNotAuthorized);
        }
        self.global_entity = new_global;
        let _ = self.mutator.mutate(self.index);
        Ok(())
    }

    /// Sets the value to `converted`, the global entity of the world entity
    /// given by the caller, if there is one. Fails, changing nothing, where
    /// this side has no authority to change the value.
    pub fn set(&mut self, converted: Option<GlobalEntity>) -> (r: Result<(), EntityPropertyError>)
        ensures
            final(self).same_setup(*old(self)),
            converted is None ==> r is Ok && *final(self) == *old(self),
            converted is Some && r is Ok ==> final(self).global() == converted && final(self).reported()
                == old(self).reported().push(old(self).spec_index()),
            r is Err ==> *final(self) == *old(self) && r->Err_0 is MutationNotAuthorized,
    {
        match converted {
            Some(g) => self.try_change(Some(g)),
            None => Ok(()),
        }
    }

    /// Sets the value to `None`, if this side has authority; otherwise fails
    /// and changes nothing.
    pub fn set_to_none(&mut self) -> (r: Result<(), EntityPropertyError>)
        ensures
            final(self).same_setup(*old(self)),
            r is Ok ==> final(self).global() is None && final(self).reported() == old(self).reported().push(
                old(self).spec_index(),
            ),
            r is Err ==> *final(self) == *old(self) && r->Err_0 is MutationNotAuthorized,
    {
        self.try_change(None)
    }

    /// Sets the value to that of another property, if this side has authority.
    pub fn set_global_entity(&mut self, other_global_entity: &Option<GlobalEntity>) -> (r: Result<
        (),
        EntityPropertyError,
    >)
        ensures
            final(self).same_setup(*old(self)),
            r is Ok ==> final(self).global() == *other_global_entity && final(self).reported()
                == old(self).reported().push(old(self).spec_index()),
            r is Err ==> *final(self) == *old(self) && r->Err_0 is MutationNotAuthorized,
    {
        self.try_change(*other_global_entity)
    }

    /// Mirrors a property still waiting for its entity: the value becomes
    /// `None`, if this side has authority.
    pub fn mirror_waiting(&mut self) -> (r: Result<(), EntityPropertyError>)
        ensures
            final(self).same_setup(*old(self)),
            r is Ok ==> final(self).global() is None && final(self).reported() == old(self).reported().push(
                old(self).spec_index(),
            ),
            r is Err ==> *final(self) == *old(self) && r->Err_0 is MutationNotAuthorized,
    {
        self.try_change(None)
    }

    /// Takes `None` from the peer: where this side accepts the peer's value,
    /// the value becomes `None` and the change is reported, which fails,
    /// changing nothing, where this side may not change the value; where it
    /// does not accept the peer's value, nothing changes.
    pub fn read_none(&mut self) -> (r: Result<(), EntityPropertyError>)
        ensures
            final(self).same_setup(*old(self)),
            r is Ok ==> *final(self) == *old(self) || (final(self).global() is None && final(self).reported()
                == old(self).reported().push(old(self).spec_index())),
            r is Err ==> *final(self) == *old(self) && r->Err_0 is MutationNotAuthorized,
    {
        self.read_value(None)
    }

    /// Takes `global_entity` from the peer, as `read_none` takes `None`.
    pub fn read_some(&mut self, global_entity: GlobalEntity) -> (r: Result<(), EntityPropertyError>)
        ensures
            final(self).same_setup(*old(self)),
            r is Ok ==> *final(self) == *old(self) || (final(self).global() == Some(global_entity)
                && final(self).reported() == old(self).reported().push(old(self).spec_index())),
            r is Err ==> *final(self) == *old(self) && r->Err_0 is MutationNotAuthorized,
    {
        self.read_value(Some(global_entity))
    }

    fn read_value(&mut self, value: Option<GlobalEntity>) -> (r: Result<(), EntityPropertyError>)
        ensures
            final(self).same_setup(*old(self)),
            r is Ok ==> *final(self) == *old(self) || (final(self).global() == value && final(self).reported()
                == old(self).reported().push(old(self).spec_index())),
            r is Err ==> *final(self) == *old(self) && r->Err_0 is MutationNotAuthorized,
    {
        if self.can_read() {
            self.try_change(value)
        } else {
            Ok(())
        }
    }

    /// Reports a change of the current value, if this side has authority.
    fn try_mutate(&mut self) -> (r: Result<(), EntityPropertyError>)
        ensures
            final(self).same_setup(*old(self)),
            final(self).global() == old(self).global(),
            r is Ok ==> final(self).reported() == old(self).reported().push(old(self).spec_index()),
            r is Err ==> *final(self) == *old(self) && r->Err_0 is MutationNotAuthorized,
    {
        let value = self.global_entity;
        self.try_change(value)
    }

    fn can_mutate(&self) -> (r: bool) {
        self.auth_accessor.auth_status().can_mutate()
    }

    fn can_read(&self) -> (r: bool) {
        self.auth_accessor.auth_status().can_read()
    }

    fn can_write(&self) -> (r: bool) {
        self.auth_accessor.auth_status().can_write()
    }
}

// LocalRelation

/// A property of a component that lives on this side only.
#[derive(Clone)]
pub struct LocalRelation {
    global_entity: Option<GlobalEntity>,
}

impl LocalRelation {
    pub closed spec fn global(&self) -> Option<GlobalEntity> {
        self.global_entity
    }

    pub fn new(global_entity: Option<GlobalEntity>) -> (r: LocalRelation)
        ensures
            r.global() == global_entity,
    {
        LocalRelation { global_entity }
    }

    /// Sets the value to `converted`, the global entity of the world entity
    /// given by the caller; `None` leaves it as it was.
    pub fn set(&mut self, converted: Option<GlobalEntity>)
        ensures
            final(self).global() == (if converted is Some {
                converted
            } else {
                old(self).global()
            }),
    {
        if let Some(new_global_entity) = converted {
            self.global_entity = Some(new_global_entity);
        }
    }

    pub fn set_to_none(&mut self)
        ensures
            final(self).global() is None,
    {
        self.global_entity = None;
    }

    pub fn mirror_waiting(&mut self)
        ensures
            final(self).global() is None,
    {
        self.global_entity = None;
    }

    pub fn set_global_entity(&mut self, other_global_entity: &Option<GlobalEntity>)
        ensures
            final(self).global() == *other_global_entity,
    {
        self.global_entity = *other_global_entity;
    }
}


/// Which of the ownership situations a property is in.
#[derive(Clone, Copy, PartialEq, Eq, Debug, Structural)]
pub enum RelationKind {
    HostOwned,
    RemoteOwned,
    RemoteWaiting,
    RemotePublic,
    Delegated,
    Local,
    Invalid,
}

/// The name of a kind, as errors report it.
pub open spec fn spec_relation_name(kind: RelationKind) -> &'static str {
    match kind {
        RelationKind::HostOwned => "HostOwned",
        RelationKind::RemoteOwned => "RemoteOwned",
        RelationKind::RemoteWaiting => "RemoteWaiting",
        RelationKind::RemotePublic => "RemotePublic",
        RelationKind::Delegated => "Delegated",
        RelationKind::Local => "Local",
        RelationKind::Invalid => "Invalid",
    }
}

#[derive(Clone)]
enum EntityRelation {
    HostOwned(HostOwnedRelation),
    RemoteOwned(RemoteOwnedRelation),
    RemoteWaiting(RemoteWaitingRelation),
    RemotePublic(RemotePublicRelation),
    Delegated(DelegatedRelation),
    Local(LocalRelation),
    Invalid,
}

impl EntityRelation {
    spec fn kind(&self) -> RelationKind {
        match *self {
            EntityRelation::HostOwned(_) => RelationKind::HostOwned,
            EntityRelation::RemoteOwned(_) => RelationKind::RemoteOwned,
            EntityRelation::RemoteWaiting(_) => RelationKind::RemoteWaiting,
            EntityRelation::RemotePublic(_) => RelationKind::RemotePublic,
            EntityRelation::Delegated(_) => RelationKind::Delegated,
            EntityRelation::Local(_) => RelationKind::Local,
            EntityRelation::Invalid => RelationKind::Invalid,
        }
    }

    spec fn global(&self) -> Option<GlobalEntity> {
        match *self {
            EntityRelation::HostOwned(r) => r.global(),
            EntityRelation::RemoteOwned(r) => r.global(),
            EntityRelation::RemotePublic(r) => r.global(),
            EntityRelation::Delegated(r) => r.global(),
            EntityRelation::Local(r) => r.global(),
            _ => None,
        }
    }

    spec fn index(&self) -> u8 {
        match *self {
            EntityRelation::HostOwned(r) => r.spec_index(),
            EntityRelation::RemotePublic(r) => r.spec_index(),
            EntityRelation::Delegated(r) => r.spec_index(),
            _ => 0,
        }
    }

    spec fn mutator_id(&self) -> Option<u32> {
        match *self {
            EntityRelation::HostOwned(r) => r.mutator_id(),
            EntityRelation::RemotePublic(r) => Some(r.mutator_id()),
            EntityRelation::Delegated(r) => Some(r.mutator_id()),
            _ => None,
        }
    }

    spec fn reported(&self) -> Seq<u8> {
        match *self {
            EntityRelation::HostOwned(r) => r.reported(),
            EntityRelation::Delegated(r) => r.reported(),
            _ => Seq::empty(),
        }
    }

    spec fn waiting(&self) -> Option<RemoteEntity> {
        match *self {
            EntityRelation::RemoteWaiting(r) => Some(r.remote()),
            _ => None,
        }
    }

    spec fn will_publish(&self) -> Option<(u8, u32)> {
        match *self {
            EntityRelation::RemoteWaiting(r) => r.will_publish(),
            _ => None,
        }
    }

    spec fn will_delegate(&self) -> Option<HostType> {
        match *self {
            EntityRelation::RemoteWaiting(r) => r.will_delegate(),
            _ => None,
        }
    }

    spec fn auth_host(&self) -> Option<HostType> {
        match *self {
            EntityRelation::Delegated(r) => Some(r.auth_host()),
            _ => None,
        }
    }

    fn name(&self) -> (r: &'static str)
        ensures
            r == spec_relation_name(self.kind()),
    {
        match self {
            EntityRelation::HostOwned(_) => "HostOwned",
            EntityRelation::RemoteOwned(_) => "RemoteOwned",
            EntityRelation::RemoteWaiting(_) => "RemoteWaiting",
            EntityRelation::RemotePublic(_) => "RemotePublic",
            EntityRelation::Delegated(_) => "Delegated",
            EntityRelation::Local(_) => "Local",
            EntityRelation::Invalid => "Invalid",
        }
    }

    fn get_global_entity(&self) -> (r: Option<GlobalEntity>)
        ensures
            r == self.global(),
    {
        match self {
            EntityRelation::HostOwned(inner) => inner.global_entity,
            EntityRelation::RemoteOwned(inner) => inner.global_entity,
            EntityRelation::RemotePublic(inner) => inner.global_entity,
            EntityRelation::Local(inner) => inner.global_entity,
            EntityRelation::Delegated(inner) => inner.global_entity,
            EntityRelation::RemoteWaiting(_) | EntityRelation::Invalid => None,
        }
    }

    fn waiting_local_entity(&self) -> (r: Option<RemoteEntity>)
        ensures
            r == self.waiting(),
    {
        match self {
            EntityRelation::RemoteWaiting(inner) => Some(inner.remote_entity),
            _ => None,
        }
    }

    fn try_set_mutator(&mut self, mutator: &PropertyMutator) -> (r: Result<(), EntityPropertyError>)
        ensures
            old(self).kind() == RelationKind::HostOwned ==> r is Ok && final(self).kind() == RelationKind::HostOwned
                && final(self).global() == old(self).global() && final(self).index() == old(self).index()
                && final(self).mutator_id() == Some(mutator.id()) && final(self).reported() == Seq::<u8>::empty(),
            old(self).kind() != RelationKind::HostOwned ==> *final(self) == *old(self) && r is Err
                && r->Err_0 is InvalidMutatorOperation,
    {
        match self {
            EntityRelation::HostOwned(inner) => {
                inner.set_mutator(mutator);
                Ok(())
            },
            _ => Err(EntityPropertyError::InvalidMutatorOperation { property_type: self.name() }),
        }
    }
}

/// The error a manual change of a property of this kind gives, if any.
pub open spec fn spec_manual_set_error(kind: RelationKind) -> Option<EntityPropertyError> {
    match kind {
        RelationKind::RemoteOwned | RelationKind::RemoteWaiting | RelationKind::RemotePublic => Some(
            EntityPropertyError::RemotePropertyManualSet,
        ),
        RelationKind::Invalid => Some(EntityPropertyError::InvalidPropertyManualSet),
        _ => None,
    }
}

/// A component property that refers to another entity.
#[derive(Clone)]
pub struct EntityProperty {
    inner: EntityRelation,
}

impl EntityProperty {
    pub closed spec fn kind(&self) -> RelationKind {
        self.inner.kind()
    }

    /// The entity referred to, for the kinds that know it.
    pub closed spec fn global(&self) -> Option<GlobalEntity> {
        self.inner.global()
    }

    /// The index under which changes are reported.
    pub closed spec fn index(&self) -> u8 {
        self.inner.index()
    }

    /// The component that changes are reported to, if any.
    pub closed spec fn mutator_id(&self) -> Option<u32> {
        self.inner.mutator_id()
    }

    /// The changes reported so far through the current handle.
    pub closed spec fn reported(&self) -> Seq<u8> {
        self.inner.reported()
    }

    /// The peer's number of the entity a waiting property waits for.
    pub closed spec fn waiting(&self) -> Option<RemoteEntity> {
        self.inner.waiting()
    }

    /// For a waiting property, the index and component it will be published with.
    pub closed spec fn will_publish(&self) -> Option<(u8, u32)> {
        self.inner.will_publish()
    }

    /// For a waiting property, the side of the authority record it will be delegated with.
    pub closed spec fn will_delegate(&self) -> Option<HostType> {
        self.inner.will_delegate()
    }

    /// For a delegated property, the side of its authority record.
    pub closed spec fn auth_host(&self) -> Option<HostType> {
        self.inner.auth_host()
    }

    /// A property owned here with no value, reporting nowhere, as messages use.
    pub fn new() -> (r: EntityProperty)
        ensures
            r.kind() == RelationKind::HostOwned,
            r.global() is None,
            r.index() == 0,
            r.mutator_id() is None,
    {
        EntityProperty { inner: EntityRelation::HostOwned(HostOwnedRelation::new()) }
    }

    /// A property owned here with no value, to report under `mutator_index`
    /// once given a mutator, as components use.
    pub fn host_owned(mutator_index: u8) -> (r: EntityProperty)
        ensures
            r.kind() == RelationKind::HostOwned,
            r.global() is None,
            r.index() == mutator_index,
            r.mutator_id() is None,
    {
        EntityProperty { inner: EntityRelation::HostOwned(HostOwnedRelation::with_mutator(mutator_index)) }
    }

    /// The peer's number of the entity this property waits for, if it waits.
    pub fn waiting_local_entity(&self) -> (r: Option<RemoteEntity>)
        ensures
            r == self.waiting(),
    {
        self.inner.waiting_local_entity()
    }

    /// The global entity referred to, if the property knows it. The caller
    /// turns it into a world entity.
    pub fn get(&self) -> (r: Option<GlobalEntity>)
        ensures
            r == self.global(),
            self.kind() == RelationKind::RemoteWaiting || self.kind() == RelationKind::Invalid ==> r is None,
    {
        self.inner.get_global_entity()
    }

    /// Makes a property owned here report its changes through a new handle to
    /// `mutator`'s component.
    pub fn set_mutator(&mut self, mutator: &PropertyMutator)
        requires
            old(self).kind() == RelationKind::HostOwned,
        ensures
            final(self).kind() == RelationKind::HostOwned,
            final(self).global() == old(self).global(),
            final(self).index() == old(self).index(),
            final(self).mutator_id() == Some(mutator.id()),
    {
        let _ = self.inner.try_set_mutator(mutator);
    }
}


/// Everything but the value and the reported changes is as in `b`.
pub open spec fn spec_same_shape(a: EntityProperty, b: EntityProperty) -> bool {
    &&& a.kind() == b.kind()
    &&& a.index() == b.index()
    &&& a.mutator_id() == b.mutator_id()
    &&& a.waiting() == b.waiting()
    &&& a.will_publish() == b.will_publish()
    &&& a.will_delegate() == b.will_delegate()
    &&& a.auth_host() == b.auth_host()
}

/// The changes reported once a change of `p`'s value has been reported:
/// one more, under its index, where it reports somewhere.
pub open spec fn spec_reported_after_change(p: EntityProperty) -> Seq<u8> {
    if (p.kind() == RelationKind::HostOwned || p.kind() == RelationKind::Delegated) && p.mutator_id() is Some {
        p.reported().push(p.index())
    } else {
        p.reported()
    }
}

/// The outcome of setting `before`'s value to `value` by hand.
pub open spec fn spec_set_outcome(
    before: EntityProperty,
    after: EntityProperty,
    value: Option<GlobalEntity>,
    r: Result<(), EntityPropertyError>,
) -> bool {
    match spec_manual_set_error(before.kind()) {
        Some(e) => r == Err::<(), EntityPropertyError>(e) && after == before,
        None => {
            &&& spec_same_shape(after, before)
            &&& (r is Ok ==> after.global() == value && after.reported() == spec_reported_after_change(before))
            &&& (r is Err ==> before.kind() == RelationKind::Delegated && after == before
                && r->Err_0 is MutationNotAuthorized)
            &&& (before.kind() != RelationKind::Delegated ==> r is Ok)
        },
    }
}

impl EntityProperty {
    /// Sets the value to `converted`, the global entity the caller found for a
    /// world entity, and reports the change. A property the peer owns, or an
    /// invalid one, cannot be set by hand; a delegated one only with authority.
    /// `None` (no global entity found) leaves the property as it was.
    pub fn try_set(&mut self, converted: Option<GlobalEntity>) -> (r: Result<(), EntityPropertyError>)
        ensures
            converted is Some ==> spec_set_outcome(*old(self), *final(self), converted, r),
            converted is None ==> *final(self) == *old(self) && (r is Err <==> spec_manual_set_error(
                old(self).kind(),
            ) is Some) && (r is Err ==> r == Err::<(), EntityPropertyError>(
                spec_manual_set_error(old(self).kind())->0,
            )),
    {
        match &mut self.inner {
            EntityRelation::HostOwned(inner) => {
                inner.set(converted);
                Ok(())
            },
            EntityRelation::Local(inner) => {
                inner.set(converted);
                Ok(())
            },
            EntityRelation::Delegated(inner) => inner.set(converted),
            EntityRelation::RemoteOwned(_) | EntityRelation::RemoteWaiting(_) | EntityRelation::RemotePublic(_) => {
                Err(EntityPropertyError::RemotePropertyManualSet)
            },
            EntityRelation::Invalid => Err(EntityPropertyError::InvalidPropertyManualSet),
        }
    }

    /// As `try_set`, for a property that may be set by hand. Where a delegated
    /// property turns out to lack authority, it is left as it was.
    pub fn set(&mut self, converted: Option<GlobalEntity>)
        requires
            spec_manual_set_error(old(self).kind()) is None,
        ensures
            converted is Some ==> spec_set_outcome(*old(self), *final(self), converted, Ok(()))
                || *final(self) == *old(self),
            converted is None ==> *final(self) == *old(self),
            old(self).kind() != RelationKind::Delegated && converted is Some ==> spec_set_outcome(
                *old(self),
                *final(self),
                converted,
                Ok(()),
            ),
    {
        let _ = self.try_set(converted);
    }

    /// Sets the value to `None` by hand, with the same rules as `try_set`.
    pub fn try_set_to_none(&mut self) -> (r: Result<(), EntityPropertyError>)
        ensures
            spec_set_outcome(*old(self), *final(self), None, r),
    {
        match &mut self.inner {
            EntityRelation::HostOwned(inner) => {
                inner.set_to_none();
                Ok(())
            },
            EntityRelation::Local(inner) => {
                inner.set_to_none();
                Ok(())
            },
            EntityRelation::Delegated(inner) => inner.set_to_none(),
            EntityRelation::RemoteOwned(_) | EntityRelation::RemoteWaiting(_) | EntityRelation::RemotePublic(_) => {
                Err(EntityPropertyError::RemotePropertyManualSet)
            },
            EntityRelation::Invalid => Err(EntityPropertyError::InvalidPropertyManualSet),
        }
    }

    /// As `try_set_to_none`, for a property that may be set by hand.
    pub fn set_to_none(&mut self)
        requires
            spec_manual_set_error(old(self).kind()) is None,
        ensures
            spec_set_outcome(*old(self), *final(self), None, Ok(())) || *final(self) == *old(self),
            old(self).kind() != RelationKind::Delegated ==> spec_set_outcome(
                *old(self),
                *final(self),
                None,
                Ok(()),
            ),
    {
        let _ = self.try_set_to_none();
    }

    /// Copies the value of `other` into this property by hand, with the same
    /// rules as `try_set`. A property still waiting copies as `None`; an
    /// invalid one cannot be copied.
    pub fn try_mirror(&mut self, other: &EntityProperty) -> (r: Result<(), EntityPropertyError>)
        ensures
            spec_manual_set_error(old(self).kind()) is None && other.kind() == RelationKind::Invalid ==> r
                == Err::<(), EntityPropertyError>(EntityPropertyError::InvalidPropertyMirror) && *final(self)
                == *old(self),
            !(spec_manual_set_error(old(self).kind()) is None && other.kind() == RelationKind::Invalid)
                ==> spec_set_outcome(*old(self), *final(self), other.global(), r),
    {
        self.inner.try_mirror(other)
    }

    /// As `try_mirror`, for a property that may be set by hand and a valid `other`.
    pub fn mirror(&mut self, other: &EntityProperty)
        requires
            spec_manual_set_error(old(self).kind()) is None,
            other.kind() != RelationKind::Invalid,
        ensures
            spec_set_outcome(*old(self), *final(self), other.global(), Ok(())) || *final(self) == *old(self),
            old(self).kind() != RelationKind::Delegated ==> spec_set_outcome(
                *old(self),
                *final(self),
                other.global(),
                Ok(()),
            ),
    {
        let _ = self.try_mirror(other);
    }
}

impl EntityRelation {
    /// Copies another property's value into a property of one of the kinds
    /// that may be set by hand.
    fn try_mirror(&mut self, other: &EntityProperty) -> (r: Result<(), EntityPropertyError>)
        ensures
            spec_manual_set_error(old(self).kind()) is None && other.kind() == RelationKind::Invalid ==> r
                == Err::<(), EntityPropertyError>(EntityPropertyError::InvalidPropertyMirror) && *final(self)
                == *old(self),
            !(spec_manual_set_error(old(self).kind()) is None && other.kind() == RelationKind::Invalid)
                ==> spec_set_outcome(
                EntityProperty { inner: *old(self) },
                EntityProperty { inner: *final(self) },
                other.global(),
                r,
            ),
    {
        match self {
            EntityRelation::HostOwned(inner) => match &other.inner {
                EntityRelation::HostOwned(other_inner) => {
                    inner.set_global_entity(&other_inner.global_entity);
                    Ok(())
                },
                EntityRelation::RemoteOwned(other_inner) => {
                    inner.set_global_entity(&other_inner.global_entity);
                    Ok(())
                },
                EntityRelation::RemotePublic(other_inner) => {
                    inner.set_global_entity(&other_inner.global_entity);
                    Ok(())
                },
                EntityRelation::Local(other_inner) => {
                    inner.set_global_entity(&other_inner.global_entity);
                    Ok(())
                },
                EntityRelation::Delegated(other_inner) => {
                    inner.set_global_entity(&other_inner.global_entity);
                    Ok(())
                },
                EntityRelation::RemoteWaiting(_) => {
                    inner.mirror_waiting();
                    Ok(())
                },
                EntityRelation::Invalid => Err(EntityPropertyError::InvalidPropertyMirror),
            },
            EntityRelation::Local(inner) => match &other.inner {
                EntityRelation::HostOwned(other_inner) => {
                    inner.set_global_entity(&other_inner.global_entity);
                    Ok(())
                },
                EntityRelation::RemoteOwned(other_inner) => {
                    inner.set_global_entity(&other_inner.global_entity);
                    Ok(())
                },
                EntityRelation::RemotePublic(other_inner) => {
                    inner.set_global_entity(&other_inner.global_entity);
                    Ok(())
                },
                EntityRelation::Local(other_inner) => {
                    inner.set_global_entity(&other_inner.global_entity);
                    Ok(())
                },
                EntityRelation::Delegated(other_inner) => {
                    inner.set_global_entity(&other_inner.global_entity);
                    Ok(())
                },
                EntityRelation::RemoteWaiting(_) => {
                    inner.mirror_waiting();
                    Ok(())
                },
                EntityRelation::Invalid => Err(EntityPropertyError::InvalidPropertyMirror),
            },
            EntityRelation::Delegated(inner) => match &other.inner {
                EntityRelation::HostOwned(other_inner) => inner.set_global_entity(&other_inner.global_entity),
                EntityRelation::RemoteOwned(other_inner) => inner.set_global_entity(&other_inner.global_entity),
                EntityRelation::RemotePublic(other_inner) => inner.set_global_entity(&other_inner.global_entity),
                EntityRelation::Local(other_inner) => inner.set_global_entity(&other_inner.global_entity),
                EntityRelation::Delegated(other_inner) => inner.set_global_entity(&other_inner.global_entity),
                EntityRelation::RemoteWaiting(_) => inner.mirror_waiting(),
                EntityRelation::Invalid => Err(EntityPropertyError::InvalidPropertyMirror),
            },
            EntityRelation::RemoteOwned(_) | EntityRelation::RemoteWaiting(_) | EntityRelation::RemotePublic(_) => {
                Err(EntityPropertyError::RemotePropertyManualSet)
            },
            EntityRelation::Invalid => Err(EntityPropertyError::InvalidPropertyManualSet),
        }
    }
}


/// `p` is the given kind with no waiting plans and no authority record.
pub open spec fn spec_plain(p: EntityProperty) -> bool {
    &&& p.waiting() is None
    &&& p.will_publish() is None
    &&& p.will_delegate() is None
    &&& p.auth_host() is None
}

/// `after` is a property owned by the peer and not published, with value `value`.
pub open spec fn spec_is_remote_owned(after: EntityProperty, value: Option<GlobalEntity>) -> bool {
    &&& after.kind() == RelationKind::RemoteOwned
    &&& after.global() == value
    &&& after.mutator_id() is None
    &&& spec_plain(after)
}

/// `after` is a published property of the peer, with value `value`, reporting
/// under `index` to component `mutator`.
pub open spec fn spec_is_remote_public(
    after: EntityProperty,
    value: Option<GlobalEntity>,
    index: u8,
    mutator: u32,
) -> bool {
    &&& after.kind() == RelationKind::RemotePublic
    &&& after.global() == value
    &&& after.index() == index
    &&& after.mutator_id() == Some(mutator)
    &&& spec_plain(after)
}

/// `after` is a delegated property with value `value`, reporting under
/// `index` to component `mutator`, with an authority record for side `host`.
pub open spec fn spec_is_delegated(
    after: EntityProperty,
    value: Option<GlobalEntity>,
    index: u8,
    mutator: u32,
    host: HostType,
) -> bool {
    &&& after.kind() == RelationKind::Delegated
    &&& after.global() == value
    &&& after.index() == index
    &&& after.mutator_id() == Some(mutator)
    &&& after.reported() == Seq::<u8>::empty()
    &&& after.waiting() is None
    &&& after.will_publish() is None
    &&& after.will_delegate() is None
    &&& after.auth_host() == Some(host)
}

/// `after` is a property owned here, with value `value`, reporting under
/// `index` to component `mutator` if there is one.
pub open spec fn spec_is_host_owned(
    after: EntityProperty,
    value: Option<GlobalEntity>,
    index: u8,
    mutator: Option<u32>,
) -> bool {
    &&& after.kind() == RelationKind::HostOwned
    &&& after.global() == value
    &&& after.index() == index
    &&& after.mutator_id() == mutator
    &&& after.reported() == Seq::<u8>::empty()
    &&& spec_plain(after)
}

/// `after` is a property on this side only, with value `value`.
pub open spec fn spec_is_local(after: EntityProperty, value: Option<GlobalEntity>) -> bool {
    &&& after.kind() == RelationKind::Local
    &&& after.global() == value
    &&& after.mutator_id() is None
    &&& spec_plain(after)
}

/// `after` still waits for the same entity as `before`, with the given plans.
pub open spec fn spec_is_waiting(
    after: EntityProperty,
    before: EntityProperty,
    will_publish: Option<(u8, u32)>,
    will_delegate: Option<HostType>,
) -> bool {
    &&& after.kind() == RelationKind::RemoteWaiting
    &&& after.waiting() == before.waiting()
    &&& after.will_publish() == will_publish
    &&& after.will_delegate() == will_delegate
    &&& after.global() is None
    &&& after.mutator_id() is None
    &&& after.auth_host() is None
}

/// The outcome of publishing `before` under `index` to component `mutator`.
pub open spec fn spec_publish_outcome(
    before: EntityProperty,
    after: EntityProperty,
    index: u8,
    mutator: u32,
    r: Result<(), EntityPropertyError>,
) -> bool {
    if before.kind() == RelationKind::RemoteOwned {
        r is Ok && spec_is_remote_public(after, before.global(), index, mutator)
    } else if before.kind() == RelationKind::RemoteWaiting {
        r is Ok && spec_is_waiting(after, before, Some((index, mutator)), before.will_delegate())
    } else {
        r == Err::<(), EntityPropertyError>(
            EntityPropertyError::InvalidStateTransition {
                property_type: spec_relation_name(before.kind()),
                operation: "be made public twice",
            },
        ) && after == before
    }
}

/// The outcome of unpublishing `before`.
pub open spec fn spec_unpublish_outcome(
    before: EntityProperty,
    after: EntityProperty,
    r: Result<(), EntityPropertyError>,
) -> bool {
    if before.kind() == RelationKind::RemotePublic {
        r is Ok && spec_is_remote_owned(after, before.global())
    } else if before.kind() == RelationKind::RemoteWaiting {
        r is Ok && spec_is_waiting(after, before, None, before.will_delegate())
    } else {
        r == Err::<(), EntityPropertyError>(
            EntityPropertyError::InvalidStateTransition {
                property_type: spec_relation_name(before.kind()),
                operation: "be unpublished",
            },
        ) && after == before
    }
}

/// What completing a waiting property gives, once its entity is known as `global`.
pub open spec fn spec_waiting_completed(before: EntityProperty, after: EntityProperty, global: GlobalEntity) -> bool {
    match before.will_publish() {
        Some((index, mutator)) => match before.will_delegate() {
            Some(host) => spec_is_delegated(after, Some(global), index, mutator, host),
            None => spec_is_remote_public(after, Some(global), index, mutator),
        },
        None => spec_is_remote_owned(after, Some(global)),
    }
}

impl EntityProperty {
    /// Completes a property that waited for an entity, now that the
    /// connection knows it: it becomes what its plans say. Properties that
    /// never waited are left as they are.
    pub fn try_waiting_complete(&mut self, converter: &LocalEntityMap) -> (r: Result<(), EntityPropertyError>)
        ensures
            old(self).kind() == RelationKind::RemoteOwned || old(self).kind() == RelationKind::RemotePublic
                || old(self).kind() == RelationKind::Delegated ==> r is Ok && *final(self) == *old(self),
            old(self).kind() == RelationKind::HostOwned || old(self).kind() == RelationKind::Local
                || old(self).kind() == RelationKind::Invalid ==> r is Err && r->Err_0 is InvalidWaitingComplete
                && *final(self) == *old(self),
            old(self).kind() == RelationKind::RemoteWaiting ==> {
                let remote = old(self).waiting()->0;
                if converter.remotes().contains_key(remote.0) {
                    r is Ok && spec_waiting_completed(*old(self), *final(self), converter.remotes()[remote.0])
                } else {
                    r is Err && r->Err_0 is WaitingConversionFailed && *final(self) == *old(self)
                }
            },
    {
        let new_inner = match &self.inner {
            EntityRelation::RemoteOwned(_) | EntityRelation::RemotePublic(_) | EntityRelation::Delegated(_) => {
                return Ok(());
            },
            EntityRelation::RemoteWaiting(inner) => {
                let new_global_entity = match converter.remote_entity_to_global_entity(&inner.remote_entity) {
                    Ok(global_entity) => Some(global_entity),
                    Err(_) => {
                        return Err(EntityPropertyError::WaitingConversionFailed);
                    },
                };
                match &inner.will_publish {
                    Some((index, mutator)) => match &inner.will_delegate {
                        Some(accessor) => EntityRelation::Delegated(
                            DelegatedRelation::new(new_global_entity, accessor, mutator, *index),
                        ),
                        None => EntityRelation::RemotePublic(
                            RemotePublicRelation::new(new_global_entity, *index, mutator),
                        ),
                    },
                    None => EntityRelation::RemoteOwned(RemoteOwnedRelation::new_with_value(new_global_entity)),
                }
            },
            EntityRelation::HostOwned(_) | EntityRelation::Local(_) | EntityRelation::Invalid => {
                return Err(EntityPropertyError::InvalidWaitingComplete { property_type: self.inner.name() });
            },
        };
        self.inner = new_inner;
        Ok(())
    }

    /// As `try_waiting_complete`, for a property that can be completed.
    pub fn waiting_complete(&mut self, converter: &LocalEntityMap)
        requires
            old(self).kind() == RelationKind::RemoteOwned || old(self).kind() == RelationKind::RemotePublic
                || old(self).kind() == RelationKind::Delegated || (old(self).kind() == RelationKind::RemoteWaiting
                && converter.remotes().contains_key((old(self).waiting()->0).0)),
        ensures
            old(self).kind() != RelationKind::RemoteWaiting ==> *final(self) == *old(self),
            old(self).kind() == RelationKind::RemoteWaiting ==> spec_waiting_completed(
                *old(self),
                *final(self),
                converter.remotes()[(old(self).waiting()->0).0],
            ),
    {
        let _ = self.try_waiting_complete(converter);
    }

    /// Makes a property of the peer's component public, reporting under
    /// `mutator_index` to `mutator`'s component; a waiting property records
    /// that it will be public.
    pub fn try_remote_publish(&mut self, mutator_index: u8, mutator: &PropertyMutator) -> (r: Result<
        (),
        EntityPropertyError,
    >)
        ensures
            spec_publish_outcome(*old(self), *final(self), mutator_index, mutator.id(), r),
    {
        match &mut self.inner {
            EntityRelation::RemoteOwned(inner) => {
                let inner_value = inner.global_entity;
                self.inner = EntityRelation::RemotePublic(RemotePublicRelation::new(inner_value, mutator_index, mutator));
                Ok(())
            },
            EntityRelation::RemoteWaiting(inner) => {
                inner.remote_publish(mutator_index, mutator);
                Ok(())
            },
            _ => Err(
                EntityPropertyError::InvalidStateTransition {
                    property_type: self.inner.name(),
                    operation: "be made public twice",
                },
            ),
        }
    }

    /// As `try_remote_publish`, for a property of the peer that is not public yet.
    pub fn remote_publish(&mut self, mutator_index: u8, mutator: &PropertyMutator)
        requires
            old(self).kind() == RelationKind::RemoteOwned || old(self).kind() == RelationKind::RemoteWaiting,
        ensures
            old(self).kind() == RelationKind::RemoteOwned ==> spec_is_remote_public(
                *final(self),
                old(self).global(),
                mutator_index,
                mutator.id(),
            ),
            old(self).kind() == RelationKind::RemoteWaiting ==> spec_is_waiting(
                *final(self),
                *old(self),
                Some((mutator_index, mutator.id())),
                old(self).will_delegate(),
            ),
    {
        let _ = self.try_remote_publish(mutator_index, mutator);
    }

    /// Makes a public property of the peer private again; a waiting property
    /// records that it will not be public.
    pub fn try_remote_unpublish(&mut self) -> (r: Result<(), EntityPropertyError>)
        ensures
            spec_unpublish_outcome(*old(self), *final(self), r),
    {
        match &mut self.inner {
            EntityRelation::RemotePublic(inner) => {
                let inner_value = inner.global_entity;
                self.inner = EntityRelation::RemoteOwned(RemoteOwnedRelation { global_entity: inner_value });
                Ok(())
            },
            EntityRelation::RemoteWaiting(inner) => {
                inner.remote_unpublish();
                Ok(())
            },
            _ => Err(
                EntityPropertyError::InvalidStateTransition {
                    property_type: self.inner.name(),
                    operation: "be unpublished",
                },
            ),
        }
    }

    /// As `try_remote_unpublish`, for a public or waiting property of the peer.
    pub fn remote_unpublish(&mut self)
        requires
            old(self).kind() == RelationKind::RemotePublic || old(self).kind() == RelationKind::RemoteWaiting,
        ensures
            old(self).kind() == RelationKind::RemotePublic ==> spec_is_remote_owned(*final(self), old(self).global()),
            old(self).kind() == RelationKind::RemoteWaiting ==> spec_is_waiting(
                *final(self),
                *old(self),
                None,
                old(self).will_delegate(),
            ),
    {
        let _ = self.try_remote_unpublish();
    }
}


/// The index and component of an optional mutator argument.
pub open spec fn spec_mutator_arg(mutator_opt: Option<(u8, &PropertyMutator)>) -> Option<(u8, u32)> {
    match mutator_opt {
        Some((index, m)) => Some((index, m.id())),
        None => None,
    }
}

/// The outcome of enabling delegation on `before`, with an authority record
/// for side `host` and the given mutator argument.
pub open spec fn spec_enable_delegation_outcome(
    before: EntityProperty,
    after: EntityProperty,
    host: HostType,
    mutator_arg: Option<(u8, u32)>,
    r: Result<(), EntityPropertyError>,
) -> bool {
    match mutator_arg {
        Some((index, mutator)) => if before.kind() == RelationKind::RemoteOwned {
            r is Ok && spec_is_delegated(after, before.global(), index, mutator, host)
        } else if before.kind() == RelationKind::RemoteWaiting {
            r is Ok && spec_is_waiting(after, before, before.will_publish(), Some(host))
        } else {
            r == Err::<(), EntityPropertyError>(
                EntityPropertyError::InvalidDelegationEnable { property_type: spec_relation_name(before.kind()) },
            ) && after == before
        },
        None => if before.kind() == RelationKind::HostOwned && before.mutator_id() is Some {
            r is Ok && spec_is_delegated(after, before.global(), before.index(), before.mutator_id()->0, host)
        } else if before.kind() == RelationKind::HostOwned {
            r is Err && r->Err_0 is MutatorNotInitialized && after == before
        } else if before.kind() == RelationKind::RemotePublic {
            r is Ok && spec_is_delegated(after, before.global(), before.index(), before.mutator_id()->0, host)
        } else {
            r == Err::<(), EntityPropertyError>(
                EntityPropertyError::InvalidDelegationEnable { property_type: spec_relation_name(before.kind()) },
            ) && after == before
        },
    }
}

/// The outcome of disabling delegation on `before`.
pub open spec fn spec_disable_delegation_outcome(
    before: EntityProperty,
    after: EntityProperty,
    r: Result<(), EntityPropertyError>,
) -> bool {
    if before.kind() == RelationKind::Delegated {
        r is Ok && spec_is_host_owned(after, before.global(), before.index(), before.mutator_id())
    } else if before.kind() == RelationKind::RemoteWaiting {
        r is Ok && spec_is_waiting(after, before, before.will_publish(), None)
    } else {
        r == Err::<(), EntityPropertyError>(
            EntityPropertyError::InvalidDelegationDisable { property_type: spec_relation_name(before.kind()) },
        ) && after == before
    }
}

/// The kinds on which delegation can be enabled with this mutator argument.
pub open spec fn spec_can_enable_delegation(before: EntityProperty, mutator_arg: Option<(u8, u32)>) -> bool {
    match mutator_arg {
        Some(_) => before.kind() == RelationKind::RemoteOwned || before.kind() == RelationKind::RemoteWaiting,
        None => (before.kind() == RelationKind::HostOwned && before.mutator_id() is Some) || before.kind()
            == RelationKind::RemotePublic,
    }
}

impl EntityProperty {
    /// Makes the property delegated, with authority read through `accessor`:
    /// a property owned here (which must have a mutator) or a public one of
    /// the peer keeps its index and component; a private one of the peer
    /// takes them from `mutator_opt`; a waiting one records that it will be
    /// delegated.
    pub fn try_enable_delegation(
        &mut self,
        accessor: &EntityAuthAccessor,
        mutator_opt: Option<(u8, &PropertyMutator)>,
    ) -> (r: Result<(), EntityPropertyError>)
        ensures
            spec_enable_delegation_outcome(
                *old(self),
                *final(self),
                accessor.host_type(),
                spec_mutator_arg(mutator_opt),
                r,
            ),
    {
        let inner_value = self.inner.get_global_entity();
        let new_inner = match mutator_opt {
            Some((mutator_index, mutator)) => match &mut self.inner {
                EntityRelation::RemoteOwned(_) => EntityRelation::Delegated(
                    DelegatedRelation::new(inner_value, accessor, mutator, mutator_index),
                ),
                EntityRelation::RemoteWaiting(inner) => {
                    inner.remote_delegate(accessor);
                    return Ok(());
                },
                _ => {
                    return Err(EntityPropertyError::InvalidDelegationEnable { property_type: self.inner.name() });
                },
            },
            None => match &self.inner {
                EntityRelation::HostOwned(inner) => match &inner.mutator {
                    Some(mutator) => EntityRelation::Delegated(
                        DelegatedRelation::new(inner_value, accessor, mutator, inner.index),
                    ),
                    None => {
                        return Err(EntityPropertyError::MutatorNotInitialized);
                    },
                },
                EntityRelation::RemotePublic(inner) => EntityRelation::Delegated(
                    DelegatedRelation::new(inner_value, accessor, &inner.mutator, inner.index),
                ),
                _ => {
                    return Err(EntityPropertyError::InvalidDelegationEnable { property_type: self.inner.name() });
                },
            },
        };
        self.inner = new_inner;
        Ok(())
    }

    /// As `try_enable_delegation`, on a property where it succeeds.
    pub fn enable_delegation(&mut self, accessor: &EntityAuthAccessor, mutator_opt: Option<(u8, &PropertyMutator)>)
        requires
            spec_can_enable_delegation(*old(self), spec_mutator_arg(mutator_opt)),
        ensures
            spec_enable_delegation_outcome(
                *old(self),
                *final(self),
                accessor.host_type(),
                spec_mutator_arg(mutator_opt),
                Ok(()),
            ),
    {
        let _ = self.try_enable_delegation(accessor, mutator_opt);
    }

    /// Makes a delegated property owned here again, with its value, index and
    /// component; a waiting property records that it will not be delegated.
    pub fn try_disable_delegation(&mut self) -> (r: Result<(), EntityPropertyError>)
        ensures
            spec_disable_delegation_outcome(*old(self), *final(self), r),
    {
        match &mut self.inner {
            EntityRelation::Delegated(inner) => {
                let inner_value = inner.global_entity;
                let mut new_inner = HostOwnedRelation::with_mutator(inner.index);
                new_inner.set_mutator(&inner.mutator);
                new_inner.global_entity = inner_value;
                self.inner = EntityRelation::HostOwned(new_inner);
                Ok(())
            },
            EntityRelation::RemoteWaiting(inner) => {
                inner.remote_undelegate();
                Ok(())
            },
            _ => Err(EntityPropertyError::InvalidDelegationDisable { property_type: self.inner.name() }),
        }
    }

    /// As `try_disable_delegation`, on a delegated or waiting property.
    pub fn disable_delegation(&mut self)
        requires
            old(self).kind() == RelationKind::Delegated || old(self).kind() == RelationKind::RemoteWaiting,
        ensures
            spec_disable_delegation_outcome(*old(self), *final(self), Ok(())),
    {
        let _ = self.try_disable_delegation();
    }

    /// Makes a property owned here, delegated or not, a property of this side
    /// only, keeping its value.
    pub fn try_localize(&mut self) -> (r: Result<(), EntityPropertyError>)
        ensures
            old(self).kind() == RelationKind::HostOwned || old(self).kind() == RelationKind::Delegated ==> r is Ok
                && spec_is_local(*final(self), old(self).global()),
            old(self).kind() != RelationKind::HostOwned && old(self).kind() != RelationKind::Delegated ==> r is Err
                && r == Err::<(), EntityPropertyError>(
                EntityPropertyError::InvalidLocalization { property_type: spec_relation_name(old(self).kind()) },
            ) && *final(self) == *old(self),
    {
        match &self.inner {
            EntityRelation::HostOwned(inner) => {
                let inner_value = inner.global_entity;
                self.inner = EntityRelation::Local(LocalRelation::new(inner_value));
                Ok(())
            },
            EntityRelation::Delegated(inner) => {
                let inner_value = inner.global_entity;
                self.inner = EntityRelation::Local(LocalRelation::new(inner_value));
                Ok(())
            },
            _ => Err(EntityPropertyError::InvalidLocalization { property_type: self.inner.name() }),
        }
    }

    /// As `try_localize`, on a property owned here.
    pub fn localize(&mut self)
        requires
            old(self).kind() == RelationKind::HostOwned || old(self).kind() == RelationKind::Delegated,
        ensures
            spec_is_local(*final(self), old(self).global()),
    {
        let _ = self.try_localize();
    }
}

/// Enabling delegation on a property owned here that has a mutator, and then
/// disabling it, gives back a property owned here with the same value,
/// index and component.
pub proof fn lemma_delegation_round_trip(
    p0: EntityProperty,
    p1: EntityProperty,
    p2: EntityProperty,
    host: HostType,
    r1: Result<(), EntityPropertyError>,
    r2: Result<(), EntityPropertyError>,
)
    requires
        p0.kind() == RelationKind::HostOwned,
        p0.mutator_id() is Some,
        spec_enable_delegation_outcome(p0, p1, host, None, r1),
        spec_disable_delegation_outcome(p1, p2, r2),
    ensures
        r1 is Ok,
        r2 is Ok,
        spec_is_host_owned(p2, p0.global(), p0.index(), p0.mutator_id()),
{
}

/// Publishing a private property of the peer and then unpublishing it gives
/// back a private property of the peer with the same value.
pub proof fn lemma_publish_round_trip(
    p0: EntityProperty,
    p1: EntityProperty,
    p2: EntityProperty,
    index: u8,
    mutator: u32,
    r1: Result<(), EntityPropertyError>,
    r2: Result<(), EntityPropertyError>,
)
    requires
        p0.kind() == RelationKind::RemoteOwned,
        spec_publish_outcome(p0, p1, index, mutator, r1),
        spec_unpublish_outcome(p1, p2, r2),
    ensures
        r1 is Ok,
        r2 is Ok,
        spec_is_remote_owned(p2, p0.global()),
{
}


/// `after` waits for the peer's entity `remote`, with the given plans.
pub open spec fn spec_is_waiting_for(
    after: EntityProperty,
    remote: RemoteEntity,
    will_publish: Option<(u8, u32)>,
    will_delegate: Option<HostType>,
) -> bool {
    &&& after.kind() == RelationKind::RemoteWaiting
    &&& after.waiting() == Some(remote)
    &&& after.will_publish() == will_publish
    &&& after.will_delegate() == will_delegate
    &&& after.global() is None
    &&& after.mutator_id() is None
    &&& after.auth_host() is None
}

/// The outcome of taking the peer's value `value` (a local number, or none)
/// into `before`, where `converted` is the global entity the number stands
/// for on this connection, if any.
pub open spec fn spec_read_outcome(
    before: EntityProperty,
    after: EntityProperty,
    value: Option<OwnedLocalEntity>,
    converted: Option<GlobalEntity>,
    r: Result<(), EntityPropertyError>,
) -> bool {
    let remote = RemoteEntity(crate::types::spec_local_value(value->0));
    if before.kind() == RelationKind::RemotePublic {
        let plan = Some((before.index(), before.mutator_id()->0));
        &&& r is Ok
        &&& (value is None ==> spec_is_remote_public(after, None, before.index(), before.mutator_id()->0))
        &&& (value is Some && converted is None ==> spec_is_waiting_for(after, remote, plan, None))
        &&& (value is Some && converted is Some ==> spec_is_remote_public(
            after,
            converted,
            before.index(),
            before.mutator_id()->0,
        ))
    } else if before.kind() == RelationKind::Delegated {
        let plan = Some((before.index(), before.mutator_id()->0));
        if value is Some && converted is None {
            r is Ok && spec_is_waiting_for(after, remote, plan, before.auth_host())
        } else {
            let taken = if value is Some {
                converted
            } else {
                None
            };
            &&& r is Ok ==> spec_same_shape(after, before) && (after == before || (after.global() == taken
                && after.reported() == before.reported().push(before.index())))
            &&& r is Err ==> after == before && r->Err_0 is MutationNotAuthorized
        }
    } else {
        &&& r is Ok
        &&& (value is None ==> spec_is_remote_owned(after, None))
        &&& (value is Some && converted is None ==> spec_is_waiting_for(after, remote, None, None))
        &&& (value is Some && converted is Some ==> spec_is_remote_owned(after, converted))
    }
}

impl EntityProperty {
    /// Takes the value the peer sent for this property: `local_entity_opt`
    /// is the local number it sent (already reversed to this side's view),
    /// or none. A number this connection does not know makes the property
    /// wait for its entity; a public or delegated property keeps its index,
    /// component and authority record for when it stops waiting.
    pub fn read(&mut self, local_entity_opt: Option<OwnedLocalEntity>, converter: &LocalEntityMap) -> (r: Result<
        (),
        EntityPropertyError,
    >)
        ensures
            spec_read_outcome(
                *old(self),
                *final(self),
                local_entity_opt,
                match local_entity_opt {
                    Some(l) => converter.spec_local_to_global(l),
                    None => None,
                },
                r,
            ),
    {
        let converted: Option<Result<GlobalEntity, crate::errors::EntityDoesNotExistError>> = match local_entity_opt {
            Some(l) => Some(converter.local_entity_to_global_entity(&l)),
            None => None,
        };
        let new_inner = match &mut self.inner {
            EntityRelation::RemotePublic(public_relation) => match (local_entity_opt, converted) {
                (Some(local_entity), Some(Err(_))) => EntityRelation::RemoteWaiting(
                    RemoteWaitingRelation::new_public(
                        local_entity.take_remote(),
                        public_relation.index,
                        &public_relation.mutator,
                    ),
                ),
                (Some(_), Some(Ok(global_entity))) => EntityRelation::RemotePublic(
                    RemotePublicRelation::new(Some(global_entity), public_relation.index, &public_relation.mutator),
                ),
                _ => EntityRelation::RemotePublic(
                    RemotePublicRelation::new(None, public_relation.index, &public_relation.mutator),
                ),
            },
            EntityRelation::Delegated(delegated_relation) => match (local_entity_opt, converted) {
                (Some(local_entity), Some(Err(_))) => EntityRelation::RemoteWaiting(
                    RemoteWaitingRelation::new_delegated(
                        local_entity.take_remote(),
                        &delegated_relation.auth_accessor,
                        &delegated_relation.mutator,
                        delegated_relation.index,
                    ),
                ),
                (Some(_), Some(Ok(global_entity))) => {
                    return delegated_relation.read_some(global_entity);
                },
                _ => {
                    return delegated_relation.read_none();
                },
            },
            _ => match (local_entity_opt, converted) {
                (Some(local_entity), Some(Err(_))) => EntityRelation::RemoteWaiting(
                    RemoteWaitingRelation::new(local_entity.take_remote()),
                ),
                (Some(_), Some(Ok(global_entity))) => EntityRelation::RemoteOwned(
                    RemoteOwnedRelation::new_with_value(Some(global_entity)),
                ),
                _ => EntityRelation::RemoteOwned(RemoteOwnedRelation::new_empty()),
            },
        };
        self.inner = new_inner;
        Ok(())
    }
}


impl EntityProperty {
    /// A property made from the value the peer sent: `local_entity_opt` is
    /// the local number it sent (already reversed to this side's view), or
    /// none. A remote number this connection does not know yet makes a
    /// waiting property; an unknown host number makes an invalid one.
    pub fn new_read(local_entity_opt: Option<OwnedLocalEntity>, converter: &LocalEntityMap) -> (r: EntityProperty)
        ensures
            match local_entity_opt {
                None => spec_is_remote_owned(r, None),
                Some(l) => match converter.spec_local_to_global(l) {
                    Some(g) => spec_is_remote_owned(r, Some(g)),
                    None => match l {
                        OwnedLocalEntity::Remote(v) => spec_is_waiting_for(r, RemoteEntity(v), None, None),
                        OwnedLocalEntity::Host(_) => r.kind() == RelationKind::Invalid,
                    },
                },
            },
    {
        match local_entity_opt {
            Some(local_entity) => match converter.local_entity_to_global_entity(&local_entity) {
                Ok(global_entity) => EntityProperty {
                    inner: EntityRelation::RemoteOwned(RemoteOwnedRelation::new_with_value(Some(global_entity))),
                },
                Err(_) => match local_entity {
                    OwnedLocalEntity::Remote(remote_entity_id) => EntityProperty {
                        inner: EntityRelation::RemoteWaiting(
                            RemoteWaitingRelation::new(RemoteEntity::new(remote_entity_id)),
                        ),
                    },
                    OwnedLocalEntity::Host(_) => EntityProperty { inner: EntityRelation::Invalid },
                },
            },
            None => EntityProperty { inner: EntityRelation::RemoteOwned(RemoteOwnedRelation::new_empty()) },
        }
    }
}

} // verus!
