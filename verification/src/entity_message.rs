//! The messages that keep one peer's entities in step with the other's.
use vstd::prelude::*;

use crate::entity_event::{EntityEvent, spec_event_entity, spec_event_type};
use crate::local_entity_map::LocalEntityMap;
use crate::types::{ComponentKind, EntityAuthStatus, HostEntity, OwnedLocalEntity, RemoteEntity};

verus! {

/// The kind of an entity message, without its payload.
#[derive(Clone, Copy, PartialEq, Eq, Hash, Debug, Structural)]
pub enum EntityMessageType {
    SpawnEntity,
    DespawnEntity,
    InsertComponent,
    RemoveComponent,
    PublishEntity,
    UnpublishEntity,
    EnableDelegationEntity,
    EnableDelegationEntityResponse,
    DisableDelegationEntity,
    RequestAuthority,
    ReleaseAuthority,
    UpdateAuthority,
    EntityMigrateResponse,
    Noop,
}

impl EntityMessageType {
    /// A component message of this kind for the given component, with no entity yet.
    pub fn with_component_kind(&self, component_kind: &ComponentKind) -> (r: EntityMessage<()>)
        requires
            *self == EntityMessageType::InsertComponent || *self == EntityMessageType::RemoveComponent,
        ensures
            *self == EntityMessageType::InsertComponent ==> r == EntityMessage::<()>::InsertComponent(
                (),
                *component_kind,
            ),
            *self == EntityMessageType::RemoveComponent ==> r == EntityMessage::<()>::RemoveComponent(
                (),
                *component_kind,
            ),
    {
        match self {
            EntityMessageType::InsertComponent => EntityMessage::InsertComponent((), *component_kind),
            _ => EntityMessage::RemoveComponent((), *component_kind),
        }
    }
}

/// A raw entity message as sent over the wire, addressed to an entity of type `E`.
#[derive(PartialEq, Eq, Debug, Clone, Copy)]
pub enum EntityMessage<E: Copy + Eq + PartialEq> {
    Spawn(E),
    Despawn(E),
    InsertComponent(E, ComponentKind),
    RemoveComponent(E, ComponentKind),
    Publish(E),
    Unpublish(E),
    EnableDelegation(E),
    DisableDelegation(E),
    SetAuthority(E, EntityAuthStatus),
    RequestAuthority(E, RemoteEntity),
    ReleaseAuthority(OwnedLocalEntity),
    EnableDelegationResponse(E),
    MigrateResponse(E, HostEntity),
    Noop,
}

/// The entity a message is addressed to; `Noop` has none.
pub open spec fn spec_message_entity<E: Copy + Eq>(m: EntityMessage<E>) -> Option<E> {
    match m {
        EntityMessage::Spawn(e) => Some(e),
        EntityMessage::Despawn(e) => Some(e),
        EntityMessage::InsertComponent(e, _) => Some(e),
        EntityMessage::RemoveComponent(e, _) => Some(e),
        EntityMessage::Publish(e) => Some(e),
        EntityMessage::Unpublish(e) => Some(e),
        EntityMessage::EnableDelegation(e) => Some(e),
        EntityMessage::DisableDelegation(e) => Some(e),
        EntityMessage::SetAuthority(e, _) => Some(e),
        EntityMessage::RequestAuthority(e, _) => Some(e),
        EntityMessage::ReleaseAuthority(_) => None,
        EntityMessage::EnableDelegationResponse(e) => Some(e),
        EntityMessage::MigrateResponse(e, _) => Some(e),
        EntityMessage::Noop => None,
    }
}

/// The kind of a message.
pub open spec fn spec_message_type<E: Copy + Eq>(m: EntityMessage<E>) -> EntityMessageType {
    match m {
        EntityMessage::Spawn(_) => EntityMessageType::SpawnEntity,
        EntityMessage::Despawn(_) => EntityMessageType::DespawnEntity,
        EntityMessage::InsertComponent(_, _) => EntityMessageType::InsertComponent,
        EntityMessage::RemoveComponent(_, _) => EntityMessageType::RemoveComponent,
        EntityMessage::Publish(_) => EntityMessageType::PublishEntity,
        EntityMessage::Unpublish(_) => EntityMessageType::UnpublishEntity,
        EntityMessage::EnableDelegation(_) => EntityMessageType::EnableDelegationEntity,
        EntityMessage::DisableDelegation(_) => EntityMessageType::DisableDelegationEntity,
        EntityMessage::SetAuthority(_, _) => EntityMessageType::UpdateAuthority,
        EntityMessage::RequestAuthority(_, _) => EntityMessageType::RequestAuthority,
        EntityMessage::ReleaseAuthority(_) => EntityMessageType::ReleaseAuthority,
        EntityMessage::EnableDelegationResponse(_) => EntityMessageType::EnableDelegationEntityResponse,
        EntityMessage::MigrateResponse(_, _) => EntityMessageType::EntityMigrateResponse,
        EntityMessage::Noop => EntityMessageType::Noop,
    }
}

/// The same message addressed to `entity`; `ReleaseAuthority` and `Noop` are left as they are.
pub open spec fn spec_message_retarget<E: Copy + Eq, F: Copy + Eq>(
    m: EntityMessage<E>,
    entity: F,
) -> EntityMessage<F> {
    match m {
        EntityMessage::Spawn(_) => EntityMessage::Spawn(entity),
        EntityMessage::Despawn(_) => EntityMessage::Despawn(entity),
        EntityMessage::InsertComponent(_, k) => EntityMessage::InsertComponent(entity, k),
        EntityMessage::RemoveComponent(_, k) => EntityMessage::RemoveComponent(entity, k),
        EntityMessage::Publish(_) => EntityMessage::Publish(entity),
        EntityMessage::Unpublish(_) => EntityMessage::Unpublish(entity),
        EntityMessage::EnableDelegation(_) => EntityMessage::EnableDelegation(entity),
        EntityMessage::DisableDelegation(_) => EntityMessage::DisableDelegation(entity),
        EntityMessage::SetAuthority(_, s) => EntityMessage::SetAuthority(entity, s),
        EntityMessage::RequestAuthority(_, o) => EntityMessage::RequestAuthority(entity, o),
        EntityMessage::ReleaseAuthority(l) => EntityMessage::ReleaseAuthority(l),
        EntityMessage::EnableDelegationResponse(_) => EntityMessage::EnableDelegationResponse(entity),
        EntityMessage::MigrateResponse(_, o) => EntityMessage::MigrateResponse(entity, o),
        EntityMessage::Noop => EntityMessage::Noop,
    }
}

impl<E: Copy + Eq + PartialEq> EntityMessage<E> {
    /// The entity the message is addressed to.
    pub fn entity(&self) -> (r: Option<E>)
        requires
            !(*self is ReleaseAuthority),
        ensures
            r == spec_message_entity(*self),
    {
        match self {
            EntityMessage::Spawn(entity) => Some(*entity),
            EntityMessage::Despawn(entity) => Some(*entity),
            EntityMessage::InsertComponent(entity, _) => Some(*entity),
            EntityMessage::RemoveComponent(entity, _) => Some(*entity),
            EntityMessage::Publish(entity) => Some(*entity),
            EntityMessage::Unpublish(entity) => Some(*entity),
            EntityMessage::EnableDelegation(entity) => Some(*entity),
            EntityMessage::EnableDelegationResponse(entity) => Some(*entity),
            EntityMessage::DisableDelegation(entity) => Some(*entity),
            EntityMessage::RequestAuthority(entity, _) => Some(*entity),
            EntityMessage::SetAuthority(entity, _) => Some(*entity),
            EntityMessage::MigrateResponse(entity, _) => Some(*entity),
            _ => None,
        }
    }

    /// The component a component message is about.
    pub fn component_kind(&self) -> (r: Option<ComponentKind>)
        ensures
            r == (match *self {
                EntityMessage::InsertComponent(_, k) => Some(k),
                EntityMessage::RemoveComponent(_, k) => Some(k),
                _ => None::<ComponentKind>,
            }),
    {
        match self {
            EntityMessage::InsertComponent(_, component_kind) => Some(*component_kind),
            EntityMessage::RemoveComponent(_, component_kind) => Some(*component_kind),
            _ => None,
        }
    }

    /// The same message with its entity taken away.
    pub fn strip_entity(self) -> (r: EntityMessage<()>)
        requires
            !(self is ReleaseAuthority),
            !(self is Noop),
        ensures
            r == spec_message_retarget(self, ()),
    {
        match self {
            EntityMessage::Spawn(_) => EntityMessage::Spawn(()),
            EntityMessage::Despawn(_) => EntityMessage::Despawn(()),
            EntityMessage::InsertComponent(_, k) => EntityMessage::InsertComponent((), k),
            EntityMessage::RemoveComponent(_, k) => EntityMessage::RemoveComponent((), k),
            EntityMessage::Publish(_) => EntityMessage::Publish(()),
            EntityMessage::Unpublish(_) => EntityMessage::Unpublish(()),
            EntityMessage::EnableDelegation(_) => EntityMessage::EnableDelegation(()),
            EntityMessage::EnableDelegationResponse(_) => EntityMessage::EnableDelegationResponse(()),
            EntityMessage::DisableDelegation(_) => EntityMessage::DisableDelegation(()),
            EntityMessage::RequestAuthority(_, other) => EntityMessage::RequestAuthority((), other),
            EntityMessage::SetAuthority(_, status) => EntityMessage::SetAuthority((), status),
            EntityMessage::MigrateResponse(_, other) => EntityMessage::MigrateResponse((), other),
            EntityMessage::ReleaseAuthority(l) => EntityMessage::ReleaseAuthority(l),
            EntityMessage::Noop => EntityMessage::Noop,
        }
    }

    /// The kind of the message.
    pub fn get_type(&self) -> (r: EntityMessageType)
        ensures
            r == spec_message_type(*self),
    {
        match self {
            EntityMessage::Spawn(_) => EntityMessageType::SpawnEntity,
            EntityMessage::Despawn(_) => EntityMessageType::DespawnEntity,
            EntityMessage::InsertComponent(_, _) => EntityMessageType::InsertComponent,
            EntityMessage::RemoveComponent(_, _) => EntityMessageType::RemoveComponent,
            EntityMessage::Publish(_) => EntityMessageType::PublishEntity,
            EntityMessage::Unpublish(_) => EntityMessageType::UnpublishEntity,
            EntityMessage::EnableDelegation(_) => EntityMessageType::EnableDelegationEntity,
            EntityMessage::EnableDelegationResponse(_) => EntityMessageType::EnableDelegationEntityResponse,
            EntityMessage::DisableDelegation(_) => EntityMessageType::DisableDelegationEntity,
            EntityMessage::RequestAuthority(_, _) => EntityMessageType::RequestAuthority,
            EntityMessage::ReleaseAuthority(_) => EntityMessageType::ReleaseAuthority,
            EntityMessage::SetAuthority(_, _) => EntityMessageType::UpdateAuthority,
            EntityMessage::MigrateResponse(_, _) => EntityMessageType::EntityMigrateResponse,
            EntityMessage::Noop => EntityMessageType::Noop,
        }
    }
}

impl EntityMessage<()> {
    /// The same message addressed to `entity`.
    pub fn with_entity<F: Copy + Eq + PartialEq>(self, entity: F) -> (r: EntityMessage<F>)
        requires
            !(self is ReleaseAuthority),
            !(self is Noop),
        ensures
            r == spec_message_retarget(self, entity),
            spec_message_entity(r) == Some(entity),
            spec_message_type(r) == spec_message_type(self),
    {
        match self {
            EntityMessage::Spawn(_) => EntityMessage::Spawn(entity),
            EntityMessage::Despawn(_) => EntityMessage::Despawn(entity),
            EntityMessage::InsertComponent(_, k) => EntityMessage::InsertComponent(entity, k),
            EntityMessage::RemoveComponent(_, k) => EntityMessage::RemoveComponent(entity, k),
            EntityMessage::Publish(_) => EntityMessage::Publish(entity),
            EntityMessage::Unpublish(_) => EntityMessage::Unpublish(entity),
            EntityMessage::EnableDelegation(_) => EntityMessage::EnableDelegation(entity),
            EntityMessage::EnableDelegationResponse(_) => EntityMessage::EnableDelegationResponse(entity),
            EntityMessage::DisableDelegation(_) => EntityMessage::DisableDelegation(entity),
            EntityMessage::RequestAuthority(_, other) => EntityMessage::RequestAuthority(entity, other),
            EntityMessage::SetAuthority(_, status) => EntityMessage::SetAuthority(entity, status),
            EntityMessage::MigrateResponse(_, other) => EntityMessage::MigrateResponse(entity, other),
            EntityMessage::ReleaseAuthority(l) => EntityMessage::ReleaseAuthority(l),
            EntityMessage::Noop => EntityMessage::Noop,
        }
    }
}

impl EntityMessage<OwnedLocalEntity> {
    /// The same message, addressed to `new_entity` where it was addressed to `old_entity`.
    pub fn apply_entity_redirect(
        self,
        old_entity: &OwnedLocalEntity,
        new_entity: &OwnedLocalEntity,
    ) -> (r: EntityMessage<OwnedLocalEntity>)
        ensures
            spec_message_type(r) == spec_message_type(self),
            (match spec_message_entity(self) {
                Some(e) => r == spec_message_retarget(
                    self,
                    if e == *old_entity { *new_entity } else { e },
                ),
                None => r == (match self {
                    EntityMessage::ReleaseAuthority(l) => EntityMessage::ReleaseAuthority(
                        if l == *old_entity { *new_entity } else { l },
                    ),
                    _ => self,
                }),
            }),
    {
        match self {
            EntityMessage::ReleaseAuthority(l) => {
                if l == *old_entity {
                    EntityMessage::ReleaseAuthority(*new_entity)
                } else {
                    self
                }
            },
            EntityMessage::Noop => EntityMessage::Noop,
            _ => {
                let e = match self.entity() {
                    Some(e) => e,
                    None => *old_entity,
                };
                let target = if e == *old_entity { *new_entity } else { e };
                self.strip_entity().with_entity(target)
            },
        }
    }
}

/// The auth and delegation kinds, which become events once their entity is known.
pub open spec fn spec_is_event_kind<E: Copy + Eq>(m: EntityMessage<E>) -> bool {
    ||| m is Publish
    ||| m is Unpublish
    ||| m is EnableDelegation
    ||| m is EnableDelegationResponse
    ||| m is DisableDelegation
    ||| m is RequestAuthority
    ||| m is SetAuthority
    ||| m is MigrateResponse
}

/// The event that a message of an auth or delegation kind becomes, for `global`.
pub open spec fn spec_message_event<E: Copy + Eq>(
    m: EntityMessage<E>,
    global: crate::types::GlobalEntity,
) -> EntityEvent {
    match m {
        EntityMessage::Publish(_) => EntityEvent::PublishEntity(global),
        EntityMessage::Unpublish(_) => EntityEvent::UnpublishEntity(global),
        EntityMessage::EnableDelegation(_) => EntityEvent::EnableDelegationEntity(global),
        EntityMessage::EnableDelegationResponse(_) => EntityEvent::EnableDelegationEntityResponse(global),
        EntityMessage::DisableDelegation(_) => EntityEvent::DisableDelegationEntity(global),
        EntityMessage::RequestAuthority(_, o) => EntityEvent::EntityRequestAuthority(global, o),
        EntityMessage::SetAuthority(_, s) => EntityEvent::EntityUpdateAuthority(global, s),
        EntityMessage::MigrateResponse(_, o) => EntityEvent::EntityMigrateResponse(global, o),
        _ => EntityEvent::EntityReleaseAuthority(global),
    }
}

/// The event of an auth or delegation message is of the message's own kind,
/// about the global entity given, and carries the message's other part.
pub proof fn lemma_message_event_law<E: Copy + Eq>(m: EntityMessage<E>, global: crate::types::GlobalEntity)
    requires
        spec_is_event_kind(m),
    ensures
        spec_event_type(spec_message_event(m, global)) == Some(spec_message_type(m)),
        spec_event_entity(spec_message_event(m, global)) == global,
        m matches EntityMessage::RequestAuthority(_, o) ==> spec_message_event(m, global)
            == EntityEvent::EntityRequestAuthority(global, o),
        m matches EntityMessage::SetAuthority(_, s) ==> spec_message_event(m, global)
            == EntityEvent::EntityUpdateAuthority(global, s),
        m matches EntityMessage::MigrateResponse(_, o) ==> spec_message_event(m, global)
            == EntityEvent::EntityMigrateResponse(global, o),
{
}

/// Builds the event of an auth or delegation message once its global entity is known.
fn event_for<E: Copy + Eq + PartialEq>(m: EntityMessage<E>, global: crate::types::GlobalEntity) -> (r: EntityEvent)
    requires
        spec_is_event_kind(m),
    ensures
        r == spec_message_event(m, global),
        spec_event_type(r) == Some(spec_message_type(m)),
        spec_event_entity(r) == global,
{
    proof {
        lemma_message_event_law(m, global);
    }
    match m {
        EntityMessage::Publish(_) => EntityEvent::PublishEntity(global),
        EntityMessage::Unpublish(_) => EntityEvent::UnpublishEntity(global),
        EntityMessage::EnableDelegation(_) => EntityEvent::EnableDelegationEntity(global),
        EntityMessage::EnableDelegationResponse(_) => EntityEvent::EnableDelegationEntityResponse(global),
        EntityMessage::DisableDelegation(_) => EntityEvent::DisableDelegationEntity(global),
        EntityMessage::RequestAuthority(_, o) => EntityEvent::EntityRequestAuthority(global, o),
        EntityMessage::SetAuthority(_, s) => EntityEvent::EntityUpdateAuthority(global, s),
        EntityMessage::MigrateResponse(_, o) => EntityEvent::EntityMigrateResponse(global, o),
        _ => EntityEvent::EntityReleaseAuthority(global),
    }
}

impl EntityMessage<RemoteEntity> {
    /// A response the peer addressed by its own number, readdressed to our host number.
    pub fn to_host_message(self) -> (r: EntityMessage<HostEntity>)
        requires
            self is EnableDelegationResponse || self is MigrateResponse || self is RequestAuthority,
        ensures
            r == spec_message_retarget(self, HostEntity((spec_message_entity(self)->0).0)),
    {
        match self {
            EntityMessage::EnableDelegationResponse(entity) => {
                EntityMessage::EnableDelegationResponse(entity.to_host())
            },
            EntityMessage::MigrateResponse(entity, other) => {
                EntityMessage::MigrateResponse(entity.to_host(), other)
            },
            EntityMessage::RequestAuthority(entity, other) => {
                EntityMessage::RequestAuthority(entity.to_host(), other)
            },
            _ => EntityMessage::Noop,
        }
    }

    /// The event this auth or delegation message stands for, on the global entity its
    /// remote number maps to.
    pub fn to_event(self, local_entity_map: &LocalEntityMap) -> (r: EntityEvent)
        requires
            spec_is_event_kind(self),
            local_entity_map.remotes().contains_key((spec_message_entity(self)->0).0),
        ensures
            r == spec_message_event(self, local_entity_map.remotes()[(spec_message_entity(self)->0).0]),
            spec_event_type(r) == Some(spec_message_type(self)),
            spec_event_entity(r) == local_entity_map.remotes()[(spec_message_entity(self)->0).0],
    {
        let remote_entity = match self.entity() {
            Some(e) => e,
            None => RemoteEntity(0),
        };
        let global_entity = match local_entity_map.global_entity_from_remote(&remote_entity) {
            Some(g) => *g,
            None => crate::types::GlobalEntity(0),
        };
        event_for(self, global_entity)
    }
}

impl EntityMessage<HostEntity> {
    /// The event this auth or delegation message stands for, on the global entity its
    /// host number maps to.
    pub fn to_event(self, local_entity_map: &LocalEntityMap) -> (r: EntityEvent)
        requires
            spec_is_event_kind(self),
            local_entity_map.hosts().contains_key((spec_message_entity(self)->0).0),
        ensures
            r == spec_message_event(self, local_entity_map.hosts()[(spec_message_entity(self)->0).0]),
            spec_event_type(r) == Some(spec_message_type(self)),
            spec_event_entity(r) == local_entity_map.hosts()[(spec_message_entity(self)->0).0],
    {
        let host_entity = match self.entity() {
            Some(e) => e,
            None => HostEntity(0),
        };
        let global_entity = match local_entity_map.global_entity_from_host(&host_entity) {
            Some(g) => *g,
            None => crate::types::GlobalEntity(0),
        };
        event_for(self, global_entity)
    }
}

} // verus!
