//! What the receiving side reports about the entities it replicates.
use vstd::prelude::*;
use vstd::string::StringExecFns;
use crate::text::{message_type_name, push_global_entity, spec_global_entity_text, spec_message_type_name};

use crate::entity_message::EntityMessageType;
use crate::types::{ComponentKind, EntityAuthStatus, GlobalEntity, HostEntity, RemoteEntity};

verus! {

/// The tick at which an update was taken.
pub type Tick = u16;

/// A change to the replicated world, addressed by global entity.
#[derive(Clone, Copy, PartialEq, Eq, Debug)]
pub enum EntityEvent {
    SpawnEntity(GlobalEntity),
    DespawnEntity(GlobalEntity),
    InsertComponent(GlobalEntity, ComponentKind),
    RemoveComponent(GlobalEntity, ComponentKind),
    UpdateComponent(Tick, GlobalEntity, ComponentKind),
    PublishEntity(GlobalEntity),
    UnpublishEntity(GlobalEntity),
    EnableDelegationEntity(GlobalEntity),
    EnableDelegationEntityResponse(GlobalEntity),
    DisableDelegationEntity(GlobalEntity),
    EntityRequestAuthority(GlobalEntity, RemoteEntity),
    EntityReleaseAuthority(GlobalEntity),
    EntityUpdateAuthority(GlobalEntity, EntityAuthStatus),
    EntityMigrateResponse(GlobalEntity, HostEntity),
}

/// The message kind an event comes from; component updates have none.
pub open spec fn spec_event_type(ev: EntityEvent) -> Option<EntityMessageType> {
    match ev {
        EntityEvent::SpawnEntity(_) => Some(EntityMessageType::SpawnEntity),
        EntityEvent::DespawnEntity(_) => Some(EntityMessageType::DespawnEntity),
        EntityEvent::InsertComponent(_, _) => Some(EntityMessageType::InsertComponent),
        EntityEvent::RemoveComponent(_, _) => Some(EntityMessageType::RemoveComponent),
        EntityEvent::UpdateComponent(_, _, _) => None,
        EntityEvent::PublishEntity(_) => Some(EntityMessageType::PublishEntity),
        EntityEvent::UnpublishEntity(_) => Some(EntityMessageType::UnpublishEntity),
        EntityEvent::EnableDelegationEntity(_) => Some(EntityMessageType::EnableDelegationEntity),
        EntityEvent::EnableDelegationEntityResponse(_) => Some(
            EntityMessageType::EnableDelegationEntityResponse,
        ),
        EntityEvent::DisableDelegationEntity(_) => Some(EntityMessageType::DisableDelegationEntity),
        EntityEvent::EntityRequestAuthority(_, _) => Some(EntityMessageType::RequestAuthority),
        EntityEvent::EntityReleaseAuthority(_) => Some(EntityMessageType::ReleaseAuthority),
        EntityEvent::EntityUpdateAuthority(_, _) => Some(EntityMessageType::UpdateAuthority),
        EntityEvent::EntityMigrateResponse(_, _) => Some(EntityMessageType::EntityMigrateResponse),
    }
}

/// The global entity an event is about.
pub open spec fn spec_event_entity(ev: EntityEvent) -> GlobalEntity {
    match ev {
        EntityEvent::SpawnEntity(e) => e,
        EntityEvent::DespawnEntity(e) => e,
        EntityEvent::InsertComponent(e, _) => e,
        EntityEvent::RemoveComponent(e, _) => e,
        EntityEvent::UpdateComponent(_, e, _) => e,
        EntityEvent::PublishEntity(e) => e,
        EntityEvent::UnpublishEntity(e) => e,
        EntityEvent::EnableDelegationEntity(e) => e,
        EntityEvent::EnableDelegationEntityResponse(e) => e,
        EntityEvent::DisableDelegationEntity(e) => e,
        EntityEvent::EntityRequestAuthority(e, _) => e,
        EntityEvent::EntityReleaseAuthority(e) => e,
        EntityEvent::EntityUpdateAuthority(e, _) => e,
        EntityEvent::EntityMigrateResponse(e, _) => e,
    }
}

/// The text of a message kind and an entity: the kind's name, a space and
/// the entity's `Debug` text.
pub open spec fn spec_kind_entity_text(kind: EntityMessageType, entity: GlobalEntity) -> Seq<char> {
    spec_message_type_name(kind) + " "@ + spec_global_entity_text(entity)
}

/// The text of a component update of an entity.
pub open spec fn spec_update_text(entity: GlobalEntity) -> Seq<char> {
    "UpdateComponent "@ + spec_global_entity_text(entity)
}

fn kind_entity_text(kind: EntityMessageType, entity: GlobalEntity) -> (r: String)
    ensures
        r@ == spec_kind_entity_text(kind, entity),
{
    let mut r = String::from_str(message_type_name(kind));
    r.append(" ");
    push_global_entity(&mut r, entity);
    proof {
        assert(r@ =~= spec_kind_entity_text(kind, entity));
    }
    r
}

fn update_text(entity: GlobalEntity) -> (r: String)
    ensures
        r@ == spec_update_text(entity),
{
    let mut r = String::from_str("UpdateComponent ");
    push_global_entity(&mut r, entity);
    r
}

impl EntityEvent {
    /// The message kind the event comes from; component updates have none.
    pub fn to_type(&self) -> (r: Option<EntityMessageType>)
        ensures
            r == spec_event_type(*self),
    {
        match self {
            EntityEvent::SpawnEntity(_) => Some(EntityMessageType::SpawnEntity),
            EntityEvent::DespawnEntity(_) => Some(EntityMessageType::DespawnEntity),
            EntityEvent::InsertComponent(_, _) => Some(EntityMessageType::InsertComponent),
            EntityEvent::RemoveComponent(_, _) => Some(EntityMessageType::RemoveComponent),
            EntityEvent::UpdateComponent(_, _, _) => None,
            EntityEvent::PublishEntity(_) => Some(EntityMessageType::PublishEntity),
            EntityEvent::UnpublishEntity(_) => Some(EntityMessageType::UnpublishEntity),
            EntityEvent::EnableDelegationEntity(_) => Some(EntityMessageType::EnableDelegationEntity),
            EntityEvent::EnableDelegationEntityResponse(_) => Some(
                EntityMessageType::EnableDelegationEntityResponse,
            ),
            EntityEvent::DisableDelegationEntity(_) => Some(EntityMessageType::DisableDelegationEntity),
            EntityEvent::EntityRequestAuthority(_, _) => Some(EntityMessageType::RequestAuthority),
            EntityEvent::EntityReleaseAuthority(_) => Some(EntityMessageType::ReleaseAuthority),
            EntityEvent::EntityUpdateAuthority(_, _) => Some(EntityMessageType::UpdateAuthority),
            EntityEvent::EntityMigrateResponse(_, _) => Some(EntityMessageType::EntityMigrateResponse),
        }
    }

    /// The global entity the event is about.
    pub fn entity(&self) -> (r: GlobalEntity)
        ensures
            r == spec_event_entity(*self),
    {
        match self {
            EntityEvent::SpawnEntity(e) => *e,
            EntityEvent::DespawnEntity(e) => *e,
            EntityEvent::InsertComponent(e, _) => *e,
            EntityEvent::RemoveComponent(e, _) => *e,
            EntityEvent::UpdateComponent(_, e, _) => *e,
            EntityEvent::PublishEntity(e) => *e,
            EntityEvent::UnpublishEntity(e) => *e,
            EntityEvent::EnableDelegationEntity(e) => *e,
            EntityEvent::EnableDelegationEntityResponse(e) => *e,
            EntityEvent::DisableDelegationEntity(e) => *e,
            EntityEvent::EntityRequestAuthority(e, _) => *e,
            EntityEvent::EntityReleaseAuthority(e) => *e,
            EntityEvent::EntityUpdateAuthority(e, _) => *e,
            EntityEvent::EntityMigrateResponse(e, _) => *e,
        }
    }

    /// A line describing the event: its message kind and entity, or, for a
    /// component update, that it is one and its entity.
    pub fn log(&self) -> (r: String)
        ensures
            r@ == (match spec_event_type(*self) {
                Some(kind) => spec_kind_entity_text(kind, spec_event_entity(*self)),
                None => spec_update_text(spec_event_entity(*self)),
            }),
    {
        let entity = self.entity();
        match self.to_type() {
            Some(ev_type) => kind_entity_text(ev_type, entity),
            None => update_text(entity),
        }
    }
}

} // verus!
