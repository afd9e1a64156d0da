//! Commands the host side issues to keep the peer's view of its entities in step.
use vstd::prelude::*;

use crate::entity_message::EntityMessageType;
use crate::types::{ComponentKind, EntityAuthStatus, GlobalEntity, HostEntity, RemoteEntity};

verus! {

/// A command about one global entity, to be sent from host to remote.
#[derive(Clone, Copy, PartialEq, Eq, Debug)]
pub enum EntityCommand {
    Spawn(GlobalEntity),
    Despawn(GlobalEntity),
    InsertComponent(GlobalEntity, ComponentKind),
    RemoveComponent(GlobalEntity, ComponentKind),
    Publish(GlobalEntity),
    Unpublish(GlobalEntity),
    EnableDelegation(GlobalEntity),
    DisableDelegation(GlobalEntity),
    SetAuthority(GlobalEntity, EntityAuthStatus),
    RequestAuthority(GlobalEntity, RemoteEntity),
    ReleaseAuthority(GlobalEntity),
    EnableDelegationResponse(GlobalEntity),
    MigrateResponse(GlobalEntity, HostEntity),
}

/// The entity a command is about.
pub open spec fn spec_command_entity(c: EntityCommand) -> GlobalEntity {
    match c {
        EntityCommand::Spawn(e) => e,
        EntityCommand::Despawn(e) => e,
        EntityCommand::InsertComponent(e, _) => e,
        EntityCommand::RemoveComponent(e, _) => e,
        EntityCommand::Publish(e) => e,
        EntityCommand::Unpublish(e) => e,
        EntityCommand::EnableDelegation(e) => e,
        EntityCommand::DisableDelegation(e) => e,
        EntityCommand::SetAuthority(e, _) => e,
        EntityCommand::RequestAuthority(e, _) => e,
        EntityCommand::ReleaseAuthority(e) => e,
        EntityCommand::EnableDelegationResponse(e) => e,
        EntityCommand::MigrateResponse(e, _) => e,
    }
}

/// The message kind of a command.
pub open spec fn spec_command_type(c: EntityCommand) -> EntityMessageType {
    match c {
        EntityCommand::Spawn(_) => EntityMessageType::SpawnEntity,
        EntityCommand::Despawn(_) => EntityMessageType::DespawnEntity,
        EntityCommand::InsertComponent(_, _) => EntityMessageType::InsertComponent,
        EntityCommand::RemoveComponent(_, _) => EntityMessageType::RemoveComponent,
        EntityCommand::Publish(_) => EntityMessageType::PublishEntity,
        EntityCommand::Unpublish(_) => EntityMessageType::UnpublishEntity,
        EntityCommand::EnableDelegation(_) => EntityMessageType::EnableDelegationEntity,
        EntityCommand::DisableDelegation(_) => EntityMessageType::DisableDelegationEntity,
        EntityCommand::SetAuthority(_, _) => EntityMessageType::UpdateAuthority,
        EntityCommand::RequestAuthority(_, _) => EntityMessageType::RequestAuthority,
        EntityCommand::ReleaseAuthority(_) => EntityMessageType::ReleaseAuthority,
        EntityCommand::EnableDelegationResponse(_) => EntityMessageType::EnableDelegationEntityResponse,
        EntityCommand::MigrateResponse(_, _) => EntityMessageType::EntityMigrateResponse,
    }
}

/// The component a component command is about.
pub open spec fn spec_command_component(c: EntityCommand) -> Option<ComponentKind> {
    match c {
        EntityCommand::InsertComponent(_, k) => Some(k),
        EntityCommand::RemoveComponent(_, k) => Some(k),
        _ => None,
    }
}

impl EntityCommand {
    pub fn entity(&self) -> (r: GlobalEntity)
        ensures
            r == spec_command_entity(*self),
    {
        match self {
            EntityCommand::Spawn(e) => *e,
            EntityCommand::Despawn(e) => *e,
            EntityCommand::InsertComponent(e, _) => *e,
            EntityCommand::RemoveComponent(e, _) => *e,
            EntityCommand::Publish(e) => *e,
            EntityCommand::Unpublish(e) => *e,
            EntityCommand::EnableDelegation(e) => *e,
            EntityCommand::DisableDelegation(e) => *e,
            EntityCommand::SetAuthority(e, _) => *e,
            EntityCommand::RequestAuthority(e, _) => *e,
            EntityCommand::ReleaseAuthority(e) => *e,
            EntityCommand::EnableDelegationResponse(e) => *e,
            EntityCommand::MigrateResponse(e, _) => *e,
        }
    }

    pub fn component_kind(&self) -> (r: Option<ComponentKind>)
        ensures
            r == spec_command_component(*self),
    {
        match self {
            EntityCommand::InsertComponent(_, k) => Some(*k),
            EntityCommand::RemoveComponent(_, k) => Some(*k),
            _ => None,
        }
    }

    pub fn get_type(&self) -> (r: EntityMessageType)
        ensures
            r == spec_command_type(*self),
    {
        match self {
            EntityCommand::Spawn(_) => EntityMessageType::SpawnEntity,
            EntityCommand::Despawn(_) => EntityMessageType::DespawnEntity,
            EntityCommand::InsertComponent(_, _) => EntityMessageType::InsertComponent,
            EntityCommand::RemoveComponent(_, _) => EntityMessageType::RemoveComponent,
            EntityCommand::Publish(_) => EntityMessageType::PublishEntity,
            EntityCommand::Unpublish(_) => EntityMessageType::UnpublishEntity,
            EntityCommand::EnableDelegation(_) => EntityMessageType::EnableDelegationEntity,
            EntityCommand::DisableDelegation(_) => EntityMessageType::DisableDelegationEntity,
            EntityCommand::SetAuthority(_, _) => EntityMessageType::UpdateAuthority,
            EntityCommand::RequestAuthority(_, _) => EntityMessageType::RequestAuthority,
            EntityCommand::ReleaseAuthority(_) => EntityMessageType::ReleaseAuthority,
            EntityCommand::EnableDelegationResponse(_) => EntityMessageType::EnableDelegationEntityResponse,
            EntityCommand::MigrateResponse(_, _) => EntityMessageType::EntityMigrateResponse,
        }
    }
}

} // verus!
