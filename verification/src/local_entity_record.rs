//! What one connection knows of one global entity: its local number and owner.
use vstd::prelude::*;

use crate::types::{HostEntity, RemoteEntity, OwnedLocalEntity, GlobalEntity, HostType};

verus! {

#[derive(Clone, Copy, Debug)]
pub struct LocalEntityRecord {
    pub entity: OwnedLocalEntity,
    pub old_remote_entity: Option<RemoteEntity>,
    pub delegated: bool,
}

/// The remote number a record still answers to: its own when it is
/// remote-owned, else the one it had before it became host-owned.
pub open spec fn spec_record_remote(r: LocalEntityRecord) -> Option<u16> {
    match r.entity {
        OwnedLocalEntity::Remote(v) => Some(v),
        OwnedLocalEntity::Host(_) => match r.old_remote_entity {
            Some(old) => Some(old.0),
            None => None,
        },
    }
}

impl LocalEntityRecord {
    pub fn new_host_owned_entity(entity: HostEntity) -> (r: LocalEntityRecord)
        ensures
            r.entity == OwnedLocalEntity::Host(entity.0),
            r.old_remote_entity is None,
            !r.delegated,
    {
        LocalEntityRecord {
            entity: OwnedLocalEntity::new_host(entity),
            old_remote_entity: None,
            delegated: false,
        }
    }

    pub fn new_remote_owned_entity(entity: RemoteEntity) -> (r: LocalEntityRecord)
        ensures
            r.entity == OwnedLocalEntity::Remote(entity.0),
            r.old_remote_entity is None,
            !r.delegated,
    {
        LocalEntityRecord {
            entity: OwnedLocalEntity::new_remote(entity),
            old_remote_entity: None,
            delegated: false,
        }
    }

    pub fn is_host_owned(&self) -> (r: bool)
        ensures
            r == (self.entity is Host),
    {
        self.entity.is_host()
    }

    pub fn has_remote_entity(&self) -> (r: bool)
        ensures
            r == spec_record_remote(*self) is Some,
    {
        self.entity.is_remote() || self.old_remote_entity.is_some()
    }

    pub fn is_delegated(&self) -> (r: bool)
        ensures
            r == self.delegated,
    {
        self.delegated
    }

    pub fn host_entity(&self) -> (r: HostEntity)
        requires
            self.entity is Host,
        ensures
            r.0 == self.entity->Host_0,
    {
        self.entity.host()
    }

    /// The remote number of this record; the record must have one.
    pub fn remote_entity(&self) -> (r: RemoteEntity)
        requires
            spec_record_remote(*self) is Some,
        ensures
            Some(r.0) == spec_record_remote(*self),
    {
        if self.entity.is_remote() {
            self.entity.remote()
        } else {
            match self.old_remote_entity {
                Some(old_remote) => old_remote,
                None => RemoteEntity(0),
            }
        }
    }

    pub fn owned_entity(&self) -> (r: OwnedLocalEntity)
        ensures
            r == self.entity,
    {
        self.entity
    }

    /// Hands a remote-owned record over to a new host number, keeping the
    /// remote number for trailing messages. Never returns an old host number.
    pub fn set_host(&mut self, new_host_entity: HostEntity) -> (r: Option<HostEntity>)
        requires
            old(self).entity is Remote,
            old(self).old_remote_entity is None,
        ensures
            r is None,
            final(self).entity == OwnedLocalEntity::Host(new_host_entity.0),
            final(self).old_remote_entity == Some(RemoteEntity(old(self).entity->Remote_0)),
            final(self).delegated == old(self).delegated,
    {
        self.old_remote_entity = Some(self.entity.remote());
        self.entity = OwnedLocalEntity::new_host(new_host_entity);
        None
    }
}

} // verus!
