//! The authority status of one delegated entity, shared between the side that
//! changes it and every property that reads it.
use vstd::prelude::*;
use std::sync::Arc;
use vstd::rwlock::{RwLock, RwLockPredicate};

use crate::errors::EntityAuthError;
use crate::types::{EntityAuthStatus, HostEntityAuthStatus, HostType};

verus! {

/// The shared record: which side this is, and the current status.
pub struct EntityAuthData {
    host_type: HostType,
    status: EntityAuthStatus,
}

/// What every value of the shared record satisfies: it keeps the side it was
/// made for.
pub struct AuthDataOf {
    pub host_type: HostType,
}

impl RwLockPredicate<EntityAuthData> for AuthDataOf {
    closed spec fn inv(self, v: EntityAuthData) -> bool {
        v.host_type == self.host_type
    }
}

/// The status a fresh record starts with: available on the server, requested
/// on the client.
pub open spec fn spec_initial_status(host_type: HostType) -> EntityAuthStatus {
    match host_type {
        HostType::Server => EntityAuthStatus::Available,
        HostType::Client => EntityAuthStatus::Requested,
    }
}

impl EntityAuthData {
    fn new(host_type: HostType) -> (r: EntityAuthData)
        ensures
            r.host_type == host_type,
            r.status == spec_initial_status(host_type),
    {
        let status = match host_type {
            HostType::Server => EntityAuthStatus::Available,
            HostType::Client => EntityAuthStatus::Requested,
        };
        EntityAuthData { host_type, status }
    }

    fn auth_status(&self) -> (r: HostEntityAuthStatus)
        ensures
            r.host_type == self.host_type,
            r.auth_status == self.status,
    {
        HostEntityAuthStatus::new(self.host_type, self.status)
    }

    fn set_auth_status(&mut self, auth_status: EntityAuthStatus)
        ensures
            final(self).host_type == old(self).host_type,
            final(self).status == auth_status,
    {
        self.status = auth_status;
    }
}

/// A handle on one shared record.
#[derive(Clone)]
pub struct EntityAuthChannel {
    data: Arc<RwLock<EntityAuthData, AuthDataOf>>,
}

impl EntityAuthChannel {
    /// The side the shared record was made for.
    pub closed spec fn host_type(&self) -> HostType {
        self.data.pred().host_type
    }

    /// A new shared record in its initial status, with a handle that changes it
    /// and one that reads it.
    pub fn new_channel(host_type: HostType) -> (r: (EntityAuthMutator, EntityAuthAccessor))
        ensures
            r.0.host_type() == host_type,
            r.1.host_type() == host_type,
    {
        let channel = EntityAuthChannel {
            data: Arc::new(RwLock::new(EntityAuthData::new(host_type), Ghost(AuthDataOf { host_type }))),
        };
        let sender = EntityAuthMutator::new(&channel);
        let receiver = EntityAuthAccessor::new(&channel);
        (sender, receiver)
    }

    fn share(&self) -> (r: EntityAuthChannel)
        ensures
            r.host_type() == self.host_type(),
    {
        EntityAuthChannel { data: self.data.clone() }
    }

    /// The current status, as this side sees it. Another handle may change the
    /// record at any time, so only the side it was made for is known.
    fn auth_status(&self) -> (r: HostEntityAuthStatus)
        ensures
            r.host_type == self.host_type(),
    {
        let handle = self.data.acquire_read();
        let status = handle.borrow().auth_status();
        handle.release_read();
        status
    }

    /// As `auth_status`; the lock here cannot be poisoned, so this always succeeds.
    fn try_auth_status(&self) -> (r: Result<HostEntityAuthStatus, EntityAuthError>)
        ensures
            r matches Ok(s) && s.host_type == self.host_type(),
    {
        Ok(self.auth_status())
    }

    fn set_auth_status(&self, auth_status: EntityAuthStatus) {
        let (mut data, handle) = self.data.acquire_write();
        data.set_auth_status(auth_status);
        handle.release_write(data);
    }

    /// As `set_auth_status`; the lock here cannot be poisoned, so this always succeeds.
    fn try_set_auth_status(&self, auth_status: EntityAuthStatus) -> (r: Result<(), EntityAuthError>)
        ensures
            r is Ok,
    {
        self.set_auth_status(auth_status);
        Ok(())
    }
}

/// Reads the authority status of one entity.
#[derive(Clone)]
pub struct EntityAuthAccessor {
    channel: EntityAuthChannel,
}

impl EntityAuthAccessor {
    pub closed spec fn host_type(&self) -> HostType {
        self.channel.host_type()
    }

    fn new(channel: &EntityAuthChannel) -> (r: EntityAuthAccessor)
        ensures
            r.host_type() == channel.host_type(),
    {
        EntityAuthAccessor { channel: channel.share() }
    }

    /// Another handle on the same record.
    pub fn share(&self) -> (r: EntityAuthAccessor)
        ensures
            r.host_type() == self.host_type(),
    {
        EntityAuthAccessor { channel: self.channel.share() }
    }

    /// The current status; it may change between two reads.
    pub fn auth_status(&self) -> (r: HostEntityAuthStatus)
        ensures
            r.host_type == self.host_type(),
    {
        self.channel.auth_status()
    }

    /// As `auth_status`, which always succeeds.
    pub fn try_auth_status(&self) -> (r: Result<HostEntityAuthStatus, EntityAuthError>)
        ensures
            r matches Ok(s) && s.host_type == self.host_type(),
    {
        self.channel.try_auth_status()
    }
}

/// Changes the authority status of one entity.
pub struct EntityAuthMutator {
    channel: EntityAuthChannel,
}

impl EntityAuthMutator {
    pub closed spec fn host_type(&self) -> HostType {
        self.channel.host_type()
    }

    fn new(channel: &EntityAuthChannel) -> (r: EntityAuthMutator)
        ensures
            r.host_type() == channel.host_type(),
    {
        EntityAuthMutator { channel: channel.share() }
    }

    pub fn set_auth_status(&self, auth_status: EntityAuthStatus) {
        self.channel.set_auth_status(auth_status);
    }

    /// As `set_auth_status`, which always succeeds.
    pub fn try_set_auth_status(&self, auth_status: EntityAuthStatus) -> (r: Result<(), EntityAuthError>)
        ensures
            r is Ok,
    {
        self.channel.try_set_auth_status(auth_status)
    }
}

} // verus!
