//! The authority records of the entities this side delegates, one per entity.
use vstd::prelude::*;
use std::collections::HashMap;

use crate::auth_channel::{EntityAuthAccessor, EntityAuthChannel, EntityAuthMutator};
use crate::errors::EntityAuthError;
use crate::types::{EntityAuthStatus, EntityKey, HostEntityAuthStatus, HostType};

verus! {

broadcast use vstd::std_specs::hash::group_hash_axioms;


/// Holds, for each registered entity, the handle that changes its authority
/// status and the handle that reads it.
pub struct HostAuthHandler<E> {
    auth_channels: HashMap<u64, (E, EntityAuthMutator, EntityAuthAccessor)>,
}

impl<E: EntityKey> HostAuthHandler<E> {
    /// The registered entities.
    pub closed spec fn registered(&self) -> Set<E> {
        Set::new(|e: E| self.auth_channels@.contains_key(e.spec_key()))
    }

    /// The side the record of a registered entity was made for.
    pub closed spec fn host_type_of(&self, entity: E) -> HostType {
        self.auth_channels@[entity.spec_key()].2.host_type()
    }

    pub closed spec fn wf(&self) -> bool {
        forall|k: u64| #[trigger] self.auth_channels@.contains_key(k) ==> self.auth_channels@[k].1.host_type()
            == self.auth_channels@[k].2.host_type()
    }

    pub fn new() -> (r: HostAuthHandler<E>)
        ensures
            r.wf(),
            r.registered() == Set::<E>::empty(),
    {
        let r = HostAuthHandler { auth_channels: HashMap::new() };
        proof {
            assert(r.registered() =~= Set::<E>::empty());
        }
        r
    }

    /// Registers `entity` with a fresh record for `host_type`; fails if it is
    /// registered already.
    pub fn try_register_entity(&mut self, host_type: HostType, entity: &E) -> (r: Result<
        EntityAuthAccessor,
        EntityAuthError,
    >)
        requires
            old(self).wf(),
        ensures
            final(self).wf(),
            old(self).registered().contains(*entity) ==> (r matches Err(e) && e is EntityAlreadyRegistered
                && final(self).registered() == old(self).registered()),
            !old(self).registered().contains(*entity) ==> (r matches Ok(a) && a.host_type() == host_type
                && final(self).registered() == old(self).registered().insert(*entity)
                && final(self).host_type_of(*entity) == host_type),
            forall|e: E| e != *entity && #[trigger] old(self).registered().contains(e) ==> final(self).host_type_of(e)
                == old(self).host_type_of(e),
    {
        let key = entity.key();
        if self.auth_channels.contains_key(&key) {
            return Err(EntityAuthError::EntityAlreadyRegistered { entity_id: entity.debug_text() });
        }
        let (mutator, accessor) = EntityAuthChannel::new_channel(host_type);
        let shared = accessor.share();
        self.auth_channels.insert(key, (*entity, mutator, shared));
        proof {
            assert forall|k: u64| #[trigger] self.auth_channels@.contains_key(k) implies self.auth_channels@[k].1.host_type()
                == self.auth_channels@[k].2.host_type() by {
                if k != key {
                    assert(old(self).auth_channels@.contains_key(k));
                }
            }
            assert forall|e: E| #[trigger] self.registered().contains(e) <==> old(self).registered().insert(*entity).contains(e) by {
                if e.spec_key() == key {
                    E::lemma_key_injective(e, *entity);
                }
            }
            assert(self.registered() =~= old(self).registered().insert(*entity));
            assert forall|e: E| e != *entity && #[trigger] old(self).registered().contains(e) implies self.host_type_of(e)
                == old(self).host_type_of(e) by {
                if e.spec_key() == key {
                    E::lemma_key_injective(e, *entity);
                }
            }
        }
        Ok(accessor)
    }

    /// Registers `entity`, which must not be registered yet.
    pub fn register_entity(&mut self, host_type: HostType, entity: &E) -> (r: EntityAuthAccessor)
        requires
            old(self).wf(),
            !old(self).registered().contains(*entity),
        ensures
            final(self).wf(),
            r.host_type() == host_type,
            final(self).registered() == old(self).registered().insert(*entity),
            final(self).host_type_of(*entity) == host_type,
            forall|e: E| e != *entity && #[trigger] old(self).registered().contains(e) ==> final(self).host_type_of(e)
                == old(self).host_type_of(e),
    {
        match self.try_register_entity(host_type, entity) {
            Ok(a) => a,
            Err(_) => {
                let (_, accessor) = EntityAuthChannel::new_channel(host_type);
                accessor
            },
        }
    }

    /// Forgets the record of `entity`, if any.
    pub fn deregister_entity(&mut self, entity: &E)
        requires
            old(self).wf(),
        ensures
            final(self).wf(),
            final(self).registered() == old(self).registered().remove(*entity),
            forall|e: E| e != *entity && #[trigger] old(self).registered().contains(e) ==> final(self).host_type_of(e)
                == old(self).host_type_of(e),
    {
        let key = entity.key();
        self.auth_channels.remove(&key);
        proof {
            assert forall|k: u64| #[trigger] self.auth_channels@.contains_key(k) implies self.auth_channels@[k].1.host_type()
                == self.auth_channels@[k].2.host_type() by {
                assert(old(self).auth_channels@.contains_key(k));
            }
            assert forall|e: E| #[trigger] self.registered().contains(e) <==> old(self).registered().remove(*entity).contains(e) by {
                if e.spec_key() == key {
                    E::lemma_key_injective(e, *entity);
                }
            }
            assert(self.registered() =~= old(self).registered().remove(*entity));
            assert forall|e: E| e != *entity && #[trigger] old(self).registered().contains(e) implies self.host_type_of(e)
                == old(self).host_type_of(e) by {
                if e.spec_key() == key {
                    E::lemma_key_injective(e, *entity);
                }
            }
        }
    }

    /// A reading handle on the record of `entity`; fails if it is not registered.
    pub fn try_get_accessor(&self, entity: &E) -> (r: Result<EntityAuthAccessor, EntityAuthError>)
        requires
            self.wf(),
        ensures
            self.registered().contains(*entity) ==> (r matches Ok(a) && a.host_type() == self.host_type_of(*entity)),
            !self.registered().contains(*entity) ==> (r matches Err(e) && e is EntityNotRegistered && e->EntityNotRegistered_operation == "get_accessor"),
    {
        match self.auth_channels.get(&entity.key()) {
            Some(pair) => Ok(pair.2.share()),
            None => Err(
                EntityAuthError::EntityNotRegistered {
                    entity_id: entity.debug_text(),
                    operation: "get_accessor",
                },
            ),
        }
    }

    /// A reading handle on the record of `entity`, which must be registered.
    pub fn get_accessor(&self, entity: &E) -> (r: EntityAuthAccessor)
        requires
            self.wf(),
            self.registered().contains(*entity),
        ensures
            r.host_type() == self.host_type_of(*entity),
    {
        match self.auth_channels.get(&entity.key()) {
            Some(pair) => pair.2.share(),
            None => {
                let (_, accessor) = EntityAuthChannel::new_channel(HostType::Server);
                accessor
            },
        }
    }

    /// The current status of `entity`, if it is registered.
    pub fn auth_status(&self, entity: &E) -> (r: Option<HostEntityAuthStatus>)
        requires
            self.wf(),
        ensures
            self.registered().contains(*entity) ==> (r matches Some(s) && s.host_type == self.host_type_of(*entity)),
            !self.registered().contains(*entity) ==> r is None,
    {
        match self.auth_channels.get(&entity.key()) {
            Some(pair) => Some(pair.2.auth_status()),
            None => None,
        }
    }

    /// Sets the status of `entity`; fails if it is not registered.
    pub fn try_set_auth_status(&self, entity: &E, auth_status: EntityAuthStatus) -> (r: Result<(), EntityAuthError>)
        requires
            self.wf(),
        ensures
            self.registered().contains(*entity) ==> r is Ok,
            !self.registered().contains(*entity) ==> (r matches Err(e) && e is EntityNotRegistered && e->EntityNotRegistered_operation == "set_auth_status"),
    {
        match self.auth_channels.get(&entity.key()) {
            Some(pair) => {
                pair.1.set_auth_status(auth_status);
                Ok(())
            },
            None => Err(
                EntityAuthError::EntityNotRegistered {
                    entity_id: entity.debug_text(),
                    operation: "set_auth_status",
                },
            ),
        }
    }

    /// Sets the status of `entity`, which must be registered.
    pub fn set_auth_status(&self, entity: &E, auth_status: EntityAuthStatus)
        requires
            self.wf(),
            self.registered().contains(*entity),
    {
        let _ = self.try_set_auth_status(entity, auth_status);
    }
}

} // verus!
