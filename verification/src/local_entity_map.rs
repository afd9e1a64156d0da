//! The two-way table between global entities and one connection's local numbers.
use vstd::prelude::*;
use std::collections::HashMap;
use vstd::std_specs::iter::IteratorSpec;

use crate::errors::EntityDoesNotExistError;
use crate::local_entity_record::{LocalEntityRecord, spec_record_remote};
use crate::types::{HostEntity, RemoteEntity, OwnedLocalEntity, GlobalEntity, HostType};

verus! {

broadcast use vstd::std_specs::hash::group_hash_axioms;

pub struct LocalEntityMap {
    host_type: HostType,
    global_to_local: HashMap<u64, LocalEntityRecord>,
    host_to_global: HashMap<u16, GlobalEntity>,
    remote_to_global: HashMap<u16, GlobalEntity>,
    entity_redirects: HashMap<u32, OwnedLocalEntity>,
}

/// A local entity as one number: remote numbers below 65536, host numbers above.
pub open spec fn spec_local_code(e: OwnedLocalEntity) -> u32 {
    match e {
        OwnedLocalEntity::Remote(r) => r as u32,
        OwnedLocalEntity::Host(h) => (h as u32 + 65536) as u32,
    }
}

fn local_code(e: &OwnedLocalEntity) -> (r: u32)
    ensures
        r == spec_local_code(*e),
{
    match e {
        OwnedLocalEntity::Remote(r) => *r as u32,
        OwnedLocalEntity::Host(h) => *h as u32 + 65536,
    }
}

/// Distinct local entities have distinct codes.
pub proof fn lemma_local_code_injective(a: OwnedLocalEntity, b: OwnedLocalEntity)
    ensures
        spec_local_code(a) == spec_local_code(b) ==> a == b,
{
}

impl LocalEntityMap {
    /// The record of each global entity, by its number.
    pub closed spec fn records(&self) -> Map<u64, LocalEntityRecord> {
        self.global_to_local@
    }

    /// The global entity of each host number.
    pub closed spec fn hosts(&self) -> Map<u16, GlobalEntity> {
        self.host_to_global@
    }

    /// The global entity of each remote number.
    pub closed spec fn remotes(&self) -> Map<u16, GlobalEntity> {
        self.remote_to_global@
    }

    pub closed spec fn spec_host_type(&self) -> HostType {
        self.host_type
    }

    /// Where each local entity, by its code, has been redirected to.
    pub closed spec fn redirects(&self) -> Map<u32, OwnedLocalEntity> {
        self.entity_redirects@
    }

    /// What `entity` stands for after the redirects installed so far.
    pub open spec fn spec_apply_redirect(&self, entity: OwnedLocalEntity) -> OwnedLocalEntity {
        if self.redirects().contains_key(spec_local_code(entity)) {
            self.redirects()[spec_local_code(entity)]
        } else {
            entity
        }
    }

    /// The tables agree: host numbers and host-owned records correspond one
    /// to one, and every remote number a record answers to leads back to it.
    pub open spec fn wf(&self) -> bool {
        &&& forall|h: u16| #[trigger]
            self.hosts().contains_key(h) ==> {
                let g = self.hosts()[h];
                &&& self.records().contains_key(g.0)
                &&& self.records()[g.0].entity == OwnedLocalEntity::Host(h)
            }
        &&& forall|g: u64| #[trigger]
            self.records().contains_key(g) ==> {
                &&& (self.records()[g].entity matches OwnedLocalEntity::Host(h) ==> self.hosts().contains_key(h)
                    && self.hosts()[h] == GlobalEntity(g))
                &&& (spec_record_remote(self.records()[g]) matches Some(r) ==> self.remotes().contains_key(r)
                    && self.remotes()[r] == GlobalEntity(g))
            }
    }

    pub fn new(host_type: HostType) -> (r: LocalEntityMap)
        ensures
            r.records() == Map::<u64, LocalEntityRecord>::empty(),
            r.hosts() == Map::<u16, GlobalEntity>::empty(),
            r.remotes() == Map::<u16, GlobalEntity>::empty(),
            r.spec_host_type() == host_type,
            r.redirects() == Map::<u32, OwnedLocalEntity>::empty(),
            r.wf(),
    {
        LocalEntityMap {
            host_type,
            global_to_local: HashMap::new(),
            host_to_global: HashMap::new(),
            remote_to_global: HashMap::new(),
            entity_redirects: HashMap::new(),
        }
    }

    /// From now on, `old_entity` stands for `new_entity`.
    pub fn install_entity_redirect(&mut self, old_entity: OwnedLocalEntity, new_entity: OwnedLocalEntity)
        ensures
            final(self).redirects() == old(self).redirects().insert(spec_local_code(old_entity), new_entity),
            final(self).records() == old(self).records(),
            final(self).hosts() == old(self).hosts(),
            final(self).remotes() == old(self).remotes(),
            final(self).spec_host_type() == old(self).spec_host_type(),
    {
        let code = local_code(&old_entity);
        self.entity_redirects.insert(code, new_entity);
    }

    /// The entity that `entity` stands for: its redirect if one was installed, else itself.
    pub fn apply_entity_redirect(&self, entity: &OwnedLocalEntity) -> (r: OwnedLocalEntity)
        ensures
            r == self.spec_apply_redirect(*entity),
    {
        let code = local_code(entity);
        match self.entity_redirects.get(&code) {
            Some(e) => *e,
            None => *entity,
        }
    }

    pub fn host_type(&self) -> (r: HostType)
        ensures
            r == self.spec_host_type(),
    {
        self.host_type
    }

    /// Gives `global_entity` the host number `host_entity`. A global entity
    /// that is already known must be remote-owned, with no earlier remote
    /// number kept, and keeps its remote number; a record cannot take a host
    /// number otherwise.
    /// Never reports an older host number.
    pub fn insert_with_host_entity(
        &mut self,
        global_entity: GlobalEntity,
        host_entity: HostEntity,
    ) -> (r: Option<HostEntity>)
        requires
            old(self).records().contains_key(global_entity.0) ==> {
                &&& old(self).records()[global_entity.0].entity is Remote
                &&& old(self).records()[global_entity.0].old_remote_entity is None
            },
        ensures
            r is None,
            final(self).records() == old(self).records().insert(
                global_entity.0,
                if old(self).records().contains_key(global_entity.0) {
                    LocalEntityRecord {
                        entity: OwnedLocalEntity::Host(host_entity.0),
                        old_remote_entity: Some(
                            RemoteEntity(old(self).records()[global_entity.0].entity->Remote_0),
                        ),
                        delegated: old(self).records()[global_entity.0].delegated,
                    }
                } else {
                    LocalEntityRecord {
                        entity: OwnedLocalEntity::Host(host_entity.0),
                        old_remote_entity: None,
                        delegated: false,
                    }
                },
            ),
            final(self).hosts() == old(self).hosts().insert(host_entity.0, global_entity),
            final(self).remotes() == old(self).remotes(),
            final(self).spec_host_type() == old(self).spec_host_type(),
            old(self).wf() && !old(self).hosts().contains_key(host_entity.0) ==> final(self).wf(),
    {
        let mut old_host_entity_opt = None;
        let existing = self.global_to_local.remove(&global_entity.0);
        match existing {
            Some(mut record) => {
                if let Some(old_host_entity) = record.set_host(host_entity) {
                    old_host_entity_opt = Some(old_host_entity);
                }
                self.global_to_local.insert(global_entity.0, record);
            },
            None => {
                self.global_to_local.insert(
                    global_entity.0,
                    LocalEntityRecord::new_host_owned_entity(host_entity),
                );
            },
        }
        self.host_to_global.insert(host_entity.0, global_entity);
        proof {
            if old(self).wf() && !old(self).hosts().contains_key(host_entity.0) {
                assert forall|h: u16| #[trigger] self.hosts().contains_key(h) implies {
                    let g = self.hosts()[h];
                    &&& self.records().contains_key(g.0)
                    &&& self.records()[g.0].entity == OwnedLocalEntity::Host(h)
                } by {
                    if h != host_entity.0 {
                        let g = old(self).hosts()[h];
                        if g.0 == global_entity.0 {
                            assert(old(self).records()[g.0].entity == OwnedLocalEntity::Host(h));
                        }
                    }
                }
            }
        }
        old_host_entity_opt
    }

    /// Gives `global_entity` the remote number `remote`. Neither may be known
    /// yet: moving a remote number from another record, or adding one to a
    /// record that exists, goes through record operations (`set_remote`,
    /// `clear_remote`, `is_only_remote`) that this map's records do not have.
    pub fn insert_with_remote_entity(&mut self, global_entity: GlobalEntity, remote: RemoteEntity)
        requires
            !old(self).remotes().contains_key(remote.0),
            !old(self).records().contains_key(global_entity.0),
        ensures
            final(self).records() == old(self).records().insert(
                global_entity.0,
                LocalEntityRecord {
                    entity: OwnedLocalEntity::Remote(remote.0),
                    old_remote_entity: None,
                    delegated: false,
                },
            ),
            final(self).remotes() == old(self).remotes().insert(remote.0, global_entity),
            final(self).hosts() == old(self).hosts(),
            final(self).spec_host_type() == old(self).spec_host_type(),
            old(self).wf() ==> final(self).wf(),
    {
        self.global_to_local.insert(
            global_entity.0,
            LocalEntityRecord::new_remote_owned_entity(remote),
        );
        self.remote_to_global.insert(remote.0, global_entity);
    }

    pub fn global_entity_from_remote(&self, remote_entity: &RemoteEntity) -> (r: Option<
        &GlobalEntity,
    >)
        ensures
            match r {
                Some(g) => self.remotes().contains_key(remote_entity.0) && self.remotes()[remote_entity.0]
                    == *g,
                None => !self.remotes().contains_key(remote_entity.0),
            },
    {
        self.remote_to_global.get(&remote_entity.0)
    }

    pub fn global_entity_from_host(&self, host_entity: &HostEntity) -> (r: Option<&GlobalEntity>)
        ensures
            match r {
                Some(g) => self.hosts().contains_key(host_entity.0) && self.hosts()[host_entity.0]
                    == *g,
                None => !self.hosts().contains_key(host_entity.0),
            },
    {
        self.host_to_global.get(&host_entity.0)
    }

    /// Forgets `global_entity` and the local number it is owned under.
    pub fn remove_by_global_entity(&mut self, global_entity: &GlobalEntity) -> (r: Option<
        LocalEntityRecord,
    >)
        ensures
            r == (if old(self).records().contains_key(global_entity.0) {
                Some(old(self).records()[global_entity.0])
            } else {
                None::<LocalEntityRecord>
            }),
            final(self).records() == old(self).records().remove(global_entity.0),
            final(self).hosts() == (match r {
                Some(rec) => match rec.entity {
                    OwnedLocalEntity::Host(h) => old(self).hosts().remove(h),
                    OwnedLocalEntity::Remote(_) => old(self).hosts(),
                },
                None => old(self).hosts(),
            }),
            final(self).remotes() == (match r {
                Some(rec) => match rec.entity {
                    OwnedLocalEntity::Host(_) => old(self).remotes(),
                    OwnedLocalEntity::Remote(v) => old(self).remotes().remove(v),
                },
                None => old(self).remotes(),
            }),
            final(self).spec_host_type() == old(self).spec_host_type(),
            old(self).wf() ==> final(self).wf(),
    {
        let record_opt = self.global_to_local.remove(&global_entity.0);
        if let Some(record) = &record_opt {
            if record.is_host_owned() {
                let host_entity = record.host_entity();
                self.host_to_global.remove(&host_entity.0);
            } else {
                let remote_entity = record.remote_entity();
                self.remote_to_global.remove(&remote_entity.0);
            }
        }
        proof {
            if old(self).wf() {
                assert forall|h: u16| #[trigger] self.hosts().contains_key(h) implies {
                    let g = self.hosts()[h];
                    &&& self.records().contains_key(g.0)
                    &&& self.records()[g.0].entity == OwnedLocalEntity::Host(h)
                } by {
                    assert(old(self).hosts().contains_key(h));
                }
                assert forall|g: u64| #[trigger] self.records().contains_key(g) implies {
                    &&& (self.records()[g].entity matches OwnedLocalEntity::Host(h) ==> self.hosts().contains_key(h)
                        && self.hosts()[h] == GlobalEntity(g))
                    &&& (spec_record_remote(self.records()[g]) matches Some(r) ==> self.remotes().contains_key(r)
                        && self.remotes()[r] == GlobalEntity(g))
                } by {
                    assert(old(self).records().contains_key(g));
                }
            }
        }
        record_opt
    }

    /// Forgets the entity that answers to `remote_entity`, and returns it.
    pub fn remove_by_remote_entity(&mut self, remote_entity: &RemoteEntity) -> (r: GlobalEntity)
        requires
            old(self).remotes().contains_key(remote_entity.0),
        ensures
            r == old(self).remotes()[remote_entity.0],
            final(self).records() == old(self).records().remove(r.0),
            !final(self).remotes().contains_key(remote_entity.0),
            final(self).hosts() == (if old(self).records().contains_key(r.0) {
                match old(self).records()[r.0].entity {
                    OwnedLocalEntity::Host(h) => old(self).hosts().remove(h),
                    OwnedLocalEntity::Remote(_) => old(self).hosts(),
                }
            } else {
                old(self).hosts()
            }),
            final(self).remotes() == (if old(self).records().contains_key(r.0) {
                match old(self).records()[r.0].entity {
                    OwnedLocalEntity::Host(_) => old(self).remotes().remove(remote_entity.0),
                    OwnedLocalEntity::Remote(v) => old(self).remotes().remove(remote_entity.0).remove(v),
                }
            } else {
                old(self).remotes().remove(remote_entity.0)
            }),
            final(self).spec_host_type() == old(self).spec_host_type(),
            old(self).wf() ==> final(self).wf(),
    {
        let global_entity = match self.remote_to_global.remove(&remote_entity.0) {
            Some(g) => g,
            None => GlobalEntity(0),
        };
        let ghost mid = *self;
        proof {
            if old(self).wf() {
                assert forall|g: u64| #[trigger] mid.records().contains_key(g) && g != global_entity.0 implies
                    (spec_record_remote(mid.records()[g]) matches Some(r) ==> mid.remotes().contains_key(r)
                        && mid.remotes()[r] == GlobalEntity(g)) by {
                    assert(old(self).records().contains_key(g));
                }
            }
        }
        self.remove_by_global_entity(&global_entity);
        proof {
            if old(self).wf() {
                assert forall|g: u64| #[trigger] self.records().contains_key(g) implies {
                    &&& (self.records()[g].entity matches OwnedLocalEntity::Host(h) ==> self.hosts().contains_key(h)
                        && self.hosts()[h] == GlobalEntity(g))
                    &&& (spec_record_remote(self.records()[g]) matches Some(r) ==> self.remotes().contains_key(r)
                        && self.remotes()[r] == GlobalEntity(g))
                } by {
                    assert(old(self).records().contains_key(g));
                    assert(mid.records().contains_key(g));
                }
                assert forall|h: u16| #[trigger] self.hosts().contains_key(h) implies {
                    let g = self.hosts()[h];
                    &&& self.records().contains_key(g.0)
                    &&& self.records()[g.0].entity == OwnedLocalEntity::Host(h)
                } by {
                    assert(old(self).hosts().contains_key(h));
                }
            }
        }
        global_entity
    }

    pub fn contains_global_entity(&self, global_entity: &GlobalEntity) -> (r: bool)
        ensures
            r == self.records().contains_key(global_entity.0),
    {
        self.global_to_local.contains_key(&global_entity.0)
    }

    pub fn contains_host_entity(&self, host_entity: &HostEntity) -> (r: bool)
        ensures
            r == self.hosts().contains_key(host_entity.0),
    {
        self.host_to_global.contains_key(&host_entity.0)
    }

    pub fn contains_remote_entity(&self, remote_entity: &RemoteEntity) -> (r: bool)
        ensures
            r == self.remotes().contains_key(remote_entity.0),
    {
        self.remote_to_global.contains_key(&remote_entity.0)
    }

    pub fn global_entity_is_delegated(&self, global_entity: &GlobalEntity) -> (r: bool)
        ensures
            r == (self.records().contains_key(global_entity.0)
                && self.records()[global_entity.0].delegated),
    {
        match self.global_to_local.get(&global_entity.0) {
            Some(record) => record.is_delegated(),
            None => false,
        }
    }

    /// Every known global entity with its record, in no particular order.
    pub fn iter(&self) -> (r: Vec<(GlobalEntity, LocalEntityRecord)>)
        ensures
            r.len() == self.records().len(),
            forall|i: int| 0 <= i < r.len() ==> #[trigger] self.records().contains_key(r[i].0.0)
                && self.records()[r[i].0.0] == r[i].1,
            forall|g: u64| #[trigger] self.records().contains_key(g) ==> exists|i: int|
                0 <= i < r.len() && #[trigger] r[i].0.0 == g,
    {
        let mut out: Vec<(GlobalEntity, LocalEntityRecord)> = Vec::new();
        let ghost m = self.global_to_local@;
        for (k, v) in it: self.global_to_local.iter()
            invariant
                m == self.global_to_local@,
                out.len() == it.index(),
                it.seq() == vstd::std_specs::hash::spec_hash_map_iter(&self.global_to_local).remaining(),
                forall|i: int| 0 <= i < out.len() ==> #[trigger] out[i] == (GlobalEntity(*it.seq()[i].0), *it.seq()[i].1),
        {
            out.push((GlobalEntity(*k), *v));
        }
        proof {
            let s = vstd::std_specs::hash::spec_hash_map_iter(&self.global_to_local).remaining();
            assert forall|g: u64| #[trigger] self.records().contains_key(g) implies exists|i: int|
                0 <= i < out.len() && #[trigger] out[i].0.0 == g by {
                let pr = (&g, &m[g]);
                assert(s.contains(pr));
                let i = choose|i: int| 0 <= i < s.len() && s[i] == pr;
                assert(out[i].0.0 == g);
            }
        }
        out
    }

    pub fn global_entity_to_host_entity(&self, global_entity: &GlobalEntity) -> (r: Result<
        HostEntity,
        EntityDoesNotExistError,
    >)
        ensures
            match r {
                Ok(h) => self.records().contains_key(global_entity.0)
                    && self.records()[global_entity.0].entity == OwnedLocalEntity::Host(h.0),
                Err(_) => !(self.records().contains_key(global_entity.0)
                    && self.records()[global_entity.0].entity is Host),
            },
    {
        if let Some(record) = self.global_to_local.get(&global_entity.0) {
            if record.is_host_owned() {
                return Ok(record.host_entity());
            }
        }
        Err(EntityDoesNotExistError)
    }

    pub fn global_entity_to_remote_entity(&self, global_entity: &GlobalEntity) -> (r: Result<
        RemoteEntity,
        EntityDoesNotExistError,
    >)
        ensures
            match r {
                Ok(re) => self.records().contains_key(global_entity.0)
                    && self.records()[global_entity.0].entity == OwnedLocalEntity::Remote(re.0),
                Err(_) => !(self.records().contains_key(global_entity.0)
                    && self.records()[global_entity.0].entity is Remote),
            },
    {
        if let Some(record) = self.global_to_local.get(&global_entity.0) {
            if record.entity.is_remote() {
                return Ok(record.entity.remote());
            }
        }
        Err(EntityDoesNotExistError)
    }

    pub fn global_entity_to_owned_entity(&self, global_entity: &GlobalEntity) -> (r: Result<
        OwnedLocalEntity,
        EntityDoesNotExistError,
    >)
        ensures
            match r {
                Ok(e) => self.records().contains_key(global_entity.0)
                    && self.records()[global_entity.0].entity == e,
                Err(_) => !self.records().contains_key(global_entity.0),
            },
    {
        if let Some(record) = self.global_to_local.get(&global_entity.0) {
            return Ok(record.owned_entity());
        }
        Err(EntityDoesNotExistError)
    }

    /// The global entity a local number stands for, if any.
    pub open spec fn spec_local_to_global(&self, entity: OwnedLocalEntity) -> Option<GlobalEntity> {
        match entity {
            OwnedLocalEntity::Host(h) => if self.hosts().contains_key(h) {
                Some(self.hosts()[h])
            } else {
                None
            },
            OwnedLocalEntity::Remote(r) => if self.remotes().contains_key(r) {
                Some(self.remotes()[r])
            } else {
                None
            },
        }
    }

    /// The global entity a local number stands for, looked up by whether the
    /// number is a host or a remote one.
    pub fn local_entity_to_global_entity(&self, entity: &OwnedLocalEntity) -> (r: Result<
        GlobalEntity,
        EntityDoesNotExistError,
    >)
        ensures
            match r {
                Ok(g) => self.spec_local_to_global(*entity) == Some(g),
                Err(_) => self.spec_local_to_global(*entity) is None,
            },
    {
        match entity {
            OwnedLocalEntity::Host(h) => self.host_entity_to_global_entity(&HostEntity(*h)),
            OwnedLocalEntity::Remote(r) => self.remote_entity_to_global_entity(&RemoteEntity(*r)),
        }
    }

    pub fn host_entity_to_global_entity(&self, host_entity: &HostEntity) -> (r: Result<
        GlobalEntity,
        EntityDoesNotExistError,
    >)
        ensures
            match r {
                Ok(g) => self.hosts().contains_key(host_entity.0) && self.hosts()[host_entity.0] == g,
                Err(_) => !self.hosts().contains_key(host_entity.0),
            },
    {
        if let Some(global_entity) = self.host_to_global.get(&host_entity.0) {
            return Ok(*global_entity);
        }
        Err(EntityDoesNotExistError)
    }

    pub fn remote_entity_to_global_entity(&self, remote_entity: &RemoteEntity) -> (r: Result<
        GlobalEntity,
        EntityDoesNotExistError,
    >)
        ensures
            match r {
                Ok(g) => self.remotes().contains_key(remote_entity.0) && self.remotes()[remote_entity.0]
                    == g,
                Err(_) => !self.remotes().contains_key(remote_entity.0),
            },
    {
        if let Some(global_entity) = self.remote_to_global.get(&remote_entity.0) {
            return Ok(*global_entity);
        }
        Err(EntityDoesNotExistError)
    }
}

/// In a well-formed map, a global entity is host-owned under number `h`
/// exactly when `h` leads back to that global entity.
pub proof fn lemma_host_conversion_round_trip(m: LocalEntityMap, g: GlobalEntity, h: HostEntity)
    requires
        m.wf(),
    ensures
        (m.records().contains_key(g.0) && m.records()[g.0].entity == OwnedLocalEntity::Host(h.0))
            <==> (m.hosts().contains_key(h.0) && m.hosts()[h.0] == g),
{
}

/// In a well-formed map, a remote-owned global entity is reached again from
/// its remote number.
pub proof fn lemma_remote_conversion_round_trip(m: LocalEntityMap, g: GlobalEntity, r: RemoteEntity)
    requires
        m.wf(),
        m.records().contains_key(g.0),
        m.records()[g.0].entity == OwnedLocalEntity::Remote(r.0),
    ensures
        m.remotes().contains_key(r.0) && m.remotes()[r.0] == g,
{
}

/// Once a redirect from `old_entity` to `new_entity` is installed, `old_entity`
/// stands for `new_entity` and every other entity stands for what it did before.
pub proof fn lemma_redirect_install_apply(
    before: LocalEntityMap,
    after: LocalEntityMap,
    old_entity: OwnedLocalEntity,
    new_entity: OwnedLocalEntity,
    other: OwnedLocalEntity,
)
    requires
        after.redirects() == before.redirects().insert(spec_local_code(old_entity), new_entity),
    ensures
        after.spec_apply_redirect(old_entity) == new_entity,
        other != old_entity ==> after.spec_apply_redirect(other) == before.spec_apply_redirect(other),
{
    lemma_local_code_injective(other, old_entity);
}

/// How many of the remote entities `rs` the map `known` does not know.
pub open spec fn spec_unknown_count(rs: Seq<RemoteEntity>, known: Map<u16, GlobalEntity>) -> nat
    decreases rs.len(),
{
    if rs.len() == 0 {
        0
    } else {
        spec_unknown_count(rs.drop_last(), known) + if known.contains_key(rs.last().0) {
            0nat
        } else {
            1nat
        }
    }
}

/// A first part of the remote entities holds no more unknown ones than all.
pub proof fn lemma_unknown_count_prefix(rs: Seq<RemoteEntity>, known: Map<u16, GlobalEntity>, i: int)
    requires
        0 <= i <= rs.len(),
    ensures
        spec_unknown_count(rs.take(i), known) <= spec_unknown_count(rs, known),
    decreases rs.len(),
{
    if i < rs.len() {
        assert(rs.drop_last().take(i) =~= rs.take(i));
        lemma_unknown_count_prefix(rs.drop_last(), known, i);
    } else {
        assert(rs.take(i) =~= rs);
    }
}

/// The global entity of each remote entity of `rs`: the one `known` maps it
/// to, or else, in turn, the next of `reserved`.
pub open spec fn spec_global_of_remote(
    rs: Seq<RemoteEntity>,
    known: Map<u16, GlobalEntity>,
    reserved: Seq<GlobalEntity>,
    i: int,
) -> GlobalEntity {
    if known.contains_key(rs[i].0) {
        known[rs[i].0]
    } else {
        reserved[spec_unknown_count(rs.take(i), known) as int]
    }
}

impl LocalEntityMap {
    /// The global entities of the remote entities `remote_entities`, in their
    /// order: the one the map knows, or else the next of `reserved`, the
    /// global entities the world reserved, in turn, for the unknown ones; the
    /// map then records each of those under its remote number.
    pub fn get_or_reserve_global_entities(
        &mut self,
        remote_entities: &Vec<RemoteEntity>,
        reserved: &Vec<GlobalEntity>,
    ) -> (r: Vec<GlobalEntity>)
        requires
            remote_entities@.no_duplicates(),
            reserved@.no_duplicates(),
            reserved@.len() >= spec_unknown_count(remote_entities@, old(self).remotes()),
            forall|k: int| 0 <= k < reserved@.len() ==> !old(self).records().contains_key(#[trigger] reserved@[k].0),
        ensures
            r@.len() == remote_entities@.len(),
            forall|i: int| 0 <= i < r@.len() ==> #[trigger] r@[i] == spec_global_of_remote(
                remote_entities@,
                old(self).remotes(),
                reserved@,
                i,
            ),
            forall|i: int| 0 <= i < r@.len() ==> final(self).remotes().contains_key(#[trigger] remote_entities@[i].0)
                && final(self).remotes()[remote_entities@[i].0] == r@[i],
            forall|v: u16| #[trigger] old(self).remotes().contains_key(v) ==> final(self).remotes().contains_key(v)
                && final(self).remotes()[v] == old(self).remotes()[v],
            final(self).hosts() == old(self).hosts(),
            old(self).wf() ==> final(self).wf(),
    {
        let ghost rs = remote_entities@;
        let ghost known = self.remotes();
        let mut out: Vec<GlobalEntity> = Vec::new();
        let mut used: usize = 0;
        let mut i: usize = 0;
        let reserved_len = reserved.len();
        proof {
            assert(rs.take(0) =~= Seq::<RemoteEntity>::empty());
        }
        while i < remote_entities.len()
            invariant
                rs == remote_entities@,
                reserved_len == reserved@.len(),
                known == old(self).remotes(),
                rs.no_duplicates(),
                reserved@.no_duplicates(),
                reserved@.len() >= spec_unknown_count(rs, known),
                forall|k: int| 0 <= k < reserved@.len() ==> !old(self).records().contains_key(#[trigger] reserved@[k].0),
                i <= rs.len(),
                used == spec_unknown_count(rs.take(i as int), known),
                out@.len() == i,
                forall|j: int| 0 <= j < i ==> #[trigger] out@[j] == spec_global_of_remote(rs, known, reserved@, j),
                forall|j: int| 0 <= j < i ==> self.remotes().contains_key(#[trigger] rs[j].0) && self.remotes()[rs[j].0]
                    == out@[j],
                forall|v: u16| #[trigger] self.remotes().contains_key(v) ==> known.contains_key(v) || exists|j: int|
                    0 <= j < i && rs[j].0 == v,
                forall|v: u16| #[trigger] known.contains_key(v) ==> self.remotes().contains_key(v) && self.remotes()[v]
                    == known[v],
                forall|g: u64| #[trigger] self.records().contains_key(g) ==> old(self).records().contains_key(g) || exists|k: int|
                    0 <= k < used && reserved@[k].0 == g,
                self.hosts() == old(self).hosts(),
                old(self).wf() ==> self.wf(),
            decreases rs.len() - i,
        {
            let remote = remote_entities[i];
            proof {
                assert(rs.take(i + 1).drop_last() =~= rs.take(i as int));
                assert(rs.take(i + 1).last() == remote);
                lemma_unknown_count_prefix(rs, known, i + 1);
            }
            let global = match self.remote_entity_to_global_entity(&remote) {
                Ok(g) => {
                    proof {
                        if !known.contains_key(remote.0) {
                            let j = choose|j: int| 0 <= j < i && rs[j].0 == remote.0;
                            assert(rs[j] == rs[i as int]);
                        }
                    }
                    g
                },
                Err(_) => {
                    proof {
                        assert(spec_unknown_count(rs.take(i + 1), known) == used + 1);
                    }
                    let g = reserved[used];
                    proof {
                        assert(!known.contains_key(remote.0));
                        assert(!self.records().contains_key(g.0)) by {
                            if self.records().contains_key(g.0) {
                                if !old(self).records().contains_key(g.0) {
                                    let k = choose|k: int| 0 <= k < used && reserved@[k].0 == g.0;
                                    assert(reserved@[k] == reserved@[used as int]);
                                }
                            }
                        }
                    }
                    self.insert_with_remote_entity(g, remote);
                    used = used + 1;
                    proof {
                        assert forall|g2: u64| #[trigger] self.records().contains_key(g2) implies old(self).records().contains_key(
                            g2,
                        ) || exists|k: int| 0 <= k < used && reserved@[k].0 == g2 by {
                            if g2 == g.0 {
                                assert(reserved@[used - 1].0 == g2);
                            }
                        }
                    }
                    g
                },
            };
            out.push(global);
            proof {
                assert forall|v: u16| #[trigger] self.remotes().contains_key(v) implies known.contains_key(v) || exists|j: int|
                    0 <= j < i + 1 && rs[j].0 == v by {
                    if v == remote.0 && !known.contains_key(v) {
                        assert(rs[i as int].0 == v);
                    }
                }
                assert forall|j: int| 0 <= j < i + 1 implies self.remotes().contains_key(#[trigger] rs[j].0)
                    && self.remotes()[rs[j].0] == out@[j] by {
                    if j < i && rs[j].0 == remote.0 {
                        assert(rs[j] == rs[i as int]);
                    }
                }
            }
            i += 1;
        }
        out
    }
}

} // verus!
