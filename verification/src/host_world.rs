//! The host side of replication: which message each outgoing command is
//! recorded and sent as, how many commands and updates fit in a packet, what
//! was written into which packet until it arrives or its record expires, and
//! what the peer's answers mean here.
use vstd::prelude::*;
use std::collections::VecDeque;
use naia_socket_shared::Instant;

use crate::entity_command::{EntityCommand, spec_command_component, spec_command_entity, spec_command_type};
use crate::entity_event::EntityEvent;
use crate::entity_waitlist::{duration_nanos, elapsed};
use crate::entity_message::{EntityMessage, EntityMessageType, spec_message_entity, spec_message_event, spec_message_type};
use crate::errors::PacketWriteError;
use crate::local_entity_map::LocalEntityMap;
use crate::types::{ComponentKind, GlobalEntity, HostEntity, MessageIndex, OwnedLocalEntity};

verus! {

/// The index of a sent packet.
pub type PacketIndex = u16;

/// The index of a sent command.
pub type CommandId = MessageIndex;

/// The kind a command is written as and the message it is recorded as. An
/// insert goes out as a no-op where the host does not have the entity or
/// the world does not have the component, a remove where the host does not
/// have the entity; a release carries the entity as written on the wire;
/// every other command goes out as its own message.
pub open spec fn spec_command_message(
    command: EntityCommand,
    host_has_entity: bool,
    world_has_component: bool,
    local_entity: OwnedLocalEntity,
) -> (EntityMessageType, EntityMessage<GlobalEntity>) {
    match command {
        EntityCommand::Spawn(g) => (EntityMessageType::SpawnEntity, EntityMessage::Spawn(g)),
        EntityCommand::Despawn(g) => (EntityMessageType::DespawnEntity, EntityMessage::Despawn(g)),
        EntityCommand::InsertComponent(g, k) => if !host_has_entity || !world_has_component {
            (EntityMessageType::Noop, EntityMessage::Noop)
        } else {
            (EntityMessageType::InsertComponent, EntityMessage::InsertComponent(g, k))
        },
        EntityCommand::RemoveComponent(g, k) => if !host_has_entity {
            (EntityMessageType::Noop, EntityMessage::Noop)
        } else {
            (EntityMessageType::RemoveComponent, EntityMessage::RemoveComponent(g, k))
        },
        EntityCommand::Publish(g) => (EntityMessageType::PublishEntity, EntityMessage::Publish(g)),
        EntityCommand::Unpublish(g) => (EntityMessageType::UnpublishEntity, EntityMessage::Unpublish(g)),
        EntityCommand::EnableDelegation(g) => (EntityMessageType::EnableDelegationEntity, EntityMessage::EnableDelegation(g)),
        EntityCommand::DisableDelegation(g) => (
            EntityMessageType::DisableDelegationEntity,
            EntityMessage::DisableDelegation(g),
        ),
        EntityCommand::SetAuthority(g, s) => (EntityMessageType::UpdateAuthority, EntityMessage::SetAuthority(g, s)),
        EntityCommand::RequestAuthority(g, r) => (
            EntityMessageType::RequestAuthority,
            EntityMessage::RequestAuthority(g, r),
        ),
        EntityCommand::ReleaseAuthority(_) => (
            EntityMessageType::ReleaseAuthority,
            EntityMessage::ReleaseAuthority(local_entity),
        ),
        EntityCommand::EnableDelegationResponse(g) => (
            EntityMessageType::EnableDelegationEntityResponse,
            EntityMessage::EnableDelegationResponse(g),
        ),
        EntityCommand::MigrateResponse(g, h) => (
            EntityMessageType::EntityMigrateResponse,
            EntityMessage::MigrateResponse(g, h),
        ),
    }
}

/// A command goes out as a no-op exactly when it is an insert while the host
/// lacks the entity or the world lacks the component, or a remove while the
/// host lacks the entity; whether the world has the component never matters
/// to any other command. Otherwise it goes out as a message of its own kind,
/// about its own entity (a release carries the entity as written on the
/// wire) and its own component. The kind written is always the message's.
pub proof fn lemma_command_message_law(
    command: EntityCommand,
    host_has_entity: bool,
    world_has_component: bool,
    local_entity: OwnedLocalEntity,
)
    ensures
        ({
            let r = spec_command_message(command, host_has_entity, world_has_component, local_entity);
            &&& r.0 == spec_message_type(r.1)
            &&& (r.1 is Noop) <==> ((command is InsertComponent && (!host_has_entity || !world_has_component)) || (
            command is RemoveComponent && !host_has_entity))
            &&& !(r.1 is Noop) ==> r.0 == spec_command_type(command)
            &&& !(r.1 is Noop) && !(command is ReleaseAuthority) ==> spec_message_entity(r.1) == Some(
                spec_command_entity(command),
            )
            &&& !(r.1 is Noop) ==> spec_command_component(command) == (match r.1 {
                EntityMessage::InsertComponent(_, k) => Some(k),
                EntityMessage::RemoveComponent(_, k) => Some(k),
                _ => None::<ComponentKind>,
            })
            &&& !(command is InsertComponent) ==> r == spec_command_message(
                command,
                host_has_entity,
                !world_has_component,
                local_entity,
            )
        }),
{
}

/// The kind `command` is written as and the message it is recorded as, given
/// whether the host has its entity, whether the world has its component, and
/// the entity as written on the wire.
pub fn command_message(
    command: &EntityCommand,
    host_has_entity: bool,
    world_has_component: bool,
    local_entity: OwnedLocalEntity,
) -> (r: (EntityMessageType, EntityMessage<GlobalEntity>))
    ensures
        r == spec_command_message(*command, host_has_entity, world_has_component, local_entity),
        (r.1 is Noop) <==> ((*command is InsertComponent && (!host_has_entity || !world_has_component)) || (
        *command is RemoveComponent && !host_has_entity)),
        !(r.1 is Noop) ==> r.0 == spec_command_type(*command) && r.0 == spec_message_type(r.1),
{
    proof {
        lemma_command_message_law(*command, host_has_entity, world_has_component, local_entity);
    }
    match *command {
        EntityCommand::Spawn(g) => (EntityMessageType::SpawnEntity, EntityMessage::Spawn(g)),
        EntityCommand::Despawn(g) => (EntityMessageType::DespawnEntity, EntityMessage::Despawn(g)),
        EntityCommand::InsertComponent(g, k) => if !host_has_entity || !world_has_component {
            (EntityMessageType::Noop, EntityMessage::Noop)
        } else {
            (EntityMessageType::InsertComponent, EntityMessage::InsertComponent(g, k))
        },
        EntityCommand::RemoveComponent(g, k) => if !host_has_entity {
            (EntityMessageType::Noop, EntityMessage::Noop)
        } else {
            (EntityMessageType::RemoveComponent, EntityMessage::RemoveComponent(g, k))
        },
        EntityCommand::Publish(g) => (EntityMessageType::PublishEntity, EntityMessage::Publish(g)),
        EntityCommand::Unpublish(g) => (EntityMessageType::UnpublishEntity, EntityMessage::Unpublish(g)),
        EntityCommand::EnableDelegation(g) => (EntityMessageType::EnableDelegationEntity, EntityMessage::EnableDelegation(g)),
        EntityCommand::DisableDelegation(g) => (
            EntityMessageType::DisableDelegationEntity,
            EntityMessage::DisableDelegation(g),
        ),
        EntityCommand::SetAuthority(g, s) => (EntityMessageType::UpdateAuthority, EntityMessage::SetAuthority(g, s)),
        EntityCommand::RequestAuthority(g, r) => (
            EntityMessageType::RequestAuthority,
            EntityMessage::RequestAuthority(g, r),
        ),
        EntityCommand::ReleaseAuthority(_) => (
            EntityMessageType::ReleaseAuthority,
            EntityMessage::ReleaseAuthority(local_entity),
        ),
        EntityCommand::EnableDelegationResponse(g) => (
            EntityMessageType::EnableDelegationEntityResponse,
            EntityMessage::EnableDelegationResponse(g),
        ),
        EntityCommand::MigrateResponse(g, h) => (
            EntityMessageType::EntityMigrateResponse,
            EntityMessage::MigrateResponse(g, h),
        ),
    }
}

/// How many items, from the front, fit one after the other in `free` bits.
pub open spec fn spec_fit_count(sizes: Seq<u32>, free: int) -> nat
    decreases sizes.len(),
{
    if sizes.len() > 0 && sizes[0] <= free {
        1 + spec_fit_count(sizes.drop_first(), free - sizes[0])
    } else {
        0
    }
}

/// How many of the queued commands, of `sizes` bits each, go into a packet
/// with `bits_free` bits left: those that fit one after the other. Where the
/// first does not fit and nothing was written in the packet yet, it can never
/// be sent, and that is an error.
pub fn commands_that_fit(sizes: &Vec<u32>, bits_free: u32, has_written: bool) -> (r: Result<usize, PacketWriteError>)
    ensures
        r == (if sizes@.len() > 0 && sizes@[0] > bits_free && !has_written {
            Err(PacketWriteError::BlockingOverflow { bits_needed: sizes@[0], bits_free })
        } else {
            Ok::<usize, PacketWriteError>(spec_fit_count(sizes@, bits_free as int) as usize)
        }),
{
    if sizes.len() > 0 && sizes[0] > bits_free && !has_written {
        return Err(PacketWriteError::BlockingOverflow { bits_needed: sizes[0], bits_free });
    }
    let mut count: usize = 0;
    let mut free: u32 = bits_free;
    proof {
        assert(sizes@.skip(0) =~= sizes@);
    }
    loop
        invariant
            count <= sizes@.len(),
            free <= bits_free,
            spec_fit_count(sizes@, bits_free as int) == count + spec_fit_count(sizes@.skip(count as int), free as int),
        ensures
            spec_fit_count(sizes@, bits_free as int) == count,
        decreases sizes@.len() - count,
    {
        if count >= sizes.len() {
            proof {
                assert(sizes@.skip(count as int).len() == 0);
            }
            break;
        }
        proof {
            assert(sizes@.skip(count as int)[0] == sizes@[count as int]);
            assert(sizes@.skip(count as int).drop_first() =~= sizes@.skip(count + 1));
        }
        if sizes[count] > free {
            break;
        }
        free = free - sizes[count];
        count += 1;
    }
    Ok(count)
}

/// The component kinds still to update once those of `written` are done,
/// in their order in `pending`.
pub fn remaining_update_kinds(pending: &Vec<ComponentKind>, written: &Vec<ComponentKind>) -> (r: Vec<ComponentKind>)
    ensures
        r@ == pending@.filter(|k: ComponentKind| !written@.contains(k)),
        r@.to_set() == pending@.to_set().difference(written@.to_set()),
{
    let mut out: Vec<ComponentKind> = Vec::new();
    let mut i: usize = 0;
    while i < pending.len()
        invariant
            i <= pending@.len(),
            out@ == pending@.take(i as int).filter(|k: ComponentKind| !written@.contains(k)),
        decreases pending@.len() - i,
    {
        let k = pending[i];
        let mut found = false;
        let mut j: usize = 0;
        while j < written.len()
            invariant
                j <= written@.len(),
                found == written@.take(j as int).contains(k),
            decreases written@.len() - j,
        {
            let w = written[j];
            proof {
                let t = written@.take(j as int);
                assert(written@.take(j + 1) =~= t.push(w));
                assert(t.push(w)[t.len() as int] == w);
                assert forall|x: ComponentKind| t.push(w).contains(x) <==> (t.contains(x) || x == w) by {
                    if t.contains(x) {
                        let a = choose|a: int| 0 <= a < t.len() && t[a] == x;
                        assert(t.push(w)[a] == x);
                    }
                    if t.push(w).contains(x) && x != w {
                        let a = choose|a: int| 0 <= a < t.push(w).len() && t.push(w)[a] == x;
                        assert(t[a] == x);
                    }
                }
            }
            if w == k {
                found = true;
            }
            j += 1;
        }
        proof {
            assert(written@.take(j as int) =~= written@);
            assert(pending@.take(i + 1) =~= pending@.take(i as int).push(k));
            pending@.take(i as int).lemma_filter_push(k, |k: ComponentKind| !written@.contains(k));
        }
        if !found {
            out.push(k);
        }
        i += 1;
    }
    proof {
        assert(pending@.take(pending@.len() as int) =~= pending@);
        let f = |k: ComponentKind| !written@.contains(k);
        pending@.filter_lemma(f);
        assert forall|k: ComponentKind| out@.to_set().contains(k) <==> pending@.to_set().difference(written@.to_set()).contains(k) by {
            if out@.contains(k) {
                pending@.lemma_filter_contains_rev(f, k);
                let idx = choose|idx: int| 0 <= idx < out@.len() && out@[idx] == k;
                assert(f(out@[idx]));
            }
            if pending@.contains(k) && !written@.contains(k) {
                let idx = choose|idx: int| 0 <= idx < pending@.len() && pending@[idx] == k;
                pending@.lemma_filter_contains(f, idx);
            }
        }
        assert(out@.to_set() =~= pending@.to_set().difference(written@.to_set()));
    }
    out
}

/// Of an entity's pending component updates, in the order they are tried,
/// `sizes` giving each one's bits with its continue bit and kind, those that
/// fit in `bits_free` bits are written: they are returned first, then the
/// updates still pending, and `has_written` becomes set where any was
/// written. Where the first does not fit and nothing was written in the
/// packet yet, nothing changes and that is an error.
pub fn write_update_kinds(
    pending: &Vec<ComponentKind>,
    sizes: &Vec<u32>,
    bits_free: u32,
    has_written: &mut bool,
) -> (r: Result<(Vec<ComponentKind>, Vec<ComponentKind>), PacketWriteError>)
    requires
        sizes@.len() == pending@.len(),
    ensures
        (sizes@.len() > 0 && sizes@[0] > bits_free && !*old(has_written)) ==> {
            &&& r == Err::<(Vec<ComponentKind>, Vec<ComponentKind>), PacketWriteError>(
                PacketWriteError::BlockingOverflow { bits_needed: sizes@[0], bits_free },
            )
            &&& *final(has_written) == *old(has_written)
        },
        !(sizes@.len() > 0 && sizes@[0] > bits_free && !*old(has_written)) ==> {
            let n = spec_fit_count(sizes@, bits_free as int) as int;
            &&& r is Ok
            &&& r->Ok_0.0@ == pending@.take(n)
            &&& r->Ok_0.1@ == pending@.filter(|k: ComponentKind| !pending@.take(n).contains(k))
            &&& *final(has_written) == (*old(has_written) || n > 0)
        },
{
    let total = sizes.len();
    proof {
        lemma_fit_count_bound(sizes@, bits_free as int);
        assert(spec_fit_count(sizes@, bits_free as int) <= total);
    }
    let count = match commands_that_fit(sizes, bits_free, *has_written) {
        Ok(c) => c,
        Err(e) => {
            return Err(e);
        },
    };
    let mut written: Vec<ComponentKind> = Vec::new();
    let mut i: usize = 0;
    while i < count
        invariant
            count <= pending@.len(),
            i <= count,
            written@ == pending@.take(i as int),
        decreases count - i,
    {
        written.push(pending[i]);
        proof {
            assert(pending@.take(i + 1) =~= pending@.take(i as int).push(pending@[i as int]));
        }
        i += 1;
    }
    if count > 0 {
        *has_written = true;
    }
    let rest = remaining_update_kinds(pending, &written);
    Ok((written, rest))
}

/// The messages from the peer that the host side takes as events: answers to
/// its delegation requests and requests for authority; no-ops are dropped.
pub open spec fn spec_host_incoming(m: EntityMessage<HostEntity>) -> bool {
    m is Noop || m is EnableDelegationResponse || m is RequestAuthority
}

/// The events for the messages of `msgs`, no-ops dropped, each on the global
/// entity its host number maps to in `hosts`.
pub open spec fn spec_host_events(msgs: Seq<EntityMessage<HostEntity>>, hosts: Map<u16, GlobalEntity>) -> Seq<EntityEvent>
    decreases msgs.len(),
{
    if msgs.len() == 0 {
        Seq::empty()
    } else {
        let rest = spec_host_events(msgs.drop_last(), hosts);
        let m = msgs.last();
        if m is Noop {
            rest
        } else {
            rest.push(spec_message_event(m, hosts[(spec_message_entity(m)->0).0]))
        }
    }
}

/// The packet records `ps` once command `id`, as `message`, is recorded for
/// packet `packet`: it goes at the end of the latest record of that packet.
pub open spec fn spec_record_written(
    ps: Seq<(PacketIndex, Seq<(CommandId, EntityMessage<GlobalEntity>)>)>,
    packet: PacketIndex,
    id: CommandId,
    message: EntityMessage<GlobalEntity>,
) -> Seq<(PacketIndex, Seq<(CommandId, EntityMessage<GlobalEntity>)>)> {
    Seq::new(
        ps.len(),
        |i: int|
            if ps[i].0 == packet && forall|j: int| i < j < ps.len() ==> ps[j].0 != packet {
                (packet, ps[i].1.push((id, message)))
            } else {
                ps[i]
            },
    )
}

/// Whether the packet records `ps` hold one of packet `packet`.
pub open spec fn spec_has_packet(ps: Seq<(PacketIndex, Seq<(CommandId, EntityMessage<GlobalEntity>)>)>, packet: PacketIndex) -> bool {
    exists|i: int| 0 <= i < ps.len() && #[trigger] ps[i].0 == packet
}

/// The packet records `ps` with one of packet `packet` started, empty, if
/// they had none.
pub open spec fn spec_started(
    ps: Seq<(PacketIndex, Seq<(CommandId, EntityMessage<GlobalEntity>)>)>,
    packet: PacketIndex,
) -> Seq<(PacketIndex, Seq<(CommandId, EntityMessage<GlobalEntity>)>)> {
    if spec_has_packet(ps, packet) {
        ps
    } else {
        ps.push((packet, Seq::empty()))
    }
}

/// The packet records `ps` once each of `entries`, in order, is recorded for
/// packet `packet`.
pub open spec fn spec_record_all(
    ps: Seq<(PacketIndex, Seq<(CommandId, EntityMessage<GlobalEntity>)>)>,
    packet: PacketIndex,
    entries: Seq<(CommandId, EntityMessage<GlobalEntity>)>,
) -> Seq<(PacketIndex, Seq<(CommandId, EntityMessage<GlobalEntity>)>)>
    decreases entries.len(),
{
    if entries.len() == 0 {
        ps
    } else {
        spec_record_written(spec_record_all(ps, packet, entries.drop_last()), packet, entries.last().0, entries.last().1)
    }
}

/// What the commands at the front of `queue` are written as, the first `n`
/// of them: each one's id, kind and the message it is recorded as, given for
/// each whether the host has its entity, whether the world has its component,
/// and its entity as written on the wire.
pub open spec fn spec_written_commands(
    queue: Seq<(CommandId, EntityCommand)>,
    host_has_entity: Seq<bool>,
    world_has_component: Seq<bool>,
    local_entities: Seq<OwnedLocalEntity>,
    n: int,
) -> Seq<(CommandId, EntityMessageType, EntityMessage<GlobalEntity>)> {
    Seq::new(
        n as nat,
        |i: int|
            {
                let m = spec_command_message(queue[i].1, host_has_entity[i], world_has_component[i], local_entities[i]);
                (queue[i].0, m.0, m.1)
            },
    )
}

/// Recording a command keeps which packets have records.
proof fn lemma_record_keeps_packets(
    ps: Seq<(PacketIndex, Seq<(CommandId, EntityMessage<GlobalEntity>)>)>,
    packet: PacketIndex,
    id: CommandId,
    message: EntityMessage<GlobalEntity>,
    other: PacketIndex,
)
    ensures
        spec_has_packet(spec_record_written(ps, packet, id, message), other) == spec_has_packet(ps, other),
{
    let r = spec_record_written(ps, packet, id, message);
    if spec_has_packet(ps, other) {
        let i = choose|i: int| 0 <= i < ps.len() && #[trigger] ps[i].0 == other;
        assert(r[i].0 == other);
    }
    if spec_has_packet(r, other) {
        let i = choose|i: int| 0 <= i < r.len() && #[trigger] r[i].0 == other;
        assert(ps[i].0 == other);
    }
}

/// No more items fit than there are.
proof fn lemma_fit_count_bound(sizes: Seq<u32>, free: int)
    ensures
        spec_fit_count(sizes, free) <= sizes.len(),
    decreases sizes.len(),
{
    if sizes.len() > 0 && sizes[0] <= free {
        lemma_fit_count_bound(sizes.drop_first(), free - sizes[0]);
    }
}

/// The derived `Clone` of naia_socket_shared's `Instant`: another handle on
/// the same moment. Nothing is stated of it, as a moment is opaque here.
#[verifier::external_body]
fn clone_instant(instant: &Instant) -> Instant {
    instant.clone()
}

/// How long the record of a sent packet is kept, in nanoseconds.
pub const COMMAND_RECORD_TTL_NANOS: u128 = 60000000000;

/// How many of the packet records, from the front, of ages `ages` in
/// nanoseconds, are older than the time they are kept: those are dropped,
/// and the first one not older stops it.
pub open spec fn spec_expired_records(ages: Seq<u128>) -> nat
    decreases ages.len(),
{
    if ages.len() > 0 && ages[0] > COMMAND_RECORD_TTL_NANOS {
        1 + spec_expired_records(ages.drop_first())
    } else {
        0
    }
}

/// No more records expire than there are.
proof fn lemma_expired_records_bound(ages: Seq<u128>)
    ensures
        spec_expired_records(ages) <= ages.len(),
    decreases ages.len(),
{
    if ages.len() > 0 && ages[0] > COMMAND_RECORD_TTL_NANOS {
        lemma_expired_records_bound(ages.drop_first());
    }
}

/// Where the packet `packet` stands first among the records `ps`, or -1.
pub open spec fn spec_first_packet(ps: Seq<(PacketIndex, Seq<(CommandId, EntityMessage<GlobalEntity>)>)>, packet: PacketIndex) -> int
    decreases ps.len(),
{
    if ps.len() == 0 {
        -1
    } else if ps[0].0 == packet {
        0
    } else {
        let rest = spec_first_packet(ps.drop_first(), packet);
        if rest < 0 {
            -1
        } else {
            rest + 1
        }
    }
}

/// The first record of packet `packet` stands where one is found after none.
proof fn lemma_first_packet(ps: Seq<(PacketIndex, Seq<(CommandId, EntityMessage<GlobalEntity>)>)>, packet: PacketIndex, i: int)
    requires
        0 <= i <= ps.len(),
        forall|j: int| 0 <= j < i ==> #[trigger] ps[j].0 != packet,
        i < ps.len() ==> ps[i].0 == packet,
    ensures
        spec_first_packet(ps, packet) == (if i < ps.len() {
            i
        } else {
            -1
        }),
    decreases ps.len(),
{
    if ps.len() > 0 && i > 0 {
        let d = ps.drop_first();
        assert forall|j: int| 0 <= j < i - 1 implies #[trigger] d[j].0 != packet by {
            assert(d[j] == ps[j + 1]);
        }
        if i < ps.len() {
            assert(d[i - 1] == ps[i]);
        }
        assert(ps[0].0 != packet);
        lemma_first_packet(d, packet, i - 1);
    }
}

/// The host side's events taken from the peer's messages.
pub struct HostWorldManager {
    incoming_events: Vec<EntityEvent>,
}

impl HostWorldManager {
    /// The events not yet taken, oldest first.
    pub closed spec fn incoming(&self) -> Seq<EntityEvent> {
        self.incoming_events@
    }

    pub fn new() -> (r: HostWorldManager)
        ensures
            r.incoming() == Seq::<EntityEvent>::empty(),
    {
        HostWorldManager { incoming_events: Vec::new() }
    }

    /// Takes the events from the peer's messages, oldest first.
    pub fn take_incoming_events(&mut self) -> (r: Vec<EntityEvent>)
        ensures
            r@ == old(self).incoming(),
            final(self).incoming() == Seq::<EntityEvent>::empty(),
    {
        let mut taken: Vec<EntityEvent> = Vec::new();
        std::mem::swap(&mut taken, &mut self.incoming_events);
        taken
    }

    /// Turns each message of the peer into an event on its global entity,
    /// dropping no-ops. Only answers to delegation requests and requests for
    /// authority come here, each about a host entity the map knows.
    pub fn process_incoming_messages(&mut self, local_entity_map: &LocalEntityMap, incoming: Vec<EntityMessage<HostEntity>>)
        requires
            forall|i: int| 0 <= i < incoming@.len() ==> spec_host_incoming(#[trigger] incoming@[i]),
            forall|i: int|
                0 <= i < incoming@.len() && !(incoming@[i] is Noop) ==> local_entity_map.hosts().contains_key(
                    (spec_message_entity(#[trigger] incoming@[i])->0).0,
                ),
        ensures
            final(self).incoming() == old(self).incoming() + spec_host_events(incoming@, local_entity_map.hosts()),
    {
        let mut i: usize = 0;
        proof {
            assert(incoming@.take(0) =~= Seq::<EntityMessage<HostEntity>>::empty());
            assert(old(self).incoming() + spec_host_events(incoming@.take(0), local_entity_map.hosts()) =~= old(
                self,
            ).incoming());
        }
        while i < incoming.len()
            invariant
                i <= incoming@.len(),
                forall|j: int| 0 <= j < incoming@.len() ==> spec_host_incoming(#[trigger] incoming@[j]),
                forall|j: int|
                    0 <= j < incoming@.len() && !(incoming@[j] is Noop) ==> local_entity_map.hosts().contains_key(
                        (spec_message_entity(#[trigger] incoming@[j])->0).0,
                    ),
                self.incoming() == old(self).incoming() + spec_host_events(incoming@.take(i as int), local_entity_map.hosts()),
            decreases incoming@.len() - i,
        {
            let message = incoming[i];
            proof {
                assert(incoming@.take(i + 1).drop_last() =~= incoming@.take(i as int));
                assert(incoming@.take(i + 1).last() == message);
            }
            match message {
                EntityMessage::Noop => {},
                _ => {
                    let event = message.to_event(local_entity_map);
                    self.incoming_events.push(event);
                    proof {
                        assert(self.incoming() =~= old(self).incoming() + spec_host_events(
                            incoming@.take(i + 1),
                            local_entity_map.hosts(),
                        ));
                    }
                },
            }
            i += 1;
        }
        proof {
            assert(incoming@.take(incoming@.len() as int) =~= incoming@);
        }
    }
}

/// For each packet sent, when it was sent and the commands written into it.
pub struct EntityCommandManager {
    sent_command_packets: Vec<(PacketIndex, Instant, Vec<(CommandId, EntityMessage<GlobalEntity>)>)>,
}

impl EntityCommandManager {
    /// For each packet sent, oldest first, its index and the commands written
    /// into it, in the order written.
    pub closed spec fn sent_packets(&self) -> Seq<(PacketIndex, Seq<(CommandId, EntityMessage<GlobalEntity>)>)> {
        self.sent_command_packets@.map_values(
            |p: (PacketIndex, Instant, Vec<(CommandId, EntityMessage<GlobalEntity>)>)| (p.0, p.2@),
        )
    }

    pub fn new() -> (r: EntityCommandManager)
        ensures
            r.sent_packets() == Seq::<(PacketIndex, Seq<(CommandId, EntityMessage<GlobalEntity>)>)>::empty(),
    {
        let r = EntityCommandManager { sent_command_packets: Vec::new() };
        proof {
            assert(r.sent_packets() =~= Seq::<(PacketIndex, Seq<(CommandId, EntityMessage<GlobalEntity>)>)>::empty());
        }
        r
    }

    /// Starts the record of packet `packet_index`, sent at `now`, with no
    /// command written into it yet, unless it has one.
    pub fn insert_sent_command_packet(&mut self, packet_index: PacketIndex, now: &Instant)
        ensures
            final(self).sent_packets() == spec_started(old(self).sent_packets(), packet_index),
            (exists|i: int| 0 <= i < old(self).sent_packets().len() && #[trigger] old(self).sent_packets()[i].0 == packet_index)
                ==> final(self).sent_packets() == old(self).sent_packets(),
            !(exists|i: int| 0 <= i < old(self).sent_packets().len() && #[trigger] old(self).sent_packets()[i].0 == packet_index)
                ==> final(self).sent_packets() == old(self).sent_packets().push((packet_index, Seq::empty())),
    {
        let mut i: usize = 0;
        while i < self.sent_command_packets.len()
            invariant
                i <= self.sent_command_packets@.len(),
                self.sent_command_packets@ == old(self).sent_command_packets@,
                forall|j: int| 0 <= j < i ==> #[trigger] self.sent_packets()[j].0 != packet_index,
            decreases self.sent_command_packets@.len() - i,
        {
            if self.sent_command_packets[i].0 == packet_index {
                proof {
                    assert(self.sent_packets()[i as int].0 == packet_index);
                }
                return;
            }
            i += 1;
        }
        self.sent_command_packets.push((packet_index, clone_instant(now), Vec::new()));
        proof {
            assert(self.sent_packets() =~= old(self).sent_packets().push((packet_index, Seq::empty())));
        }
    }

    /// Records that command `command_id`, as `message`, was written into the
    /// packet `packet_index`, whose record was started.
    pub fn record_command_written(
        &mut self,
        packet_index: &PacketIndex,
        command_id: &CommandId,
        message: EntityMessage<GlobalEntity>,
    )
        requires
            exists|i: int| 0 <= i < old(self).sent_packets().len() && #[trigger] old(self).sent_packets()[i].0 == *packet_index,
        ensures
            final(self).sent_packets() == spec_record_written(old(self).sent_packets(), *packet_index, *command_id, message),
            final(self).sent_packets().len() == old(self).sent_packets().len(),
            forall|i: int| 0 <= i < old(self).sent_packets().len() ==> #[trigger] final(self).sent_packets()[i] == (
                if old(self).sent_packets()[i].0 == *packet_index
                    && forall|j: int| i < j < old(self).sent_packets().len() ==> old(self).sent_packets()[j].0 != *packet_index {
                    (*packet_index, old(self).sent_packets()[i].1.push((*command_id, message)))
                } else {
                    old(self).sent_packets()[i]
                }
            ),
    {
        let mut i: usize = self.sent_command_packets.len();
        while i > 0
            invariant
                i <= self.sent_command_packets@.len(),
                self.sent_command_packets@ == old(self).sent_command_packets@,
                forall|j: int| i <= j < self.sent_command_packets@.len() ==> #[trigger] self.sent_packets()[j].0 != *packet_index,
            decreases i,
        {
            let pos = i - 1;
            if self.sent_command_packets[pos].0 == *packet_index {
                let ghost before = self.sent_packets();
                let mut entry = self.sent_command_packets.remove(pos);
                entry.2.push((*command_id, message));
                self.sent_command_packets.insert(pos, entry);
                proof {
                    assert forall|k: int| 0 <= k < before.len() implies #[trigger] self.sent_packets()[k] == (
                        if before[k].0 == *packet_index
                            && forall|j: int| k < j < before.len() ==> before[j].0 != *packet_index {
                            (*packet_index, before[k].1.push((*command_id, message)))
                        } else {
                            before[k]
                        }
                    ) by {
                        if k != pos {
                            assert(self.sent_command_packets@[k] == old(self).sent_command_packets@[k]);
                            if k < pos && before[k].0 == *packet_index {
                                assert(before[pos as int].0 == *packet_index);
                            }
                        }
                    }
                    assert(self.sent_packets() =~= spec_record_written(before, *packet_index, *command_id, message));
                }
                return;
            }
            i = pos;
        }
        proof {
            let w = choose|w: int| 0 <= w < old(self).sent_packets().len() && old(self).sent_packets()[w].0 == *packet_index;
            assert(self.sent_packets()[w].0 != *packet_index);
        }
    }

    /// Drops, from the front, the records of packets kept longer than they
    /// are kept, `ages` giving each record's age in nanoseconds, in order:
    /// dropping stops at the first one not older than that.
    pub fn drop_expired_command_packets(&mut self, ages: &Vec<u128>)
        requires
            ages@.len() == old(self).sent_packets().len(),
        ensures
            final(self).sent_packets() == old(self).sent_packets().skip(spec_expired_records(ages@) as int),
    {
        let mut k: usize = 0;
        proof {
            assert(ages@.skip(0) =~= ages@);
        }
        while k < ages.len() && ages[k] > COMMAND_RECORD_TTL_NANOS
            invariant
                k <= ages@.len(),
                spec_expired_records(ages@) == k + spec_expired_records(ages@.skip(k as int)),
            decreases ages@.len() - k,
        {
            proof {
                assert(ages@.skip(k as int)[0] == ages@[k as int]);
                assert(ages@.skip(k as int).drop_first() =~= ages@.skip(k + 1));
            }
            k += 1;
        }
        proof {
            if k < ages@.len() {
                assert(ages@.skip(k as int)[0] == ages@[k as int]);
            } else {
                assert(ages@.skip(k as int).len() == 0);
            }
        }
        let ghost recs0 = self.sent_command_packets@;
        let mut j: usize = 0;
        while j < k
            invariant
                j <= k,
                k <= recs0.len(),
                self.sent_command_packets@ == recs0.skip(j as int),
            decreases k - j,
        {
            self.sent_command_packets.remove(0);
            proof {
                assert(self.sent_command_packets@ =~= recs0.skip(j + 1));
            }
            j += 1;
        }
        proof {
            assert(self.sent_packets() =~= old(self).sent_packets().skip(k as int));
        }
    }

    /// Drops, from the front, the records of packets sent longer ago, as of
    /// `now`, than records are kept. Which are dropped depends on the clock;
    /// some front part of the records goes, and the rest stays as it was.
    pub fn handle_dropped_command_packets(&mut self, now: &Instant)
        ensures
            exists|k: int|
                0 <= k <= old(self).sent_packets().len() && final(self).sent_packets() == old(self).sent_packets().skip(k),
    {
        let mut ages: Vec<u128> = Vec::new();
        let mut i: usize = 0;
        while i < self.sent_command_packets.len()
            invariant
                i <= self.sent_command_packets@.len(),
                ages@.len() == i,
            decreases self.sent_command_packets@.len() - i,
        {
            let age = elapsed(&self.sent_command_packets[i].1, now);
            ages.push(duration_nanos(&age));
            i += 1;
        }
        proof {
            lemma_expired_records_bound(ages@);
        }
        self.drop_expired_command_packets(&ages);
    }

    /// The packet `packet_index` arrived: its first record, from the front,
    /// is taken out and the commands written into it returned, in the order
    /// written; `None` where it has none.
    pub fn notify_packet_delivered(&mut self, packet_index: PacketIndex) -> (r: Option<
        Vec<(CommandId, EntityMessage<GlobalEntity>)>,
    >)
        ensures
            spec_first_packet(old(self).sent_packets(), packet_index) < 0 ==> r is None && final(self).sent_packets()
                == old(self).sent_packets(),
            spec_first_packet(old(self).sent_packets(), packet_index) >= 0 ==> {
                let i = spec_first_packet(old(self).sent_packets(), packet_index);
                &&& r is Some
                &&& r->Some_0@ == old(self).sent_packets()[i].1
                &&& final(self).sent_packets() == old(self).sent_packets().remove(i)
            },
    {
        let mut i: usize = 0;
        while i < self.sent_command_packets.len()
            invariant
                i <= self.sent_command_packets@.len(),
                self.sent_command_packets@ == old(self).sent_command_packets@,
                forall|j: int| 0 <= j < i ==> #[trigger] self.sent_packets()[j].0 != packet_index,
            decreases self.sent_command_packets@.len() - i,
        {
            if self.sent_command_packets[i].0 == packet_index {
                proof {
                    lemma_first_packet(self.sent_packets(), packet_index, i as int);
                }
                let entry = self.sent_command_packets.remove(i);
                proof {
                    assert(self.sent_packets() =~= old(self).sent_packets().remove(i as int));
                }
                return Some(entry.2);
            }
            i += 1;
        }
        proof {
            lemma_first_packet(self.sent_packets(), packet_index, i as int);
        }
        None
    }
}

/// Writes the host side's commands into packets, recording each written
/// command for its packet.
pub struct HostWorldWriter;

impl HostWorldWriter {
    /// Takes the command at the front of `next_send_commands`, which stays
    /// queued, as it is written: its id becomes the last one written, and
    /// the kind and message it goes out as are returned. Only when
    /// `is_writing`, rather than measuring, is it recorded for the packet
    /// `packet_index`, whose record was started.
    pub fn write_command(
        command_manager: &mut EntityCommandManager,
        packet_index: &PacketIndex,
        next_send_commands: &VecDeque<(CommandId, EntityCommand)>,
        last_written_id: &mut Option<CommandId>,
        is_writing: bool,
        host_has_entity: bool,
        world_has_component: bool,
        local_entity: OwnedLocalEntity,
    ) -> (r: (EntityMessageType, EntityMessage<GlobalEntity>))
        requires
            next_send_commands@.len() > 0,
            is_writing ==> spec_has_packet(old(command_manager).sent_packets(), *packet_index),
        ensures
            r == spec_command_message(next_send_commands@[0].1, host_has_entity, world_has_component, local_entity),
            *final(last_written_id) == Some(next_send_commands@[0].0),
            is_writing ==> final(command_manager).sent_packets() == spec_record_written(
                old(command_manager).sent_packets(),
                *packet_index,
                next_send_commands@[0].0,
                r.1,
            ),
            !is_writing ==> final(command_manager).sent_packets() == old(command_manager).sent_packets(),
    {
        let (command_id, command) = next_send_commands[0];
        *last_written_id = Some(command_id);
        let written = command_message(&command, host_has_entity, world_has_component, local_entity);
        if is_writing {
            command_manager.record_command_written(packet_index, &command_id, written.1);
        }
        written
    }

    /// Writes into the packet `packet_index`, sent at `now`, the queued
    /// commands that fit in `bits_free` bits, `sizes` giving each one's bits,
    /// the continue bit included: they leave the queue, each is recorded for the packet in
    /// order, the packet's record being started first, and `has_written`
    /// becomes set where any was. They are returned, each with the kind and
    /// message it goes out as. Where the first does not fit and nothing was
    /// written in the packet yet, nothing changes and that is an error.
    pub fn write_commands(
        command_manager: &mut EntityCommandManager,
        now: &Instant,
        packet_index: &PacketIndex,
        next_send_commands: &mut VecDeque<(CommandId, EntityCommand)>,
        sizes: &Vec<u32>,
        bits_free: u32,
        has_written: &mut bool,
        host_has_entity: &Vec<bool>,
        world_has_component: &Vec<bool>,
        local_entities: &Vec<OwnedLocalEntity>,
    ) -> (r: Result<Vec<(CommandId, EntityMessageType, EntityMessage<GlobalEntity>)>, PacketWriteError>)
        requires
            sizes@.len() == old(next_send_commands)@.len(),
            host_has_entity@.len() == old(next_send_commands)@.len(),
            world_has_component@.len() == old(next_send_commands)@.len(),
            local_entities@.len() == old(next_send_commands)@.len(),
        ensures
            (sizes@.len() > 0 && sizes@[0] > bits_free && !*old(has_written)) ==> {
                &&& r == Err::<Vec<(CommandId, EntityMessageType, EntityMessage<GlobalEntity>)>, PacketWriteError>(
                    PacketWriteError::BlockingOverflow { bits_needed: sizes@[0], bits_free },
                )
                &&& final(next_send_commands)@ == old(next_send_commands)@
                &&& *final(has_written) == *old(has_written)
                &&& final(command_manager).sent_packets() == old(command_manager).sent_packets()
            },
            !(sizes@.len() > 0 && sizes@[0] > bits_free && !*old(has_written)) ==> {
                let n = spec_fit_count(sizes@, bits_free as int) as int;
                let written = spec_written_commands(
                    old(next_send_commands)@,
                    host_has_entity@,
                    world_has_component@,
                    local_entities@,
                    n,
                );
                &&& r is Ok
                &&& r->Ok_0@ == written
                &&& final(next_send_commands)@ == old(next_send_commands)@.skip(n)
                &&& *final(has_written) == (*old(has_written) || n > 0)
                &&& final(command_manager).sent_packets() == if n > 0 {
                    spec_record_all(
                        spec_started(old(command_manager).sent_packets(), *packet_index),
                        *packet_index,
                        written.map_values(|w: (CommandId, EntityMessageType, EntityMessage<GlobalEntity>)| (w.0, w.2)),
                    )
                } else {
                    old(command_manager).sent_packets()
                }
            },
    {
        let total = sizes.len();
        proof {
            lemma_fit_count_bound(sizes@, bits_free as int);
            assert(spec_fit_count(sizes@, bits_free as int) <= total);
        }
        let count = match commands_that_fit(sizes, bits_free, *has_written) {
            Ok(c) => c,
            Err(e) => {
                return Err(e);
            },
        };
        let ghost q0 = next_send_commands@;
        let ghost ps0 = command_manager.sent_packets();
        let ghost all = spec_written_commands(q0, host_has_entity@, world_has_component@, local_entities@, count as int);
        let mut out: Vec<(CommandId, EntityMessageType, EntityMessage<GlobalEntity>)> = Vec::new();
        let mut last_written_id: Option<CommandId> = None;
        let mut i: usize = 0;
        while i < count
            invariant
                count <= q0.len(),
                count as int == spec_fit_count(sizes@, bits_free as int) as int,
                i <= count,
                sizes@.len() == q0.len(),
                host_has_entity@.len() == q0.len(),
                world_has_component@.len() == q0.len(),
                local_entities@.len() == q0.len(),
                all == spec_written_commands(q0, host_has_entity@, world_has_component@, local_entities@, count as int),
                next_send_commands@ == q0.skip(i as int),
                *has_written == (*old(has_written) || i > 0),
                out@ == all.take(i as int),
                i > 0 ==> spec_has_packet(command_manager.sent_packets(), *packet_index),
                command_manager.sent_packets() == if i > 0 {
                    spec_record_all(
                        spec_started(ps0, *packet_index),
                        *packet_index,
                        all.take(i as int).map_values(
                            |w: (CommandId, EntityMessageType, EntityMessage<GlobalEntity>)| (w.0, w.2),
                        ),
                    )
                } else {
                    ps0
                },
            decreases count - i,
        {
            *has_written = true;
            let ghost before = command_manager.sent_packets();
            command_manager.insert_sent_command_packet(*packet_index, now);
            proof {
                if i == 0 {
                    assert(all.take(0).map_values(
                        |w: (CommandId, EntityMessageType, EntityMessage<GlobalEntity>)| (w.0, w.2),
                    ) =~= Seq::<(CommandId, EntityMessage<GlobalEntity>)>::empty());
                }
                let started = command_manager.sent_packets();
                if !spec_has_packet(before, *packet_index) {
                    assert(started[before.len() as int].0 == *packet_index);
                }
                assert(spec_has_packet(started, *packet_index));
            }
            let ghost started = command_manager.sent_packets();
            let ghost q = next_send_commands@;
            proof {
                assert(q[0] == q0[i as int]);
            }
            let written = Self::write_command(
                command_manager,
                packet_index,
                next_send_commands,
                &mut last_written_id,
                true,
                host_has_entity[i],
                world_has_component[i],
                local_entities[i],
            );
            let (command_id, _) = next_send_commands[0];
            out.push((command_id, written.0, written.1));
            let _ = next_send_commands.pop_front();
            proof {
                lemma_record_keeps_packets(started, *packet_index, command_id, written.1, *packet_index);
                let f = |w: (CommandId, EntityMessageType, EntityMessage<GlobalEntity>)| (w.0, w.2);
                let t1 = all.take(i + 1).map_values(f);
                assert(all[i as int] == (command_id, written.0, written.1));
                assert(all.take(i + 1) =~= all.take(i as int).push(all[i as int]));
                assert(t1.drop_last() =~= all.take(i as int).map_values(f));
                assert(t1.last() == (command_id, written.1));
                if i > 0 {
                    assert(started == before);
                    assert(spec_record_all(spec_started(ps0, *packet_index), *packet_index, t1) == spec_record_written(
                        before,
                        *packet_index,
                        command_id,
                        written.1,
                    ));
                } else {
                    assert(t1.drop_last() =~= Seq::<(CommandId, EntityMessage<GlobalEntity>)>::empty());
                    assert(started == spec_started(ps0, *packet_index));
                    assert(spec_record_all(started, *packet_index, t1.drop_last()) == started);
                    assert(spec_record_all(spec_started(ps0, *packet_index), *packet_index, t1) == spec_record_written(
                        started,
                        *packet_index,
                        command_id,
                        written.1,
                    ));
                }
                assert(out@ =~= all.take(i + 1));
                assert(next_send_commands@ =~= q0.skip(i + 1));
            }
            i += 1;
        }
        proof {
            assert(all.take(count as int) =~= all);
            assert(out@ == all);
            assert(count as int == spec_fit_count(sizes@, bits_free as int) as int);
            assert(next_send_commands@ == q0.skip(count as int));
            assert(*has_written == (*old(has_written) || count > 0));
        }
        Ok(out)
    }
}

} // verus!
