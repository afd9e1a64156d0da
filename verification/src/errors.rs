//! Error values of the replication machinery.
use vstd::prelude::*;

verus! {

/// An entity could not be looked up for conversion.
#[derive(Debug, Clone, Copy, PartialEq, Eq, Structural)]
pub struct EntityDoesNotExistError;

/// Errors that can occur during entity operations and conversions.
#[allow(inconsistent_fields)]
#[derive(Debug, Clone)]
pub enum EntityError {
    EntityNotFound { context: &'static str },
    ConversionFailed { from: &'static str, to: &'static str },
    InvalidEntityType { expected: &'static str, actual: &'static str },
    SerializationNotSupported { entity_type: &'static str, operation: &'static str },
    ComponentNotFound { context: &'static str },
    InvalidAction { action: &'static str, reason: &'static str },
    EntityAlreadyExists { context: &'static str },
    ComponentAlreadyExists { context: &'static str },
    InvalidStateTransition { from_state: &'static str, to_state: &'static str, operation: &'static str },
    InvalidChannelOperation { operation: &'static str, reason: &'static str },
    OutOfSequence { expected: String, actual: String },
    InternalConsistency { context: &'static str },
    EntityAlreadyReserved { entity_id: String },
    ReservationExpired { entity_id: String },
    ReservationQueueCorrupted,
    EntityAlreadyRegisteredAs { entity_id: String, existing_type: &'static str },
    MissingHostEntity { entity_id: String },
    EntityNeitherHostNorRemote { entity_id: String },
    EntityRecordCorruption { message: String },
    EntityMappingInconsistency { entity_id: String, details: &'static str },
    EntityChannelNotFound { context: &'static str },
    ComponentChannelNotFound { context: &'static str },
    OrderedIdsCorrupted { index: usize, length: usize },
}

impl EntityError {
    /// A failed lookup, as an entity error.
    pub fn from_does_not_exist(_e: EntityDoesNotExistError) -> (r: EntityError)
        ensures
            r == (EntityError::EntityNotFound { context: "entity lookup failed during conversion" }),
    {
        EntityError::EntityNotFound { context: "entity lookup failed during conversion" }
    }
}

/// Errors that can occur during entity authorization operations.
#[allow(inconsistent_fields)]
#[derive(Debug, Clone)]
pub enum EntityAuthError {
    EntityAlreadyRegistered { entity_id: String },
    EntityNotRegistered { entity_id: String, operation: &'static str },
    AuthLockPoisoned,
    InvalidAuthStateTransition {
        host_type: &'static str,
        from_state: &'static str,
        to_state: &'static str,
        operation: &'static str,
    },
    OperationNotPermitted { operation: &'static str, host_type: &'static str, current_state: &'static str },
}

/// Errors that can occur during component registration.
#[allow(inconsistent_fields)]
#[derive(Debug, Clone)]
pub enum ComponentError {
    ComponentNotRegistered { component_name: &'static str },
    NetIdNotFound { net_id: u16 },
    KindNotFound,
}

/// Errors that can occur during EntityProperty operations.
#[allow(inconsistent_fields)]
#[derive(Debug, Clone)]
pub enum EntityPropertyError {
    InvalidWriteOperation { property_type: &'static str },
    InvalidMutatorOperation { property_type: &'static str },
    BitLengthNotSupported { property_type: &'static str },
    RemotePropertyManualSet,
    InvalidPropertyManualSet,
    InvalidPropertyMirror,
    UnknownReadCase,
    WaitingConversionFailed,
    InvalidWaitingComplete { property_type: &'static str },
    InvalidStateTransition { property_type: &'static str, operation: &'static str },
    InvalidDelegationEnable { property_type: &'static str },
    InvalidDelegationDisable { property_type: &'static str },
    InvalidLocalization { property_type: &'static str },
    InsufficientAuthority,
    MutationNotAuthorized,
    WriteLocalEntityNotSupported { property_type: &'static str },
    MutatorNotInitialized,
}

/// Errors that can occur during Property operations.
#[allow(inconsistent_fields)]
#[derive(Debug, Clone)]
pub enum PropertyError {
    InvalidMutatorOperation { property_type: &'static str, operation: &'static str },
    InvalidWriteOperation { property_type: &'static str },
    InvalidReadOperation { property_type: &'static str },
    InvalidMirrorOperation { property_type: &'static str },
    InvalidStateTransition { from_state: &'static str, to_state: &'static str, operation: &'static str },
    InsufficientAuthority { operation: &'static str, current_authority: String },
    InvalidMutableAccess { property_type: &'static str },
}

/// Errors of the host side of the world channel.
#[allow(inconsistent_fields)]
#[derive(Debug, Clone)]
pub enum WorldChannelError {
    EntityAlreadySpawned { entity_id: String },
    EntityNotFound { entity_id: String },
    EntityHasNoChannel { entity_id: String },
    EntityAlreadyDespawned { entity_id: String },
    EntityNotSpawned { entity_id: String, operation: &'static str },
    ComponentNotFound { entity_id: String, component_kind: String },
    ComponentAlreadyExists { entity_id: String, component_kind: String },
    RemoteEntityAlreadyTracked { entity_id: String },
    RemoteEntityNotTracked { entity_id: String },
    MustSpawnBeforeTracking { entity_id: String },
    RemoteEntityAlreadyExists { entity_id: String },
    RemoteEntityNotFoundForDespawn { entity_id: String },
    InvalidChannelState {
        entity_id: String,
        operation: &'static str,
        expected_state: &'static str,
        actual_state: &'static str,
    },
    RemoteComponentEntityNotFound { entity_id: String, component_kind: String, operation: &'static str },
    RemoteComponentAlreadyExists { entity_id: String, component_kind: String },
    RemoteComponentNotFound { entity_id: String, component_kind: String },
    RemoteComponentNoChannel { entity_id: String, component_kind: String, operation: &'static str },
    RemoteComponentChannelNotInitialized { entity_id: String, component_kind: String },
    RemoteComponentNotRemoving { entity_id: String, component_kind: String },
    DuplicateMapKey { key: String },
    MapKeyNotFound { key: String },
    DuplicateSetValue { value: String },
    SetValueNotFound { value: String },
    EntityNotSpawningState { entity_id: String },
    EntityHasPendingComponents { entity_id: String },
    EntityNotYetSpawned { entity_id: String },
    ComponentInsertEntityNotSpawned { entity_id: String, component_kind: String },
    ComponentRemoveWhileInserting { entity_id: String, component_kind: String },
    ComponentOperationWrongState { operation: &'static str, expected: &'static str, actual: &'static str },
    AuthorityReleased { entity_id: String },
    AuthReleaseMessageFailed { entity_id: String },
    EntitySpawnPacketOverflow { entity_id: String, component_names: String, bits_needed: u32, bits_free: u32 },
    ComponentInsertPacketOverflow { entity_id: String, component_kind: String, bits_needed: u32, bits_free: u32 },
    ComponentUpdatePacketOverflow { component_kind: String, bits_needed: u32, bits_free: u32 },
    ActionPacketOverflow { bits_needed: u32, bits_free: u32 },
    ComponentNotFoundDuringWrite { entity_id: String, component_kind: String },
    RwLockReentrant,
    ReceiverNotFound { entity_id: String, component_kind: String },
    ComponentNotRegistered { entity_id: String, component_kind: String },
    ComponentAlreadyRegistered { entity_id: String, component_kind: String },
}

/// Errors of the remote side of the world channel.
#[allow(inconsistent_fields)]
#[derive(Debug, Clone)]
pub enum RemoteWorldError {
    ComponentDataMissingDuringSpawn { entity_id: String, component_kind: String },
    ComponentDataMissingDuringInsert { entity_id: String, component_kind: String },
    MalformedComponentUpdate { entity_id: String, component_kind: String },
    WaitlistHandleMissing { handle: u16 },
    UpdateWaitlistMapInconsistency { entity_id: String, component_kind: String },
    HandleTtlQueueEmpty,
    WaitlistItemMissing { handle: u16 },
    EntityNotFound { entity_id: String },
    EntityNotSpawned { entity_id: String, operation: &'static str },
}

/// A command or update that does not fit in an empty packet.
#[derive(Debug, Clone, Copy, PartialEq, Eq, Structural)]
pub enum PacketWriteError {
    BlockingOverflow { bits_needed: u32, bits_free: u32 },
}

} // verus!
