//! Core event definitions used by the sync engine.
use vstd::prelude::*;

verus! {

/// The meaning of an event's payload.
#[derive(Copy, Clone, Debug, Eq, PartialEq, Hash)]
pub enum MsgKind {
    Spawn,
    Despawn,
    Insert,
    Remove,
    Other(u8),
}

/// One segment of an entity or component path.
#[derive(Copy, Clone, Debug, Eq, PartialEq, Hash)]
pub enum PathSeg {
    Entity(u64),
    Comp(u32),
}

/// The unit an engine processes: a sequence number, a path, a kind and an opaque payload.
#[derive(Clone, Debug)]
pub struct Event {
    pub seq: u16,
    pub path: Vec<PathSeg>,
    pub kind: MsgKind,
    pub payload: Vec<u8>,
}

impl Event {
    pub fn new(seq: u16, path: Vec<PathSeg>, kind: MsgKind, payload: Vec<u8>) -> (r: Event)
        ensures
            r.seq == seq,
            r.path == path,
            r.kind == kind,
            r.payload == payload,
    {
        Event { seq, path, kind, payload }
    }
}

} // verus!
