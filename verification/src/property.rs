//! A synced value of a component, and the rules for who may change, send and
//! take it, depending on who owns the component.
use vstd::prelude::*;
use crate::text::{spec_status_text, status_text};
use vstd::std_specs::cmp::PartialEqSpec;

use crate::auth_channel::EntityAuthAccessor;
use crate::entity_property::spec_mutator_arg;
use crate::errors::PropertyError;
use crate::property_mutator::PropertyMutator;
use crate::types::{HostEntityAuthStatus, HostType, spec_can_mutate, spec_can_read, spec_can_write};

verus! {

/// Who owns the component a property belongs to, and so what may be done with it.
#[derive(Clone, Copy, PartialEq, Eq, Debug, Structural)]
pub enum PropertyKind {
    HostOwned,
    RemoteOwned,
    RemotePublic,
    Delegated,
    Local,
}

/// The value of a property of a component this side owns.
#[derive(Clone)]
pub struct HostOwnedProperty<T> {
    inner: T,
    mutator: Option<PropertyMutator>,
    index: u8,
}

impl<T: Clone> HostOwnedProperty<T> {
    pub closed spec fn value(&self) -> T {
        self.inner
    }

    pub closed spec fn spec_index(&self) -> u8 {
        self.index
    }

    pub closed spec fn mutator(&self) -> Option<PropertyMutator> {
        self.mutator
    }

    /// A property with the value `value`, at index `mutator_index` of its
    /// component, that has no handle to report changes through yet.
    pub fn new(value: T, mutator_index: u8) -> (r: HostOwnedProperty<T>)
        ensures
            r.value() == value,
            r.spec_index() == mutator_index,
            r.mutator() is None,
    {
        HostOwnedProperty { inner: value, mutator: None, index: mutator_index }
    }

    /// Gives the property its own handle on the channel of `mutator`.
    pub fn set_mutator(&mut self, mutator: &PropertyMutator)
        ensures
            final(self).value() == old(self).value(),
            final(self).spec_index() == old(self).spec_index(),
            final(self).mutator() matches Some(m) && m.id() == mutator.id() && m.reported() == Seq::<u8>::empty(),
    {
        self.mutator = Some(mutator.clone_new());
    }

    /// Reports a change of the value, if the property has a handle.
    pub fn mutate(&mut self)
        ensures
            final(self).value() == old(self).value(),
            final(self).spec_index() == old(self).spec_index(),
            (final(self).mutator() is Some) == (old(self).mutator() is Some),
            final(self).mutator() matches Some(m) ==> m.id() == old(self).mutator()->0.id()
                && m.reported() == old(self).mutator()->0.reported().push(old(self).spec_index()),
    {
        match &mut self.mutator {
            Some(m) => {
                let _ = m.mutate(self.index);
            },
            None => {},
        }
    }

    /// Takes the value of another property, reporting the change.
    pub fn mirror(&mut self, other: &T)
        ensures
            cloned(*other, final(self).value()),
            final(self).spec_index() == old(self).spec_index(),
            (final(self).mutator() is Some) == (old(self).mutator() is Some),
            final(self).mutator() matches Some(m) ==> m.id() == old(self).mutator()->0.id()
                && m.reported() == old(self).mutator()->0.reported().push(old(self).spec_index()),
    {
        self.mutate();
        self.inner = other.clone();
    }
}

/// The value of a property of a component that lives on this side only.
#[derive(Clone)]
pub struct LocalProperty<T> {
    inner: T,
}

impl<T: Clone> LocalProperty<T> {
    pub closed spec fn value(&self) -> T {
        self.inner
    }

    pub fn new(value: T) -> (r: LocalProperty<T>)
        ensures
            r.value() == value,
    {
        LocalProperty { inner: value }
    }

    /// Takes the value of another property.
    pub fn mirror(&mut self, other: &T)
        ensures
            cloned(*other, final(self).value()),
    {
        self.inner = other.clone();
    }
}

/// The value of a property of a component the peer owns.
#[derive(Clone)]
pub struct RemoteOwnedProperty<T> {
    inner: T,
}

impl<T: Clone> RemoteOwnedProperty<T> {
    pub closed spec fn value(&self) -> T {
        self.inner
    }

    pub fn new(value: T) -> (r: RemoteOwnedProperty<T>)
        ensures
            r.value() == value,
    {
        RemoteOwnedProperty { inner: value }
    }

    /// Takes the value the peer sent.
    pub fn read(&mut self, value: T)
        ensures
            final(self).value() == value,
    {
        self.inner = value;
    }
}

/// The value of a property of a component the peer owns and this side
/// passes on to others.
#[derive(Clone)]
pub struct RemotePublicProperty<T> {
    inner: T,
    mutator: PropertyMutator,
    index: u8,
}

impl<T: Clone> RemotePublicProperty<T> {
    pub closed spec fn value(&self) -> T {
        self.inner
    }

    pub closed spec fn spec_index(&self) -> u8 {
        self.index
    }

    pub closed spec fn mutator(&self) -> PropertyMutator {
        self.mutator
    }

    pub fn new(value: T, mutator_index: u8, mutator: &PropertyMutator) -> (r: RemotePublicProperty<T>)
        ensures
            r.value() == value,
            r.spec_index() == mutator_index,
            r.mutator().id() == mutator.id(),
            r.mutator().reported() == Seq::<u8>::empty(),
    {
        RemotePublicProperty { inner: value, mutator: mutator.clone_new(), index: mutator_index }
    }

    /// Takes the value the peer sent and reports the change, so that it is
    /// passed on.
    pub fn read(&mut self, value: T)
        ensures
            final(self).value() == value,
            final(self).spec_index() == old(self).spec_index(),
            final(self).mutator().id() == old(self).mutator().id(),
            final(self).mutator().reported() == old(self).mutator().reported().push(old(self).spec_index()),
    {
        self.inner = value;
        let _ = self.mutator.mutate(self.index);
    }

    /// The value to send on.
    pub fn write(&self) -> (r: &T)
        ensures
            *r == self.value(),
    {
        &self.inner
    }
}

/// The `Debug` text of an authority status with its side.
pub open spec fn status_debug_text(status: HostEntityAuthStatus) -> Seq<char> {
    spec_status_text(status)
}

fn auth_status_text(status: HostEntityAuthStatus) -> (r: String)
    ensures
        r@ == status_debug_text(status),
{
    status_text(status)
}

/// `e` refuses `operation` for want of authority, and names a status of the
/// side `host` under which `allowed` does not hold.
pub open spec fn spec_denied(
    e: PropertyError,
    operation: &'static str,
    host: HostType,
    allowed: spec_fn(HostEntityAuthStatus) -> bool,
) -> bool {
    &&& e is InsufficientAuthority
    &&& e->InsufficientAuthority_operation == operation
    &&& exists|s: HostEntityAuthStatus|
        s.host_type == host && !allowed(s) && e->InsufficientAuthority_current_authority@
            == #[trigger] status_debug_text(s)
}

/// The value of a property of a delegated component: whoever holds authority
/// over the entity may change it.
#[derive(Clone)]
pub struct DelegatedProperty<T> {
    inner: T,
    auth_accessor: EntityAuthAccessor,
    mutator: PropertyMutator,
    index: u8,
}

impl<T: Clone> DelegatedProperty<T> {
    pub closed spec fn value(&self) -> T {
        self.inner
    }

    pub closed spec fn spec_index(&self) -> u8 {
        self.index
    }

    pub closed spec fn mutator(&self) -> PropertyMutator {
        self.mutator
    }

    /// The side of the authority record.
    pub closed spec fn auth_host(&self) -> HostType {
        self.auth_accessor.host_type()
    }

    /// Everything but the value and what was reported is as in `other`.
    pub open spec fn same_setup(&self, other: DelegatedProperty<T>) -> bool {
        &&& self.spec_index() == other.spec_index()
        &&& self.mutator().id() == other.mutator().id()
        &&& self.auth_host() == other.auth_host()
    }

    pub fn new(value: T, auth_accessor: &EntityAuthAccessor, mutator: &PropertyMutator, index: u8) -> (r:
        DelegatedProperty<T>)
        ensures
            r.value() == value,
            r.spec_index() == index,
            r.mutator().id() == mutator.id(),
            r.mutator().reported() == Seq::<u8>::empty(),
            r.auth_host() == auth_accessor.host_type(),
    {
        DelegatedProperty { inner: value, auth_accessor: auth_accessor.share(), mutator: mutator.clone_new(), index }
    }

    /// Takes the value the peer sent, where this side accepts the peer's
    /// value; otherwise nothing changes.
    pub fn read(&mut self, value: T)
        ensures
            final(self).same_setup(*old(self)),
            final(self).mutator() == old(self).mutator(),
            *final(self) == *old(self) || final(self).value() == value,
    {
        let status = self.auth_accessor.auth_status();
        if status.can_read() {
            self.inner = value;
            proof {
                crate::types::lemma_auth_write_excludes_read(status);
            }
            if status.can_mutate() {
                let _ = self.mutator.mutate(self.index);
            }
        }
    }

    /// The value to send to the peer, where this side holds authority. The
    /// authority status is read once from the shared record, which another
    /// handle may change at any time; what follows from the status read is
    /// `write_with_status`.
    pub fn try_write(&self) -> (r: Result<&T, PropertyError>)
        ensures
            r matches Ok(v) ==> *v == self.value(),
            r matches Err(e) ==> spec_denied(e, "performing write operation", self.auth_host(), |s| spec_can_write(s)),
    {
        let status = self.auth_accessor.auth_status();
        self.write_with_status(status)
    }

    /// The value to send to the peer under the authority status `status`: it
    /// is given exactly when `status` lets this side write; otherwise the
    /// refusal names `status`.
    pub fn write_with_status(&self, status: HostEntityAuthStatus) -> (r: Result<&T, PropertyError>)
        ensures
            (r is Ok) == spec_can_write(status),
            r matches Ok(v) ==> *v == self.value(),
            r matches Err(e) ==> {
                &&& e is InsufficientAuthority
                &&& e->InsufficientAuthority_operation == "performing write operation"
                &&& e->InsufficientAuthority_current_authority@ == status_debug_text(status)
            },
    {
        if !status.can_write() {
            let text = auth_status_text(status);
            let e = PropertyError::InsufficientAuthority {
                operation: "performing write operation",
                current_authority: text,
            };
            return Err(e);
        }
        Ok(&self.inner)
    }

    /// Reports a change of the value, where this side holds authority;
    /// otherwise fails and changes nothing.
    fn try_mutate(&mut self) -> (r: Result<(), PropertyError>)
        ensures
            final(self).same_setup(*old(self)),
            final(self).value() == old(self).value(),
            r is Ok ==> final(self).mutator().reported() == old(self).mutator().reported().push(old(self).spec_index()),
            r matches Err(e) ==> *final(self) == *old(self) && spec_denied(
                e,
                "mutating a Delegated Property",
                old(self).auth_host(),
                |s| spec_can_mutate(s),
            ),
    {
        let status = self.auth_accessor.auth_status();
        if !status.can_mutate() {
            let text = auth_status_text(status);
            let e = PropertyError::InsufficientAuthority {
                operation: "mutating a Delegated Property",
                current_authority: text,
            };
            proof {
                assert(status_debug_text(status) == text@);
            }
            return Err(e);
        }
        let _ = self.mutator.mutate(self.index);
        Ok(())
    }

    /// Takes the value of another property and reports the change, where this
    /// side holds authority; otherwise fails and changes nothing.
    pub fn try_mirror(&mut self, other: &T) -> (r: Result<(), PropertyError>)
        ensures
            final(self).same_setup(*old(self)),
            r is Ok ==> cloned(*other, final(self).value()) && final(self).mutator().reported()
                == old(self).mutator().reported().push(old(self).spec_index()),
            r matches Err(e) ==> *final(self) == *old(self) && spec_denied(
                e,
                "mutating a Delegated Property",
                old(self).auth_host(),
                |s| spec_can_mutate(s),
            ),
    {
        self.try_mutate()?;
        self.inner = other.clone();
        Ok(())
    }
}

enum PropertyImpl<T> {
    HostOwned(HostOwnedProperty<T>),
    RemoteOwned(RemoteOwnedProperty<T>),
    RemotePublic(RemotePublicProperty<T>),
    Delegated(DelegatedProperty<T>),
    Local(LocalProperty<T>),
}

/// A value of a component or message that is kept in sync with the peer.
pub struct Property<T> {
    inner: PropertyImpl<T>,
}

/// The property indices reported through an optional handle.
pub open spec fn spec_reported_by(m: Option<PropertyMutator>) -> Seq<u8> {
    match m {
        Some(m) => m.reported(),
        None => Seq::empty(),
    }
}

impl<T: Clone> Property<T> {
    pub closed spec fn kind(&self) -> PropertyKind {
        match self.inner {
            PropertyImpl::HostOwned(_) => PropertyKind::HostOwned,
            PropertyImpl::RemoteOwned(_) => PropertyKind::RemoteOwned,
            PropertyImpl::RemotePublic(_) => PropertyKind::RemotePublic,
            PropertyImpl::Delegated(_) => PropertyKind::Delegated,
            PropertyImpl::Local(_) => PropertyKind::Local,
        }
    }

    /// The current value.
    pub closed spec fn value(&self) -> T {
        match self.inner {
            PropertyImpl::HostOwned(p) => p.value(),
            PropertyImpl::RemoteOwned(p) => p.value(),
            PropertyImpl::RemotePublic(p) => p.value(),
            PropertyImpl::Delegated(p) => p.value(),
            PropertyImpl::Local(p) => p.value(),
        }
    }

    /// The index of the property in its component, where its kind has one.
    pub closed spec fn index(&self) -> u8 {
        match self.inner {
            PropertyImpl::HostOwned(p) => p.spec_index(),
            PropertyImpl::RemotePublic(p) => p.spec_index(),
            PropertyImpl::Delegated(p) => p.spec_index(),
            _ => 0,
        }
    }

    /// The component that changes are reported to, where there is a handle.
    pub closed spec fn mutator_id(&self) -> Option<u32> {
        match self.inner {
            PropertyImpl::HostOwned(p) => match p.mutator() {
                Some(m) => Some(m.id()),
                None => None,
            },
            PropertyImpl::RemotePublic(p) => Some(p.mutator().id()),
            PropertyImpl::Delegated(p) => Some(p.mutator().id()),
            _ => None,
        }
    }

    /// The property indices reported through the property's handle.
    pub closed spec fn reported(&self) -> Seq<u8> {
        match self.inner {
            PropertyImpl::HostOwned(p) => spec_reported_by(p.mutator()),
            PropertyImpl::RemotePublic(p) => p.mutator().reported(),
            PropertyImpl::Delegated(p) => p.mutator().reported(),
            _ => Seq::empty(),
        }
    }

    /// The side of the authority record, for a delegated property.
    pub closed spec fn auth_host(&self) -> Option<HostType> {
        match self.inner {
            PropertyImpl::Delegated(p) => Some(p.auth_host()),
            _ => None,
        }
    }

    /// A local property with the value `value`.
    pub fn new_local(value: T) -> (r: Property<T>)
        ensures
            r.kind() == PropertyKind::Local,
            r.value() == value,
            r.mutator_id() is None,
            r.reported() == Seq::<u8>::empty(),
    {
        Property { inner: PropertyImpl::Local(LocalProperty::new(value)) }
    }

    /// A property of a component this side owns, at index `mutator_index`,
    /// with no handle to report changes through yet.
    pub fn host_owned(value: T, mutator_index: u8) -> (r: Property<T>)
        ensures
            r.kind() == PropertyKind::HostOwned,
            r.value() == value,
            r.index() == mutator_index,
            r.mutator_id() is None,
            r.reported() == Seq::<u8>::empty(),
    {
        Property { inner: PropertyImpl::HostOwned(HostOwnedProperty::new(value, mutator_index)) }
    }

    /// A property of a component the peer owns, holding `value`, the value
    /// read from the peer's data.
    pub fn new_read(value: T) -> (r: Property<T>)
        ensures
            r.kind() == PropertyKind::RemoteOwned,
            r.value() == value,
            r.mutator_id() is None,
            r.reported() == Seq::<u8>::empty(),
    {
        Property { inner: PropertyImpl::RemoteOwned(RemoteOwnedProperty::new(value)) }
    }

    /// The current value.
    pub fn deref(&self) -> (r: &T)
        ensures
            *r == self.value(),
    {
        match &self.inner {
            PropertyImpl::HostOwned(p) => &p.inner,
            PropertyImpl::RemoteOwned(p) => &p.inner,
            PropertyImpl::RemotePublic(p) => &p.inner,
            PropertyImpl::Delegated(p) => &p.inner,
            PropertyImpl::Local(p) => &p.inner,
        }
    }
}

/// The name of a kind, as errors give it.
pub open spec fn spec_kind_name(kind: PropertyKind) -> &'static str {
    match kind {
        PropertyKind::HostOwned => "HostOwned",
        PropertyKind::RemoteOwned => "RemoteOwned",
        PropertyKind::RemotePublic => "RemotePublic",
        PropertyKind::Delegated => "Delegated",
        PropertyKind::Local => "Local",
    }
}

/// Everything but the value is as in `b`.
pub open spec fn spec_same_but_value<T: Clone>(a: Property<T>, b: Property<T>) -> bool {
    &&& a.kind() == b.kind()
    &&& a.index() == b.index()
    &&& a.mutator_id() == b.mutator_id()
    &&& a.reported() == b.reported()
    &&& a.auth_host() == b.auth_host()
}

/// `after` is `before` with a change reported through its handle, if it has
/// one; the value aside.
pub open spec fn spec_change_reported<T: Clone>(before: Property<T>, after: Property<T>) -> bool {
    &&& after.kind() == before.kind()
    &&& after.index() == before.index()
    &&& after.mutator_id() == before.mutator_id()
    &&& after.auth_host() == before.auth_host()
    &&& after.reported() == (if before.mutator_id() is Some {
        before.reported().push(before.index())
    } else {
        before.reported()
    })
}

/// The error of `set_mutator` on a property of kind `kind`, other than host-owned.
pub open spec fn spec_set_mutator_error(kind: PropertyKind) -> PropertyError {
    match kind {
        PropertyKind::Delegated => PropertyError::InvalidMutatorOperation {
            property_type: "Delegated",
            operation: "call set_mutator()",
        },
        PropertyKind::Local => PropertyError::InvalidMutatorOperation {
            property_type: "Local",
            operation: "have a mutator",
        },
        _ => PropertyError::InvalidMutatorOperation { property_type: "Remote", operation: "call set_mutator()" },
    }
}

/// The error of writing a remote-owned or a local property.
pub open spec fn spec_write_error(kind: PropertyKind) -> PropertyError {
    match kind {
        PropertyKind::Local => PropertyError::InvalidWriteOperation { property_type: "Local" },
        _ => PropertyError::InvalidWriteOperation { property_type: "Remote Private" },
    }
}

/// The error of reading into a host-owned or a local property.
pub open spec fn spec_read_error(kind: PropertyKind) -> PropertyError {
    match kind {
        PropertyKind::Local => PropertyError::InvalidReadOperation { property_type: "Local" },
        _ => PropertyError::InvalidReadOperation { property_type: "Host" },
    }
}

/// The error of a read, on a property of kind `kind` that takes reads, whose
/// value could not be read.
pub open spec fn spec_undecoded_error(kind: PropertyKind) -> PropertyError {
    match kind {
        PropertyKind::RemoteOwned => PropertyError::InvalidReadOperation { property_type: "RemoteOwned (SerdeErr)" },
        PropertyKind::RemotePublic => PropertyError::InvalidReadOperation { property_type: "RemotePublic (SerdeErr)" },
        _ => PropertyError::InvalidReadOperation { property_type: "Delegated (SerdeErr)" },
    }
}

/// The kind is one of the two kinds of a component the peer owns.
pub open spec fn spec_is_remote(kind: PropertyKind) -> bool {
    kind == PropertyKind::RemoteOwned || kind == PropertyKind::RemotePublic
}

/// The error of making a property of kind `kind`, other than remote-owned, public.
pub open spec fn spec_publish_error(kind: PropertyKind) -> PropertyError {
    match kind {
        PropertyKind::RemotePublic => PropertyError::InvalidStateTransition {
            from_state: "RemotePublic",
            to_state: "RemotePublic",
            operation: "be made public twice",
        },
        _ => PropertyError::InvalidStateTransition {
            from_state: spec_kind_name(kind),
            to_state: "RemotePublic",
            operation: "be made public",
        },
    }
}

/// The error of making a property of kind `kind`, other than remote-public, private.
pub open spec fn spec_unpublish_error(kind: PropertyKind) -> PropertyError {
    match kind {
        PropertyKind::RemoteOwned => PropertyError::InvalidStateTransition {
            from_state: "RemoteOwned",
            to_state: "RemoteOwned",
            operation: "be unpublished (already private)",
        },
        _ => PropertyError::InvalidStateTransition {
            from_state: spec_kind_name(kind),
            to_state: "RemoteOwned",
            operation: "be unpublished",
        },
    }
}

/// The error of disabling delegation on a property of kind `kind`, other than delegated.
pub open spec fn spec_disable_delegation_error(kind: PropertyKind) -> PropertyError {
    PropertyError::InvalidStateTransition {
        from_state: spec_kind_name(kind),
        to_state: "HostOwned",
        operation: "disable delegation (not delegated)",
    }
}

/// The error of making a property of kind `kind`, other than host-owned, local.
pub open spec fn spec_localize_error(kind: PropertyKind) -> PropertyError {
    match kind {
        PropertyKind::Local => PropertyError::InvalidStateTransition {
            from_state: "Local",
            to_state: "Local",
            operation: "be made local twice",
        },
        PropertyKind::Delegated => PropertyError::InvalidStateTransition {
            from_state: "Delegated",
            to_state: "Local",
            operation: "be made local",
        },
        _ => PropertyError::InvalidStateTransition {
            from_state: "Remote",
            to_state: "Local",
            operation: "be made local",
        },
    }
}

/// The index and the component of the handle a property would be delegated
/// with, given the mutator argument; `None` where delegation is refused.
pub open spec fn spec_delegation_source<T: Clone>(p: Property<T>, mutator_arg: Option<(u8, u32)>) -> Option<
    (u8, u32),
> {
    match mutator_arg {
        Some(a) => if p.kind() == PropertyKind::RemoteOwned {
            Some(a)
        } else {
            None
        },
        None => match p.kind() {
            PropertyKind::HostOwned => match p.mutator_id() {
                Some(id) => Some((p.index(), id)),
                None => None,
            },
            PropertyKind::RemotePublic => Some((p.index(), p.mutator_id()->0)),
            _ => None,
        },
    }
}

/// The error of enabling delegation on a property of kind `kind`, with or
/// without a mutator argument, where it is refused.
pub open spec fn spec_enable_delegation_error(kind: PropertyKind, with_mutator: bool) -> PropertyError {
    if with_mutator {
        PropertyError::InvalidStateTransition {
            from_state: spec_kind_name(kind),
            to_state: "Delegated",
            operation: "enable delegation this way (with mutator parameter)",
        }
    } else if kind == PropertyKind::HostOwned {
        PropertyError::InvalidStateTransition {
            from_state: "HostOwned",
            to_state: "Delegated",
            operation: "enable delegation (mutator not set)",
        }
    } else {
        PropertyError::InvalidStateTransition {
            from_state: spec_kind_name(kind),
            to_state: "Delegated",
            operation: "enable delegation this way (without mutator parameter)",
        }
    }
}

impl<T: Clone> Property<T> {
    /// Gives a host-owned property its own handle on the channel of
    /// `mutator`; fails, changing nothing, for every other kind.
    pub fn try_set_mutator(&mut self, mutator: &PropertyMutator) -> (r: Result<(), PropertyError>)
        ensures
            r is Ok <==> old(self).kind() == PropertyKind::HostOwned,
            r matches Err(e) ==> e == spec_set_mutator_error(old(self).kind()) && *final(self) == *old(self),
            r is Ok ==> {
                &&& final(self).kind() == PropertyKind::HostOwned
                &&& final(self).value() == old(self).value()
                &&& final(self).index() == old(self).index()
                &&& final(self).mutator_id() == Some(mutator.id())
                &&& final(self).reported() == Seq::<u8>::empty()
                &&& final(self).auth_host() is None
            },
    {
        match &mut self.inner {
            PropertyImpl::HostOwned(inner) => {
                inner.set_mutator(mutator);
                Ok(())
            },
            PropertyImpl::RemoteOwned(_) | PropertyImpl::RemotePublic(_) => {
                Err(PropertyError::InvalidMutatorOperation { property_type: "Remote", operation: "call set_mutator()" })
            },
            PropertyImpl::Delegated(_) => {
                Err(PropertyError::InvalidMutatorOperation { property_type: "Delegated", operation: "call set_mutator()" })
            },
            PropertyImpl::Local(_) => {
                Err(PropertyError::InvalidMutatorOperation { property_type: "Local", operation: "have a mutator" })
            },
        }
    }

    /// Gives a host-owned property its own handle on the channel of `mutator`.
    pub fn set_mutator(&mut self, mutator: &PropertyMutator)
        requires
            old(self).kind() == PropertyKind::HostOwned,
        ensures
            final(self).kind() == PropertyKind::HostOwned,
            final(self).value() == old(self).value(),
            final(self).index() == old(self).index(),
            final(self).mutator_id() == Some(mutator.id()),
            final(self).reported() == Seq::<u8>::empty(),
            final(self).auth_host() is None,
    {
        let _ = self.try_set_mutator(mutator);
    }

    /// The value to send to the peer: a host-owned or remote-public property
    /// always sends it, a delegated one where this side holds authority, and
    /// a remote-owned or local one never does.
    pub fn try_write(&self) -> (r: Result<&T, PropertyError>)
        ensures
            r matches Ok(v) ==> *v == self.value(),
            self.kind() == PropertyKind::HostOwned || self.kind() == PropertyKind::RemotePublic ==> r is Ok,
            self.kind() == PropertyKind::RemoteOwned || self.kind() == PropertyKind::Local ==> r == Err::<
                &T,
                PropertyError,
            >(spec_write_error(self.kind())),
            self.kind() == PropertyKind::Delegated ==> (r matches Err(e) ==> spec_denied(
                e,
                "performing write operation",
                self.auth_host()->0,
                |s| spec_can_write(s),
            )),
    {
        match &self.inner {
            PropertyImpl::HostOwned(inner) => Ok(&inner.inner),
            PropertyImpl::RemoteOwned(_) => Err(PropertyError::InvalidWriteOperation { property_type: "Remote Private" }),
            PropertyImpl::RemotePublic(inner) => Ok(inner.write()),
            PropertyImpl::Local(_) => Err(PropertyError::InvalidWriteOperation { property_type: "Local" }),
            PropertyImpl::Delegated(inner) => inner.try_write(),
        }
    }

    /// Takes `decoded`, the value read from the peer's data, or `None` where
    /// it could not be read: a host-owned or local property refuses any read;
    /// every other kind fails on a value that could not be read, changing
    /// nothing. Otherwise a remote-owned property takes the value, a
    /// remote-public one takes it and reports the change so that it is passed
    /// on, and a delegated one takes it where this side accepts the peer's
    /// value.
    pub fn try_read(&mut self, decoded: Option<T>) -> (r: Result<(), PropertyError>)
        ensures
            old(self).kind() == PropertyKind::HostOwned || old(self).kind() == PropertyKind::Local ==> r == Err::<
                (),
                PropertyError,
            >(spec_read_error(old(self).kind())) && *final(self) == *old(self),
            old(self).kind() != PropertyKind::HostOwned && old(self).kind() != PropertyKind::Local && decoded is None
                ==> r == Err::<(), PropertyError>(spec_undecoded_error(old(self).kind())) && *final(self) == *old(self),
            decoded matches Some(value) ==> {
                &&& old(self).kind() == PropertyKind::RemoteOwned ==> r is Ok && spec_same_but_value(
                    *final(self),
                    *old(self),
                ) && final(self).value() == value
                &&& old(self).kind() == PropertyKind::RemotePublic ==> r is Ok && spec_change_reported(
                    *old(self),
                    *final(self),
                ) && final(self).value() == value
                &&& old(self).kind() == PropertyKind::Delegated ==> r is Ok && (*final(self) == *old(self) || (
                spec_same_but_value(*final(self), *old(self)) && final(self).value() == value))
            },
    {
        match &mut self.inner {
            PropertyImpl::HostOwned(_) => Err(PropertyError::InvalidReadOperation { property_type: "Host" }),
            PropertyImpl::RemoteOwned(inner) => match decoded {
                Some(value) => {
                    inner.read(value);
                    Ok(())
                },
                None => Err(PropertyError::InvalidReadOperation { property_type: "RemoteOwned (SerdeErr)" }),
            },
            PropertyImpl::RemotePublic(inner) => match decoded {
                Some(value) => {
                    inner.read(value);
                    Ok(())
                },
                None => Err(PropertyError::InvalidReadOperation { property_type: "RemotePublic (SerdeErr)" }),
            },
            PropertyImpl::Local(_) => Err(PropertyError::InvalidReadOperation { property_type: "Local" }),
            PropertyImpl::Delegated(inner) => match decoded {
                Some(value) => {
                    inner.read(value);
                    Ok(())
                },
                None => Err(PropertyError::InvalidReadOperation { property_type: "Delegated (SerdeErr)" }),
            },
        }
    }

    /// As `try_read`, on a property that takes values from the peer.
    pub fn read(&mut self, value: T)
        requires
            old(self).kind() != PropertyKind::HostOwned,
            old(self).kind() != PropertyKind::Local,
        ensures
            old(self).kind() == PropertyKind::RemoteOwned ==> spec_same_but_value(*final(self), *old(self))
                && final(self).value() == value,
            old(self).kind() == PropertyKind::RemotePublic ==> spec_change_reported(*old(self), *final(self))
                && final(self).value() == value,
            old(self).kind() == PropertyKind::Delegated ==> *final(self) == *old(self) || (spec_same_but_value(
                *final(self),
                *old(self),
            ) && final(self).value() == value),
    {
        let _ = self.try_read(Some(value));
    }

    /// Whether the two values are equal.
    pub fn equals(&self, other: &Property<T>) -> (r: bool)
        where
            T: PartialEq,
        ensures
            T::obeys_eq_spec() ==> r == self.value().eq_spec(&other.value()),
    {
        self.deref() == other.deref()
    }
}

impl<T: Clone> Property<T> {
    /// Takes the value of `other`: a host-owned property reports the change,
    /// a local one just takes it, a delegated one takes it and reports the
    /// change where this side holds authority and otherwise fails changing
    /// nothing, and a remote property refuses.
    pub fn try_mirror(&mut self, other: &Property<T>) -> (r: Result<(), PropertyError>)
        ensures
            spec_is_remote(old(self).kind()) ==> r == Err::<(), PropertyError>(
                PropertyError::InvalidMirrorOperation { property_type: "Remote" },
            ) && *final(self) == *old(self),
            !spec_is_remote(old(self).kind()) && old(self).kind() != PropertyKind::Delegated ==> r is Ok,
            r is Ok ==> spec_change_reported(*old(self), *final(self)) && cloned(other.value(), final(self).value()),
            old(self).kind() == PropertyKind::Delegated ==> (r matches Err(e) ==> *final(self) == *old(self)
                && spec_denied(e, "mutating a Delegated Property", old(self).auth_host()->0, |s| spec_can_mutate(s))),
    {
        let other_inner = other.deref();
        match &mut self.inner {
            PropertyImpl::HostOwned(inner) => {
                inner.mirror(other_inner);
                Ok(())
            },
            PropertyImpl::RemoteOwned(_) | PropertyImpl::RemotePublic(_) => {
                Err(PropertyError::InvalidMirrorOperation { property_type: "Remote" })
            },
            PropertyImpl::Delegated(inner) => inner.try_mirror(other_inner),
            PropertyImpl::Local(inner) => {
                inner.mirror(other_inner);
                Ok(())
            },
        }
    }

    /// As `try_mirror`, on a property that is not remote. A delegated property
    /// over which this side holds no authority is left as it is.
    pub fn mirror(&mut self, other: &Property<T>)
        requires
            !spec_is_remote(old(self).kind()),
        ensures
            old(self).kind() != PropertyKind::Delegated ==> spec_change_reported(*old(self), *final(self)) && cloned(
                other.value(),
                final(self).value(),
            ),
            old(self).kind() == PropertyKind::Delegated ==> *final(self) == *old(self) || (spec_change_reported(
                *old(self),
                *final(self),
            ) && cloned(other.value(), final(self).value())),
    {
        let _ = self.try_mirror(other);
    }

    /// Makes a remote-owned property public: it keeps its value and reports
    /// its changes, at index `mutator_index`, through a new handle on the
    /// channel of `mutator`. Fails, changing nothing, for every other kind.
    pub fn try_remote_publish(&mut self, mutator_index: u8, mutator: &PropertyMutator) -> (r: Result<
        (),
        PropertyError,
    >)
        ensures
            spec_publish_outcome(*old(self), *final(self), mutator_index, mutator.id(), r),
    {
        let next = match &self.inner {
            PropertyImpl::HostOwned(_) => {
                return Err(
                    PropertyError::InvalidStateTransition {
                        from_state: "HostOwned",
                        to_state: "RemotePublic",
                        operation: "be made public",
                    },
                );
            },
            PropertyImpl::RemoteOwned(inner) => {
                let inner_value = inner.inner.clone();
                RemotePublicProperty::new(inner_value, mutator_index, mutator)
            },
            PropertyImpl::RemotePublic(_) => {
                return Err(
                    PropertyError::InvalidStateTransition {
                        from_state: "RemotePublic",
                        to_state: "RemotePublic",
                        operation: "be made public twice",
                    },
                );
            },
            PropertyImpl::Local(_) => {
                return Err(
                    PropertyError::InvalidStateTransition {
                        from_state: "Local",
                        to_state: "RemotePublic",
                        operation: "be made public",
                    },
                );
            },
            PropertyImpl::Delegated(_) => {
                return Err(
                    PropertyError::InvalidStateTransition {
                        from_state: "Delegated",
                        to_state: "RemotePublic",
                        operation: "be made public",
                    },
                );
            },
        };
        self.inner = PropertyImpl::RemotePublic(next);
        Ok(())
    }

    /// As `try_remote_publish`, on a remote-owned property.
    pub fn remote_publish(&mut self, mutator_index: u8, mutator: &PropertyMutator)
        requires
            old(self).kind() == PropertyKind::RemoteOwned,
        ensures
            final(self).kind() == PropertyKind::RemotePublic,
            cloned(old(self).value(), final(self).value()),
            final(self).index() == mutator_index,
            final(self).mutator_id() == Some(mutator.id()),
            final(self).reported() == Seq::<u8>::empty(),
            final(self).auth_host() is None,
    {
        let _ = self.try_remote_publish(mutator_index, mutator);
    }

    /// Makes a remote-public property private again, keeping its value.
    /// Fails, changing nothing, for every other kind.
    pub fn try_remote_unpublish(&mut self) -> (r: Result<(), PropertyError>)
        ensures
            spec_unpublish_outcome(*old(self), *final(self), r),
    {
        let next = match &self.inner {
            PropertyImpl::HostOwned(_) => {
                return Err(
                    PropertyError::InvalidStateTransition {
                        from_state: "HostOwned",
                        to_state: "RemoteOwned",
                        operation: "be unpublished",
                    },
                );
            },
            PropertyImpl::RemoteOwned(_) => {
                return Err(
                    PropertyError::InvalidStateTransition {
                        from_state: "RemoteOwned",
                        to_state: "RemoteOwned",
                        operation: "be unpublished (already private)",
                    },
                );
            },
            PropertyImpl::RemotePublic(inner) => {
                let inner_value = inner.inner.clone();
                RemoteOwnedProperty::new(inner_value)
            },
            PropertyImpl::Local(_) => {
                return Err(
                    PropertyError::InvalidStateTransition {
                        from_state: "Local",
                        to_state: "RemoteOwned",
                        operation: "be unpublished",
                    },
                );
            },
            PropertyImpl::Delegated(_) => {
                return Err(
                    PropertyError::InvalidStateTransition {
                        from_state: "Delegated",
                        to_state: "RemoteOwned",
                        operation: "be unpublished",
                    },
                );
            },
        };
        self.inner = PropertyImpl::RemoteOwned(next);
        Ok(())
    }

    /// As `try_remote_unpublish`, on a remote-public property.
    pub fn remote_unpublish(&mut self)
        requires
            old(self).kind() == PropertyKind::RemotePublic,
        ensures
            final(self).kind() == PropertyKind::RemoteOwned,
            cloned(old(self).value(), final(self).value()),
            final(self).index() == 0,
            final(self).mutator_id() is None,
            final(self).reported() == Seq::<u8>::empty(),
            final(self).auth_host() is None,
    {
        let _ = self.try_remote_unpublish();
    }
}

impl<T: Clone> Property<T> {
    /// Makes the property delegated, under the authority record read through
    /// `accessor`. With a mutator argument `(index, mutator)` only a
    /// remote-owned property can be delegated, and reports through a new
    /// handle on `mutator` at `index`; without one, a host-owned property
    /// that has a handle, or a remote-public property, keeps reporting to
    /// its component at its index. Otherwise fails, changing nothing.
    pub fn try_enable_delegation(
        &mut self,
        accessor: &EntityAuthAccessor,
        mutator_opt: Option<(u8, &PropertyMutator)>,
    ) -> (r: Result<(), PropertyError>)
        ensures
            spec_enable_delegation_outcome(
                *old(self),
                *final(self),
                accessor.host_type(),
                spec_mutator_arg(mutator_opt),
                r,
            ),
    {
        let value = self.deref().clone();
        let next = match mutator_opt {
            Some((mutator_index, mutator)) => match &self.inner {
                PropertyImpl::RemoteOwned(_) => DelegatedProperty::new(value, accessor, mutator, mutator_index),
                PropertyImpl::Local(_) => {
                    return Err(
                        PropertyError::InvalidStateTransition {
                            from_state: "Local",
                            to_state: "Delegated",
                            operation: "enable delegation this way (with mutator parameter)",
                        },
                    );
                },
                PropertyImpl::RemotePublic(_) => {
                    return Err(
                        PropertyError::InvalidStateTransition {
                            from_state: "RemotePublic",
                            to_state: "Delegated",
                            operation: "enable delegation this way (with mutator parameter)",
                        },
                    );
                },
                PropertyImpl::HostOwned(_) => {
                    return Err(
                        PropertyError::InvalidStateTransition {
                            from_state: "HostOwned",
                            to_state: "Delegated",
                            operation: "enable delegation this way (with mutator parameter)",
                        },
                    );
                },
                PropertyImpl::Delegated(_) => {
                    return Err(
                        PropertyError::InvalidStateTransition {
                            from_state: "Delegated",
                            to_state: "Delegated",
                            operation: "enable delegation this way (with mutator parameter)",
                        },
                    );
                },
            },
            None => match &self.inner {
                PropertyImpl::HostOwned(inner) => match &inner.mutator {
                    Some(mutator) => DelegatedProperty::new(value, accessor, mutator, inner.index),
                    None => {
                        return Err(
                            PropertyError::InvalidStateTransition {
                                from_state: "HostOwned",
                                to_state: "Delegated",
                                operation: "enable delegation (mutator not set)",
                            },
                        );
                    },
                },
                PropertyImpl::RemotePublic(inner) => DelegatedProperty::new(
                    value,
                    accessor,
                    &inner.mutator,
                    inner.index,
                ),
                PropertyImpl::RemoteOwned(_) => {
                    return Err(
                        PropertyError::InvalidStateTransition {
                            from_state: "RemoteOwned",
                            to_state: "Delegated",
                            operation: "enable delegation this way (without mutator parameter)",
                        },
                    );
                },
                PropertyImpl::Delegated(_) => {
                    return Err(
                        PropertyError::InvalidStateTransition {
                            from_state: "Delegated",
                            to_state: "Delegated",
                            operation: "enable delegation this way (without mutator parameter)",
                        },
                    );
                },
                PropertyImpl::Local(_) => {
                    return Err(
                        PropertyError::InvalidStateTransition {
                            from_state: "Local",
                            to_state: "Delegated",
                            operation: "enable delegation this way (without mutator parameter)",
                        },
                    );
                },
            },
        };
        self.inner = PropertyImpl::Delegated(next);
        Ok(())
    }

    /// As `try_enable_delegation`, where delegation is possible.
    pub fn enable_delegation(&mut self, accessor: &EntityAuthAccessor, mutator_opt: Option<(u8, &PropertyMutator)>)
        requires
            spec_delegation_source(*old(self), spec_mutator_arg(mutator_opt)) is Some,
        ensures
            ({
                let source = spec_delegation_source(*old(self), spec_mutator_arg(mutator_opt))->0;
                &&& final(self).kind() == PropertyKind::Delegated
                &&& cloned(old(self).value(), final(self).value())
                &&& final(self).index() == source.0
                &&& final(self).mutator_id() == Some(source.1)
                &&& final(self).reported() == Seq::<u8>::empty()
                &&& final(self).auth_host() == Some(accessor.host_type())
            }),
    {
        let _ = self.try_enable_delegation(accessor, mutator_opt);
    }

    /// Makes a delegated property host-owned again: it keeps its value, its
    /// index and its component, through a new handle. Fails, changing
    /// nothing, for every other kind.
    pub fn try_disable_delegation(&mut self) -> (r: Result<(), PropertyError>)
        ensures
            spec_disable_delegation_outcome(*old(self), *final(self), r),
    {
        let next = match &self.inner {
            PropertyImpl::HostOwned(_) => {
                return Err(
                    PropertyError::InvalidStateTransition {
                        from_state: "HostOwned",
                        to_state: "HostOwned",
                        operation: "disable delegation (not delegated)",
                    },
                );
            },
            PropertyImpl::RemoteOwned(_) => {
                return Err(
                    PropertyError::InvalidStateTransition {
                        from_state: "RemoteOwned",
                        to_state: "HostOwned",
                        operation: "disable delegation (not delegated)",
                    },
                );
            },
            PropertyImpl::RemotePublic(_) => {
                return Err(
                    PropertyError::InvalidStateTransition {
                        from_state: "RemotePublic",
                        to_state: "HostOwned",
                        operation: "disable delegation (not delegated)",
                    },
                );
            },
            PropertyImpl::Local(_) => {
                return Err(
                    PropertyError::InvalidStateTransition {
                        from_state: "Local",
                        to_state: "HostOwned",
                        operation: "disable delegation (not delegated)",
                    },
                );
            },
            PropertyImpl::Delegated(inner) => {
                let inner_value = inner.inner.clone();
                let mut new_inner = HostOwnedProperty::new(inner_value, inner.index);
                new_inner.set_mutator(&inner.mutator);
                new_inner
            },
        };
        self.inner = PropertyImpl::HostOwned(next);
        Ok(())
    }

    /// As `try_disable_delegation`, on a delegated property.
    pub fn disable_delegation(&mut self)
        requires
            old(self).kind() == PropertyKind::Delegated,
        ensures
            final(self).kind() == PropertyKind::HostOwned,
            cloned(old(self).value(), final(self).value()),
            final(self).index() == old(self).index(),
            final(self).mutator_id() == old(self).mutator_id(),
            final(self).reported() == Seq::<u8>::empty(),
            final(self).auth_host() is None,
    {
        let _ = self.try_disable_delegation();
    }

    /// Makes a host-owned property local, keeping its value. Fails, changing
    /// nothing, for every other kind.
    pub fn try_localize(&mut self) -> (r: Result<(), PropertyError>)
        ensures
            spec_localize_outcome(*old(self), *final(self), r),
    {
        let next = match &self.inner {
            PropertyImpl::HostOwned(inner) => {
                let inner_value = inner.inner.clone();
                LocalProperty::new(inner_value)
            },
            PropertyImpl::RemoteOwned(_) | PropertyImpl::RemotePublic(_) => {
                return Err(
                    PropertyError::InvalidStateTransition {
                        from_state: "Remote",
                        to_state: "Local",
                        operation: "be made local",
                    },
                );
            },
            PropertyImpl::Local(_) => {
                return Err(
                    PropertyError::InvalidStateTransition {
                        from_state: "Local",
                        to_state: "Local",
                        operation: "be made local twice",
                    },
                );
            },
            PropertyImpl::Delegated(_) => {
                return Err(
                    PropertyError::InvalidStateTransition {
                        from_state: "Delegated",
                        to_state: "Local",
                        operation: "be made local",
                    },
                );
            },
        };
        self.inner = PropertyImpl::Local(next);
        Ok(())
    }

    /// As `try_localize`, on a host-owned property.
    pub fn localize(&mut self)
        requires
            old(self).kind() == PropertyKind::HostOwned,
        ensures
            final(self).kind() == PropertyKind::Local,
            cloned(old(self).value(), final(self).value()),
            final(self).index() == 0,
            final(self).mutator_id() is None,
            final(self).reported() == Seq::<u8>::empty(),
            final(self).auth_host() is None,
    {
        let _ = self.try_localize();
    }
}

impl<T: Clone> Property<T> {
    /// Write access to the value: a host-owned property reports the change
    /// first, a local one gives access as it is, a delegated one reports the
    /// change where this side holds authority and otherwise fails changing
    /// nothing, and a remote property refuses.
    pub fn try_deref_mut(&mut self) -> (r: Result<&mut T, PropertyError>)
        ensures
            spec_is_remote(old(self).kind()) ==> r is Err && r->Err_0 == (PropertyError::InvalidMutableAccess {
                property_type: "Remote",
            }) && *final(self) == *old(self),
            !spec_is_remote(old(self).kind()) && old(self).kind() != PropertyKind::Delegated ==> r is Ok,
            r matches Ok(v) ==> *v == old(self).value() && spec_change_reported(*old(self), *final(self))
                && final(self).value() == *final(v),
            old(self).kind() == PropertyKind::Delegated ==> (r matches Err(e) ==> *final(self) == *old(self)
                && spec_denied(e, "mutating a Delegated Property", old(self).auth_host()->0, |s| spec_can_mutate(s))),
    {
        match &mut self.inner {
            PropertyImpl::HostOwned(inner) => {
                inner.mutate();
                Ok(&mut inner.inner)
            },
            PropertyImpl::RemoteOwned(_) | PropertyImpl::RemotePublic(_) => {
                Err(PropertyError::InvalidMutableAccess { property_type: "Remote" })
            },
            PropertyImpl::Local(inner) => Ok(&mut inner.inner),
            PropertyImpl::Delegated(inner) => {
                match inner.try_mutate() {
                    Ok(()) => Ok(&mut inner.inner),
                    Err(e) => Err(e),
                }
            },
        }
    }
}

/// The outcome `r`, and `after`, of making `before` public with a handle on
/// component `mutator` at `index`.
pub open spec fn spec_publish_outcome<T: Clone>(
    before: Property<T>,
    after: Property<T>,
    index: u8,
    mutator: u32,
    r: Result<(), PropertyError>,
) -> bool {
    &&& (r is Ok <==> before.kind() == PropertyKind::RemoteOwned)
    &&& (r matches Err(e) ==> e == spec_publish_error(before.kind()) && after == before)
    &&& (r is Ok ==> {
        &&& after.kind() == PropertyKind::RemotePublic
        &&& cloned(before.value(), after.value())
        &&& after.index() == index
        &&& after.mutator_id() == Some(mutator)
        &&& after.reported() == Seq::<u8>::empty()
        &&& after.auth_host() is None
    })
}

/// The outcome `r`, and `after`, of making `before` private.
pub open spec fn spec_unpublish_outcome<T: Clone>(
    before: Property<T>,
    after: Property<T>,
    r: Result<(), PropertyError>,
) -> bool {
    &&& (r is Ok <==> before.kind() == PropertyKind::RemotePublic)
    &&& (r matches Err(e) ==> e == spec_unpublish_error(before.kind()) && after == before)
    &&& (r is Ok ==> {
        &&& after.kind() == PropertyKind::RemoteOwned
        &&& cloned(before.value(), after.value())
        &&& after.index() == 0
        &&& after.mutator_id() is None
        &&& after.reported() == Seq::<u8>::empty()
        &&& after.auth_host() is None
    })
}

/// The outcome `r`, and `after`, of delegating `before` under an authority
/// record of side `host`, with the given mutator argument.
pub open spec fn spec_enable_delegation_outcome<T: Clone>(
    before: Property<T>,
    after: Property<T>,
    host: HostType,
    mutator_arg: Option<(u8, u32)>,
    r: Result<(), PropertyError>,
) -> bool {
    &&& (r is Ok <==> spec_delegation_source(before, mutator_arg) is Some)
    &&& (r matches Err(e) ==> e == spec_enable_delegation_error(before.kind(), mutator_arg is Some) && after
        == before)
    &&& (r is Ok ==> {
        let source = spec_delegation_source(before, mutator_arg)->0;
        &&& after.kind() == PropertyKind::Delegated
        &&& cloned(before.value(), after.value())
        &&& after.index() == source.0
        &&& after.mutator_id() == Some(source.1)
        &&& after.reported() == Seq::<u8>::empty()
        &&& after.auth_host() == Some(host)
    })
}

/// The outcome `r`, and `after`, of ending the delegation of `before`.
pub open spec fn spec_disable_delegation_outcome<T: Clone>(
    before: Property<T>,
    after: Property<T>,
    r: Result<(), PropertyError>,
) -> bool {
    &&& (r is Ok <==> before.kind() == PropertyKind::Delegated)
    &&& (r matches Err(e) ==> e == spec_disable_delegation_error(before.kind()) && after == before)
    &&& (r is Ok ==> {
        &&& after.kind() == PropertyKind::HostOwned
        &&& cloned(before.value(), after.value())
        &&& after.index() == before.index()
        &&& after.mutator_id() == before.mutator_id()
        &&& after.reported() == Seq::<u8>::empty()
        &&& after.auth_host() is None
    })
}

/// The outcome `r`, and `after`, of making `before` local.
pub open spec fn spec_localize_outcome<T: Clone>(
    before: Property<T>,
    after: Property<T>,
    r: Result<(), PropertyError>,
) -> bool {
    &&& (r is Ok <==> before.kind() == PropertyKind::HostOwned)
    &&& (r matches Err(e) ==> e == spec_localize_error(before.kind()) && after == before)
    &&& (r is Ok ==> {
        &&& after.kind() == PropertyKind::Local
        &&& cloned(before.value(), after.value())
        &&& after.index() == 0
        &&& after.mutator_id() is None
        &&& after.reported() == Seq::<u8>::empty()
        &&& after.auth_host() is None
    })
}

/// Making a private property of the peer public and then private again gives
/// back a private property of the peer, whose value is a clone of a clone of
/// the first: the first itself where cloning keeps a value.
pub proof fn lemma_property_publish_round_trip<T: Clone>(
    p0: Property<T>,
    p1: Property<T>,
    p2: Property<T>,
    index: u8,
    mutator: u32,
    r1: Result<(), PropertyError>,
    r2: Result<(), PropertyError>,
)
    requires
        p0.kind() == PropertyKind::RemoteOwned,
        spec_publish_outcome(p0, p1, index, mutator, r1),
        spec_unpublish_outcome(p1, p2, r2),
    ensures
        r1 is Ok,
        r2 is Ok,
        spec_same_but_value(p2, p0),
        p2.kind() == PropertyKind::RemoteOwned,
        cloned(p0.value(), p1.value()) && cloned(p1.value(), p2.value()),
        (forall|a: T, b: T| #[trigger] cloned(a, b) ==> a == b) ==> p2.value() == p0.value(),
{
}

/// Delegating a property owned here that has a handle, and then ending the
/// delegation, gives back a property owned here at the same index, reporting
/// to the same component, whose value is a clone of a clone of the first:
/// the first itself where cloning keeps a value.
pub proof fn lemma_property_delegation_round_trip<T: Clone>(
    p0: Property<T>,
    p1: Property<T>,
    p2: Property<T>,
    host: HostType,
    r1: Result<(), PropertyError>,
    r2: Result<(), PropertyError>,
)
    requires
        p0.kind() == PropertyKind::HostOwned,
        p0.mutator_id() is Some,
        spec_enable_delegation_outcome(p0, p1, host, None, r1),
        spec_disable_delegation_outcome(p1, p2, r2),
    ensures
        r1 is Ok,
        r2 is Ok,
        p2.kind() == PropertyKind::HostOwned,
        p2.index() == p0.index(),
        p2.mutator_id() == p0.mutator_id(),
        p2.auth_host() is None,
        cloned(p0.value(), p1.value()) && cloned(p1.value(), p2.value()),
        (forall|a: T, b: T| #[trigger] cloned(a, b) ==> a == b) ==> p2.value() == p0.value(),
{
}

/// A local property stays local: it refuses to be made public, private,
/// delegated (with or without a mutator argument), undelegated or local
/// again, and each refusal leaves it as it was.
pub proof fn lemma_local_property_is_final<T: Clone>(
    p: Property<T>,
    a1: Property<T>,
    a2: Property<T>,
    a3: Property<T>,
    a4: Property<T>,
    a5: Property<T>,
    index: u8,
    mutator: u32,
    host: HostType,
    mutator_arg: Option<(u8, u32)>,
    r1: Result<(), PropertyError>,
    r2: Result<(), PropertyError>,
    r3: Result<(), PropertyError>,
    r4: Result<(), PropertyError>,
    r5: Result<(), PropertyError>,
)
    requires
        p.kind() == PropertyKind::Local,
        spec_publish_outcome(p, a1, index, mutator, r1),
        spec_unpublish_outcome(p, a2, r2),
        spec_enable_delegation_outcome(p, a3, host, mutator_arg, r3),
        spec_disable_delegation_outcome(p, a4, r4),
        spec_localize_outcome(p, a5, r5),
    ensures
        r1 is Err && a1 == p,
        r2 is Err && a2 == p,
        r3 is Err && a3 == p,
        r4 is Err && a4 == p,
        r5 is Err && a5 == p,
{
}

} // verus!
