//! The texts that errors and logs show of the library's values, as their
//! derived `Debug` writes them.
use vstd::prelude::*;
use vstd::string::StringExecFns;

use crate::entity_message::EntityMessageType;
use crate::types::{EntityAuthStatus, GlobalEntity, HostEntityAuthStatus, HostType};

verus! {

/// The decimal digit `d`.
pub open spec fn spec_digit(d: nat) -> Seq<char> {
    if d == 0 {
        "0"@
    } else if d == 1 {
        "1"@
    } else if d == 2 {
        "2"@
    } else if d == 3 {
        "3"@
    } else if d == 4 {
        "4"@
    } else if d == 5 {
        "5"@
    } else if d == 6 {
        "6"@
    } else if d == 7 {
        "7"@
    } else if d == 8 {
        "8"@
    } else {
        "9"@
    }
}

/// `n` written in decimal, without leading zeros.
pub open spec fn spec_decimal(n: nat) -> Seq<char>
    decreases n,
{
    if n < 10 {
        spec_digit(n)
    } else {
        spec_decimal(n / 10) + spec_digit(n % 10)
    }
}

fn digit_text(d: u64) -> (r: &'static str)
    requires
        d < 10,
    ensures
        r@ == spec_digit(d as nat),
{
    if d == 0 {
        "0"
    } else if d == 1 {
        "1"
    } else if d == 2 {
        "2"
    } else if d == 3 {
        "3"
    } else if d == 4 {
        "4"
    } else if d == 5 {
        "5"
    } else if d == 6 {
        "6"
    } else if d == 7 {
        "7"
    } else if d == 8 {
        "8"
    } else {
        "9"
    }
}

/// Appends `n` in decimal to `s`.
pub fn push_decimal(s: &mut String, n: u64)
    ensures
        final(s)@ == old(s)@ + spec_decimal(n as nat),
    decreases n,
{
    if n < 10 {
        s.append(digit_text(n));
    } else {
        push_decimal(s, n / 10);
        s.append(digit_text(n % 10));
        proof {
            assert(old(s)@ + spec_decimal((n / 10) as nat) + spec_digit((n % 10) as nat) =~= old(s)@ + spec_decimal(
                n as nat,
            ));
        }
    }
}

/// The name of a message kind.
pub open spec fn spec_message_type_name(t: EntityMessageType) -> Seq<char> {
    match t {
        EntityMessageType::SpawnEntity => "SpawnEntity"@,
        EntityMessageType::DespawnEntity => "DespawnEntity"@,
        EntityMessageType::InsertComponent => "InsertComponent"@,
        EntityMessageType::RemoveComponent => "RemoveComponent"@,
        EntityMessageType::PublishEntity => "PublishEntity"@,
        EntityMessageType::UnpublishEntity => "UnpublishEntity"@,
        EntityMessageType::EnableDelegationEntity => "EnableDelegationEntity"@,
        EntityMessageType::EnableDelegationEntityResponse => "EnableDelegationEntityResponse"@,
        EntityMessageType::DisableDelegationEntity => "DisableDelegationEntity"@,
        EntityMessageType::RequestAuthority => "RequestAuthority"@,
        EntityMessageType::ReleaseAuthority => "ReleaseAuthority"@,
        EntityMessageType::UpdateAuthority => "UpdateAuthority"@,
        EntityMessageType::EntityMigrateResponse => "EntityMigrateResponse"@,
        EntityMessageType::Noop => "Noop"@,
    }
}

/// The name of a message kind, as its `Debug` writes it.
pub fn message_type_name(t: EntityMessageType) -> (r: &'static str)
    ensures
        r@ == spec_message_type_name(t),
{
    match t {
        EntityMessageType::SpawnEntity => "SpawnEntity",
        EntityMessageType::DespawnEntity => "DespawnEntity",
        EntityMessageType::InsertComponent => "InsertComponent",
        EntityMessageType::RemoveComponent => "RemoveComponent",
        EntityMessageType::PublishEntity => "PublishEntity",
        EntityMessageType::UnpublishEntity => "UnpublishEntity",
        EntityMessageType::EnableDelegationEntity => "EnableDelegationEntity",
        EntityMessageType::EnableDelegationEntityResponse => "EnableDelegationEntityResponse",
        EntityMessageType::DisableDelegationEntity => "DisableDelegationEntity",
        EntityMessageType::RequestAuthority => "RequestAuthority",
        EntityMessageType::ReleaseAuthority => "ReleaseAuthority",
        EntityMessageType::UpdateAuthority => "UpdateAuthority",
        EntityMessageType::EntityMigrateResponse => "EntityMigrateResponse",
        EntityMessageType::Noop => "Noop",
    }
}

/// The `Debug` text of a global entity: `GlobalEntity(` and its number.
pub open spec fn spec_global_entity_text(g: GlobalEntity) -> Seq<char> {
    "GlobalEntity("@ + spec_decimal(g.0 as nat) + ")"@
}

/// Appends the `Debug` text of `g` to `s`.
pub fn push_global_entity(s: &mut String, g: GlobalEntity)
    ensures
        final(s)@ == old(s)@ + spec_global_entity_text(g),
{
    s.append("GlobalEntity(");
    push_decimal(s, g.0);
    s.append(")");
    proof {
        assert(old(s)@ + "GlobalEntity("@ + spec_decimal(g.0 as nat) + ")"@ =~= old(s)@ + spec_global_entity_text(g));
    }
}

/// The name of a side.
pub open spec fn spec_host_type_name(h: HostType) -> Seq<char> {
    match h {
        HostType::Server => "Server"@,
        HostType::Client => "Client"@,
    }
}

fn host_type_name(h: HostType) -> (r: &'static str)
    ensures
        r@ == spec_host_type_name(h),
{
    match h {
        HostType::Server => "Server",
        HostType::Client => "Client",
    }
}

/// The name of an authority status.
pub open spec fn spec_auth_status_name(a: EntityAuthStatus) -> Seq<char> {
    match a {
        EntityAuthStatus::Available => "Available"@,
        EntityAuthStatus::Requested => "Requested"@,
        EntityAuthStatus::Granted => "Granted"@,
        EntityAuthStatus::Releasing => "Releasing"@,
        EntityAuthStatus::Denied => "Denied"@,
    }
}

fn auth_status_name(a: EntityAuthStatus) -> (r: &'static str)
    ensures
        r@ == spec_auth_status_name(a),
{
    match a {
        EntityAuthStatus::Available => "Available",
        EntityAuthStatus::Requested => "Requested",
        EntityAuthStatus::Granted => "Granted",
        EntityAuthStatus::Releasing => "Releasing",
        EntityAuthStatus::Denied => "Denied",
    }
}

/// The `Debug` text of an authority status with its side.
pub open spec fn spec_status_text(s: HostEntityAuthStatus) -> Seq<char> {
    "HostEntityAuthStatus { host_type: "@ + spec_host_type_name(s.host_type) + ", auth_status: "@
        + spec_auth_status_name(s.auth_status) + " }"@
}

/// The `Debug` text of an authority status with its side.
pub fn status_text(s: HostEntityAuthStatus) -> (r: String)
    ensures
        r@ == spec_status_text(s),
{
    let mut r = String::from_str("HostEntityAuthStatus { host_type: ");
    r.append(host_type_name(s.host_type));
    r.append(", auth_status: ");
    r.append(auth_status_name(s.auth_status));
    r.append(" }");
    r
}

} // verus!
