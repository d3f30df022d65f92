//! Operations that this platform does not carry out: source-address policy
//! rules, which it lacks, and the registry-backed settings that are not
//! read or written here.
use vstd::prelude::*;
use crate::query::NetError;

verus! {

/// Adding an IPv4 policy rule succeeds and changes nothing: the platform
/// has no source-address routing rules.
pub fn add_default_ipv4_rule(addr: &str) -> (r: Result<(), NetError>)
    ensures
        r == Ok::<(), NetError>(()),
{
    Ok(())
}

/// Adding an IPv6 policy rule succeeds and changes nothing.
pub fn add_default_ipv6_rule(addr: &str) -> (r: Result<(), NetError>)
    ensures
        r == Ok::<(), NetError>(()),
{
    Ok(())
}

/// Deleting an IPv4 policy rule succeeds and changes nothing.
pub fn delete_default_ipv4_rule(addr: &str) -> (r: Result<(), NetError>)
    ensures
        r == Ok::<(), NetError>(()),
{
    Ok(())
}

/// Deleting an IPv6 policy rule succeeds and changes nothing.
pub fn delete_default_ipv6_rule(addr: &str) -> (r: Result<(), NetError>)
    ensures
        r == Ok::<(), NetError>(()),
{
    Ok(())
}

/// IPv4 forwarding is reported off; the host's setting is not read.
pub fn get_ipv4_forwarding() -> (r: Result<bool, NetError>)
    ensures
        r == Ok::<bool, NetError>(false),
{
    Ok(false)
}

/// IPv6 forwarding is reported off; the host's setting is not read.
pub fn get_ipv6_forwarding() -> (r: Result<bool, NetError>)
    ensures
        r == Ok::<bool, NetError>(false),
{
    Ok(false)
}

/// Changing IPv4 forwarding is not supported.
pub fn set_ipv4_forwarding(val: bool) -> (r: Result<(), NetError>)
    ensures
        r == Err::<(), NetError>(NetError::Unsupported),
{
    Err(NetError::Unsupported)
}

/// Changing IPv6 forwarding is not supported.
pub fn set_ipv6_forwarding(val: bool) -> (r: Result<(), NetError>)
    ensures
        r == Err::<(), NetError>(NetError::Unsupported),
{
    Err(NetError::Unsupported)
}

/// Finding the host's default IPv4 address is not supported.
pub fn get_default_ipv4_address() -> (r: Result<String, NetError>)
    ensures
        r matches Err(NetError::Unsupported),
{
    Err(NetError::Unsupported)
}

/// Finding the host's default IPv6 address is not supported.
pub fn get_default_ipv6_address() -> (r: Result<String, NetError>)
    ensures
        r matches Err(NetError::Unsupported),
{
    Err(NetError::Unsupported)
}

} // verus!
