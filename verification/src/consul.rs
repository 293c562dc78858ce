//! What the sidecar registers with the service catalog: the address it is
//! reached at and the metadata naming its node.
use vstd::prelude::*;

use crate::edge::{dotted_quad, push_dotted_quad};
use crate::text::push_char;

verus! {

/// An IP address: IPv4 or IPv6, by its big-endian value.
#[derive(Clone, Copy, Debug, PartialEq, Eq, Structural)]
pub enum IpAddress {
    V4(u32),
    V6(u128),
}

/// The address is the unspecified one (`0.0.0.0` or `::`).
pub open spec fn spec_is_unspecified(ip: IpAddress) -> bool {
    match ip {
        IpAddress::V4(a) => a == 0,
        IpAddress::V6(a) => a == 0,
    }
}

/// Whether the address is the unspecified one.
pub fn is_unspecified(ip: IpAddress) -> (r: bool)
    ensures
        r == spec_is_unspecified(ip),
{
    match ip {
        IpAddress::V4(a) => a == 0,
        IpAddress::V6(a) => a == 0,
    }
}

/// Whether registering at `register_ip` needs the machine's local IP
/// address: when the configured address is the unspecified one.
pub fn needs_local_ip(register_ip: IpAddress) -> (r: bool)
    ensures
        r == spec_is_unspecified(register_ip),
{
    is_unspecified(register_ip)
}

/// The registered address: the configured one unless it is unspecified.
pub open spec fn spec_service_ip(register_ip: IpAddress, local_ip: Option<IpAddress>) -> Option<
    IpAddress,
> {
    if !spec_is_unspecified(register_ip) {
        Some(register_ip)
    } else {
        local_ip
    }
}

/// Only the all-zero addresses, `0.0.0.0` and `::`, are unspecified. Every
/// other configured address (a loopback or private one included) is
/// registered as it is; the machine's local address is used only for an
/// all-zero one, and whether it was found decides the result then.
pub proof fn law_only_zero_is_unspecified(ip: IpAddress, local_ip: Option<IpAddress>)
    ensures
        spec_is_unspecified(ip) <==> (ip == IpAddress::V4(0) || ip == IpAddress::V6(0)),
        ip != IpAddress::V4(0) && ip != IpAddress::V6(0) ==> spec_service_ip(ip, local_ip) == Some(
            ip,
        ),
        ip == IpAddress::V4(0) || ip == IpAddress::V6(0) ==> spec_service_ip(ip, local_ip)
            == local_ip,
{
}

/// The address the service is registered at: the configured address,
/// unless it is unspecified, then the machine's local address; `None` when
/// that is needed and could not be found.
pub fn service_ip(register_ip: IpAddress, local_ip: Option<IpAddress>) -> (r: Option<IpAddress>)
    ensures
        r == spec_service_ip(register_ip, local_ip),
{
    if !is_unspecified(register_ip) {
        Some(register_ip)
    } else {
        local_ip
    }
}

/// The service metadata naming the node `ident`: the key `ident` and the
/// identifier in dotted-decimal notation.
pub fn ident_meta(ident: u32) -> (r: (String, String))
    ensures
        r.0@ == seq!['i', 'd', 'e', 'n', 't'],
        r.1@ == dotted_quad(ident),
{
    let mut key = String::new();
    push_char(&mut key, 'i');
    push_char(&mut key, 'd');
    push_char(&mut key, 'e');
    push_char(&mut key, 'n');
    push_char(&mut key, 't');
    assert(key@ =~= seq!['i', 'd', 'e', 'n', 't']);
    let mut value = String::new();
    push_dotted_quad(&mut value, ident);
    assert(value@ =~= dotted_quad(ident));
    (key, value)
}

} // verus!
