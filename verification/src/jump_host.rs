use ssh_jumper::model::Error as TunnelError;
use ssh_jumper::model::HostAddress;
use std::sync::Arc;
use vstd::prelude::*;

verus! {

/// Address of a host: an IP address or a host name, as `ssh_jumper` holds it.
/// Nothing in this library reads what is inside.
#[verifier::external_type_specification]
#[verifier::external_body]
pub struct ExHostAddress<'host>(HostAddress<'host>);

/// Failure reported by `ssh_jumper` when a session or a tunnel cannot be
/// opened. Nothing in this library reads what is inside.
#[verifier::external_type_specification]
#[verifier::external_body]
pub struct ExTunnelError(TunnelError);

/// The text that `HostAddress`'s `Display` impl writes for an address: the
/// IP address in its standard notation, or the host name as it is.
pub uninterp spec fn host_address_text(address: HostAddress<'static>) -> Seq<char>;

/// Calls `HostAddress::into_static`, which copies the IP address or the host
/// name into a value that borrows from nothing: the copy is the same address.
#[verifier::external_body]
pub(crate) fn static_host_address<'host>(address: &HostAddress<'host>) -> (owned: HostAddress<
    'static,
>)
    ensures
        owned == *address,
{
    address.into_static()
}

/// Calls `to_string` on a `HostAddress`, which writes it through its `Display`
/// impl.
#[verifier::external_body]
pub(crate) fn host_address_to_string<'host>(address: &HostAddress<'host>) -> (text: String)
    ensures
        text@ == host_address_text(*address),
{
    address.to_string()
}

/// Calls `to_string` on an `ssh_jumper` error, which writes it through its
/// `Display` impl: one sentence per kind of failure. Where a lookup failed
/// the sentence ends with what the resolver and the operating system say of
/// it, so nothing is promised of the text.
#[verifier::external_body]
pub(crate) fn tunnel_error_to_string(error: &TunnelError) -> (text: String) {
    error.to_string()
}

/// Calls `Arc::clone`: the new handle points at the same error.
#[verifier::external_body]
pub(crate) fn share_tunnel_error(error: &Arc<TunnelError>) -> (shared: Arc<
    TunnelError,
>)
    ensures
        shared == *error,
{
    Arc::clone(error)
}

} // verus!
