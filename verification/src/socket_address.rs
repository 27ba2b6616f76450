use vstd::prelude::*;
use vstd::string::StringExecFns;

verus! {

/// Port that the operating system replaces by a free one when a socket is
/// bound to it.
pub const LOCAL_OS_CHOSEN_PORT: u16 = 0;

/// An IP address and a port: where a database server, or the local end of a
/// tunnel to it, is reached.
#[derive(Debug, PartialEq, Eq)]
pub struct SocketAddress {
    /// The IP address in its standard notation, such as `127.0.0.1`.
    pub ip: String,
    /// The port.
    pub port: u16,
}

impl Clone for SocketAddress {
    fn clone(&self) -> (copy: Self)
        ensures
            copy == *self,
    {
        SocketAddress { ip: self.ip.clone(), port: self.port }
    }
}

impl SocketAddress {
    /// The address to bind the local end of a tunnel to: the loopback address
    /// and a port that the operating system chooses, so that tunnels that are
    /// open at the same time never ask for the same port.
    pub fn local_os_chosen() -> (address: SocketAddress)
        ensures
            address.ip@ == "127.0.0.1"@,
            address.port == LOCAL_OS_CHOSEN_PORT,
    {
        SocketAddress { ip: String::from_str("127.0.0.1"), port: LOCAL_OS_CHOSEN_PORT }
    }
}

} // verus!
