use crate::socket_address::SocketAddress;
use vstd::prelude::*;

verus! {

/// Keeps the SSH session alive while its tunnels are needed.
///
/// The local address of a tunnel is only good for as long as the session that
/// the tunnel was opened through is alive. So the session and the mapping
/// from query target name to local address are owned together, and the
/// mapping is only lent out.
///
/// # Type Parameters
///
/// * `S`: Handle of the SSH session. Dropping it closes the session.
pub struct SshTunnelMap<S> {
    /// The SSH session the tunnels are created from.
    ssh_session: S,
    /// Query target name and local address of each tunnel, each name once.
    /// Names are looked up by comparing their text.
    qt_name_to_tunnel: Vec<(String, SocketAddress)>,
    /// The mapping that `qt_name_to_tunnel` stands for.
    tunnels: Ghost<Map<Seq<char>, SocketAddress>>,
}

impl<S> SshTunnelMap<S> {
    /// The SSH session the tunnels are created from.
    pub closed spec fn session(&self) -> S {
        self.ssh_session
    }

    /// Mapping between query target name and local address of its tunnel.
    pub closed spec fn tunnels(&self) -> Map<Seq<char>, SocketAddress> {
        self.tunnels@
    }

    /// The entries stand for the mapping: each name is written once.
    pub closed spec fn wf(&self) -> bool {
        &&& forall|i: int, j: int|
            0 <= i < j < self.qt_name_to_tunnel@.len() ==> #[trigger] self.qt_name_to_tunnel@[i].0@
                != #[trigger] self.qt_name_to_tunnel@[j].0@
        &&& forall|i: int|
            0 <= i < self.qt_name_to_tunnel@.len() ==> {
                &&& self.tunnels@.dom().contains(#[trigger] self.qt_name_to_tunnel@[i].0@)
                &&& self.tunnels@[self.qt_name_to_tunnel@[i].0@] == self.qt_name_to_tunnel@[i].1
            }
        &&& forall|name: Seq<char>| #[trigger]
            self.tunnels@.dom().contains(name) ==> exists|i: int|
                0 <= i < self.qt_name_to_tunnel@.len() && #[trigger] self.qt_name_to_tunnel@[i].0@
                    == name
    }

    /// Returns a map without tunnels for the given session.
    pub fn new(ssh_session: S) -> (map: Self)
        ensures
            map.wf(),
            map.session() == ssh_session,
            map.tunnels() == Map::<Seq<char>, SocketAddress>::empty(),
    {
        SshTunnelMap { ssh_session, qt_name_to_tunnel: Vec::new(), tunnels: Ghost(Map::empty()) }
    }

    /// Position of the entry for the named query target.
    fn position(&self, name: &str) -> (found: Option<usize>)
        requires
            self.wf(),
        ensures
            match found {
                Some(i) => i < self.qt_name_to_tunnel@.len() && self.qt_name_to_tunnel@[i as int].0@
                    == name@,
                None => !self.tunnels().dom().contains(name@),
            },
    {
        let wanted = name.to_owned();
        let mut i: usize = 0;
        while i < self.qt_name_to_tunnel.len()
            invariant
                wanted@ == name@,
                0 <= i <= self.qt_name_to_tunnel@.len(),
                forall|j: int| 0 <= j < i ==> self.qt_name_to_tunnel@[j].0@ != name@,
            decreases self.qt_name_to_tunnel@.len() - i,
        {
            if self.qt_name_to_tunnel[i].0 == wanted {
                return Some(i);
            }
            i += 1;
        }
        None
    }

    /// Returns the local address of the tunnel to the named query target.
    pub fn get(&self, name: &str) -> (tunnel: Option<&SocketAddress>)
        requires
            self.wf(),
        ensures
            match tunnel {
                Some(address) => self.tunnels().dom().contains(name@) && *address
                    == self.tunnels()[name@],
                None => !self.tunnels().dom().contains(name@),
            },
    {
        match self.position(name) {
            Some(i) => Some(&self.qt_name_to_tunnel[i].1),
            None => None,
        }
    }

    /// Records the local address of the tunnel to the named query target, in
    /// place of the one recorded before if there was one.
    pub fn insert(&mut self, name: &str, tunnel: SocketAddress)
        requires
            old(self).wf(),
        ensures
            final(self).wf(),
            final(self).session() == old(self).session(),
            final(self).tunnels() == old(self).tunnels().insert(name@, tunnel),
    {
        let ghost at: int;
        match self.position(name) {
            Some(i) => {
                self.qt_name_to_tunnel.set(i, (name.to_owned(), tunnel));
                proof {
                    at = i as int;
                }
            },
            None => {
                self.qt_name_to_tunnel.push((name.to_owned(), tunnel));
                proof {
                    at = self.qt_name_to_tunnel@.len() - 1;
                }
            },
        }
        proof {
            self.tunnels@ = self.tunnels@.insert(name@, tunnel);
            assert(self.qt_name_to_tunnel@[at].0@ == name@);
            assert forall|n: Seq<char>| #[trigger]
                self.tunnels@.dom().contains(n) implies exists|i: int|
                0 <= i < self.qt_name_to_tunnel@.len() && #[trigger] self.qt_name_to_tunnel@[i].0@
                    == n by {
                if n != name@ {
                    let i = choose|i: int|
                        0 <= i < old(self).qt_name_to_tunnel@.len() && #[trigger] old(
                            self,
                        ).qt_name_to_tunnel@[i].0@ == n;
                    assert(self.qt_name_to_tunnel@[i].0@ == n);
                }
            }
        }
    }

    /// Lends the SSH session the tunnels are created from.
    pub fn ssh_session(&self) -> (ssh_session: &S)
        ensures
            *ssh_session == self.session(),
    {
        &self.ssh_session
    }
}

} // verus!
