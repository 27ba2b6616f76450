use crate::db_schema_cred::owned_text;
use crate::error::Error;
use crate::query_target::QueryTarget;
use crate::socket_address::SocketAddress;
use crate::ssh_tunnel_map::SshTunnelMap;
use ssh_jumper::model::Error as TunnelError;
use std::sync::Arc;
use vstd::prelude::*;

verus! {

/// Port that the database servers listen on.
pub const DB_PORT: u16 = 3306;

/// The mapping from the first names to the local addresses of their tunnels,
/// a later one of the same name in place of an earlier one.
pub open spec fn tunnels_of(names: Seq<Seq<char>>, tunnels: Seq<SocketAddress>) -> Map<
    Seq<char>,
    SocketAddress,
>
    decreases tunnels.len(),
{
    if tunnels.len() == 0 {
        Map::empty()
    } else {
        tunnels_of(names, tunnels.drop_last()).insert(names[tunnels.len() - 1], tunnels.last())
    }
}

/// Where no two of the first names are the same, each of them has the tunnel
/// that was opened for it, and no other name has one.
pub proof fn law_every_target_has_its_tunnel(names: Seq<Seq<char>>, tunnels: Seq<SocketAddress>)
    requires
        tunnels.len() <= names.len(),
        forall|i: int, j: int| 0 <= i < j < tunnels.len() ==> names[i] != names[j],
    ensures
        forall|i: int|
            0 <= i < tunnels.len() ==> tunnels_of(names, tunnels).dom().contains(
                #[trigger] names[i],
            ) && tunnels_of(names, tunnels)[names[i]] == tunnels[i],
        forall|name: Seq<char>|
            tunnels_of(names, tunnels).dom().contains(name) ==> exists|i: int|
                0 <= i < tunnels.len() && #[trigger] names[i] == name,
    decreases tunnels.len(),
{
    if tunnels.len() > 0 {
        let before = tunnels.drop_last();
        law_every_target_has_its_tunnel(names, before);
        let last = tunnels.len() - 1;
        assert forall|i: int| 0 <= i < tunnels.len() implies tunnels_of(
            names,
            tunnels,
        ).dom().contains(#[trigger] names[i]) && tunnels_of(names, tunnels)[names[i]]
            == tunnels[i] by {
            if i < last {
                assert(names[i] != names[last]);
                assert(before[i] == tunnels[i]);
            }
        }
        assert forall|name: Seq<char>|
            tunnels_of(names, tunnels).dom().contains(name) implies exists|i: int|
            0 <= i < tunnels.len() && #[trigger] names[i] == name by {
            if name != names[last] {
                assert(tunnels_of(names, before).dom().contains(name));
                let i = choose|i: int| 0 <= i < before.len() && #[trigger] names[i] == name;
                assert(0 <= i < tunnels.len() && names[i] == name);
            }
        }
    }
}

/// How far the tunnels of one chunk of query targets have come.
pub enum PreparationPhase<S> {
    /// The SSH session is being opened.
    OpeningSession,
    /// The SSH session is open, and the tunnel of the next query target is
    /// being opened through it.
    OpeningTunnels { ssh_session: S },
    /// The tunnels were handed out, or the session was dropped.
    Finished,
}

/// What the caller reports back.
pub enum TunnelEvent<S> {
    /// The SSH session to the jump host was opened, or could not be.
    SessionOpened { ssh_session: Result<S, TunnelError> },
    /// The tunnel that was asked for was opened, and ends locally at the
    /// given address, or it could not be opened.
    TunnelOpened { tunnel: Result<SocketAddress, TunnelError> },
}

/// What the caller is asked to do next.
pub enum TunnelAction<S> {
    /// Open an SSH session to the jump host.
    OpenSession,
    /// Open a tunnel through the session from `local_socket` to port
    /// `db_port` of the database server of the query target.
    OpenTunnel { target: usize, local_socket: SocketAddress, db_port: u16 },
    /// Hand out the session with its tunnels, or the reason why there is
    /// none.
    Finish { tunnels: Result<SshTunnelMap<S>, Error> },
}

/// One SSH session and one tunnel per query target, in the making.
///
/// # Type Parameters
///
/// * `S`: Handle of the SSH session. Dropping it closes the session.
pub struct TunnelPreparation<S> {
    names: Vec<String>,
    phase: PreparationPhase<S>,
    tunnels: Vec<SocketAddress>,
}

impl<S> TunnelPreparation<S> {
    /// Names of the query targets, in their order.
    pub closed spec fn names(&self) -> Seq<Seq<char>> {
        Seq::new(self.names@.len(), |i: int| self.names@[i]@)
    }

    /// How far the preparation has come.
    pub closed spec fn phase(&self) -> PreparationPhase<S> {
        self.phase
    }

    /// Local addresses of the tunnels that were opened, in the order of
    /// their query targets.
    pub closed spec fn opened(&self) -> Seq<SocketAddress> {
        self.tunnels@
    }

    /// While tunnels are being opened, one is still missing.
    pub closed spec fn wf(&self) -> bool {
        &&& self.tunnels@.len() <= self.names@.len()
        &&& self.phase is OpeningTunnels ==> self.tunnels@.len() < self.names@.len()
        &&& self.phase is OpeningSession ==> self.tunnels@.len() == 0
    }

    /// Whether the preparation waits for this event.
    pub open spec fn expects(&self, event: TunnelEvent<S>) -> bool {
        match event {
            TunnelEvent::SessionOpened { .. } => self.phase() is OpeningSession,
            TunnelEvent::TunnelOpened { .. } => self.phase() is OpeningTunnels,
        }
    }

    /// Whether `tunnel_map` holds the session and all that was opened.
    pub open spec fn hands_out(&self, ssh_session: S, tunnel_map: SshTunnelMap<S>) -> bool {
        &&& tunnel_map.wf()
        &&& tunnel_map.session() == ssh_session
        &&& tunnel_map.tunnels() == tunnels_of(self.names(), self.opened())
    }

    /// Whether `action` asks for the tunnel of the next query target.
    pub open spec fn asks_next(&self, action: TunnelAction<S>) -> bool {
        action matches TunnelAction::OpenTunnel { target, local_socket, db_port }
            && target == self.opened().len() && local_socket.ip@ == "127.0.0.1"@
            && local_socket.port == 0 && db_port == DB_PORT
    }

    /// Whether `after` is the preparation after the event, and `action` what
    /// the caller is asked to do then.
    ///
    /// Any failure ends the preparation with that failure: the session and
    /// the tunnels opened so far are dropped. The tunnels are handed out
    /// when the last query target has its own. An event that the
    /// preparation does not wait for changes nothing and asks for nothing.
    pub open spec fn steps(
        &self,
        event: TunnelEvent<S>,
        after: &Self,
        action: Option<TunnelAction<S>>,
    ) -> bool {
        &&& after.names() == self.names()
        &&& if !self.expects(event) {
            after.phase() == self.phase() && after.opened() == self.opened() && action is None
        } else {
            match event {
                TunnelEvent::SessionOpened { ssh_session: Err(error) } => {
                    &&& after.phase() is Finished
                    &&& action == Some(
                        TunnelAction::<S>::Finish { tunnels: Err(Error::SshJumper(Arc::new(error))) },
                    )
                },
                TunnelEvent::TunnelOpened { tunnel: Err(error) } => {
                    &&& after.phase() is Finished
                    &&& action == Some(
                        TunnelAction::<S>::Finish { tunnels: Err(Error::SshJumper(Arc::new(error))) },
                    )
                },
                TunnelEvent::SessionOpened { ssh_session: Ok(ssh_session) } => {
                    &&& after.opened() == self.opened()
                    &&& if self.names().len() == 0 {
                        &&& after.phase() is Finished
                        &&& action matches Some(TunnelAction::Finish { tunnels: Ok(tunnel_map) })
                        &&& after.hands_out(ssh_session, tunnel_map)
                    } else {
                        &&& after.phase() == PreparationPhase::OpeningTunnels { ssh_session }
                        &&& action matches Some(asked)
                        &&& after.asks_next(asked)
                    }
                },
                TunnelEvent::TunnelOpened { tunnel: Ok(tunnel) } => {
                    &&& after.opened() == self.opened().push(tunnel)
                    &&& if after.opened().len() == self.names().len() {
                        &&& after.phase() is Finished
                        &&& action matches Some(TunnelAction::Finish { tunnels: Ok(tunnel_map) })
                        &&& after.hands_out(self.phase()->ssh_session, tunnel_map)
                    } else {
                        &&& after.phase() == self.phase()
                        &&& action matches Some(asked)
                        &&& after.asks_next(asked)
                    }
                },
            }
        }
    }

    /// Lends the SSH session while tunnels are being opened through it.
    pub fn ssh_session(&self) -> (ssh_session: Option<&S>)
        ensures
            match ssh_session {
                Some(lent) => self.phase() == (PreparationPhase::OpeningTunnels {
                    ssh_session: *lent,
                }),
                None => !(self.phase() is OpeningTunnels),
            },
    {
        match &self.phase {
            PreparationPhase::OpeningTunnels { ssh_session } => Some(ssh_session),
            _ => None,
        }
    }

    /// Builds the map of the session and the tunnels that were opened.
    fn tunnel_map(&self, ssh_session: S) -> (tunnel_map: SshTunnelMap<S>)
        requires
            self.tunnels@.len() <= self.names@.len(),
        ensures
            self.hands_out(ssh_session, tunnel_map),
    {
        let mut tunnel_map = SshTunnelMap::new(ssh_session);
        let mut i: usize = 0;
        while i < self.tunnels.len()
            invariant
                i <= self.tunnels@.len() <= self.names@.len(),
                tunnel_map.wf(),
                tunnel_map.session() == ssh_session,
                tunnel_map.tunnels() == tunnels_of(self.names(), self.opened().take(i as int)),
            decreases self.tunnels@.len() - i,
        {
            assert(self.opened().take(i + 1).drop_last() =~= self.opened().take(i as int));
            tunnel_map.insert(self.names[i].as_str(), self.tunnels[i].clone());
            i += 1;
        }
        assert(self.opened().take(i as int) =~= self.opened());
        tunnel_map
    }

    /// Takes in what the caller reports, and returns what the caller is
    /// asked to do next.
    pub fn step(&mut self, event: TunnelEvent<S>) -> (action: Option<TunnelAction<S>>)
        requires
            old(self).wf(),
        ensures
            final(self).wf(),
            old(self).steps(event, final(self), action),
    {
        let mut phase = PreparationPhase::Finished;
        std::mem::swap(&mut self.phase, &mut phase);
        match (phase, event) {
            (PreparationPhase::OpeningSession, TunnelEvent::SessionOpened { ssh_session }) => {
                match ssh_session {
                    Err(error) => Some(TunnelAction::Finish { tunnels: Err(Error::from(error)) }),
                    Ok(ssh_session) => {
                        if self.names.len() == 0 {
                            let tunnel_map = self.tunnel_map(ssh_session);
                            Some(TunnelAction::Finish { tunnels: Ok(tunnel_map) })
                        } else {
                            self.phase = PreparationPhase::OpeningTunnels { ssh_session };
                            Some(self.open_next())
                        }
                    },
                }
            },
            (PreparationPhase::OpeningTunnels { ssh_session }, TunnelEvent::TunnelOpened { tunnel }) => {
                match tunnel {
                    Err(error) => Some(TunnelAction::Finish { tunnels: Err(Error::from(error)) }),
                    Ok(tunnel) => {
                        self.tunnels.push(tunnel);
                        if self.tunnels.len() == self.names.len() {
                            let tunnel_map = self.tunnel_map(ssh_session);
                            Some(TunnelAction::Finish { tunnels: Ok(tunnel_map) })
                        } else {
                            self.phase = PreparationPhase::OpeningTunnels { ssh_session };
                            Some(self.open_next())
                        }
                    },
                }
            },
            (phase, _) => {
                self.phase = phase;
                None
            },
        }
    }

    /// Asks for the tunnel of the next query target, bound locally to a port
    /// that the operating system chooses.
    fn open_next(&self) -> (action: TunnelAction<S>)
        ensures
            self.asks_next(action),
    {
        TunnelAction::OpenTunnel {
            target: self.tunnels.len(),
            local_socket: SocketAddress::local_os_chosen(),
            db_port: DB_PORT,
        }
    }
}

/// Opens SSH sessions and creates tunnels for query targets.
#[derive(Debug)]
pub struct SshTunnelManager;

impl SshTunnelManager {
    /// Begins to open one SSH session and one tunnel per query target.
    ///
    /// The session that is handed out in the end must be kept alive until
    /// all the tunnels are no longer needed.
    ///
    /// Callers should limit the number of query targets per session, as
    /// [`crate::batch::plan_chunks`] does.
    pub fn prepare_tunnels<'qt, S>(query_targets: &'qt [QueryTarget<'qt>]) -> (started: (
        TunnelPreparation<S>,
        TunnelAction<S>,
    ))
        ensures
            started.0.wf(),
            started.0.phase() is OpeningSession,
            started.0.opened() == Seq::<SocketAddress>::empty(),
            started.0.names() == Seq::new(query_targets@.len(), |i: int| query_targets@[i].name@),
            started.1 is OpenSession,
    {
        let mut names: Vec<String> = Vec::new();
        let mut i: usize = 0;
        while i < query_targets.len()
            invariant
                i <= query_targets@.len(),
                names@.len() == i,
                forall|j: int| 0 <= j < i ==> (#[trigger] names@[j])@ == query_targets@[j].name@,
            decreases query_targets@.len() - i,
        {
            names.push(owned_text(&query_targets[i].name));
            i += 1;
        }
        let preparation = TunnelPreparation {
            names,
            phase: PreparationPhase::OpeningSession,
            tunnels: Vec::new(),
        };
        assert(preparation.names() =~= Seq::new(
            query_targets@.len(),
            |i: int| query_targets@[i].name@,
        ));
        (preparation, TunnelAction::OpenSession)
    }
}

} // verus!
