use crate::batch::{Batch, BatchAction};
use crate::db_schema_cred::owned_text;
use crate::error::Error;
use crate::exec_error::ExecError;
use crate::query_result::QueryResult;
use crate::query_run::{QueryRun, QueryRunAction, QueryRunEvent, QueryRunPhase, QueryRunView};
use crate::query_target::QueryTarget;
use crate::socket_address::SocketAddress;
use crate::sql_over_ssh::{exec_outcome, SqlOverSsh};
use crate::ssh_tunnel_manager::DB_PORT;
use mysql_async::Error as DriverError;
use ssh_jumper::model::Error as TunnelError;
use ssh_jumper::model::HostAddress;
use std::sync::Arc;
use vstd::prelude::*;

verus! {

/// How far a query on a single query target has come.
#[derive(Clone, Copy, Debug, PartialEq, Eq)]
pub enum QueryState {
    /// The SSH session and the tunnel are being opened.
    OpeningTunnel,
    /// The statement is being run through the tunnel.
    Executing,
    /// The outcome was handed out.
    Finished,
}

/// What the caller reports back.
pub enum QueryEvent<T> {
    /// The tunnel was opened and ends locally at the given address, or it
    /// could not be opened.
    TunnelOpened { tunnel: Result<SocketAddress, TunnelError> },
    /// The statement was run on a pool of its own, and the pool was
    /// disconnected.
    Executed { outcome: Result<QueryResult<T>, ExecError<Error>> },
}

/// What the caller is asked to do next.
pub enum QueryAction<T> {
    /// Open an SSH session to the jump host, and through it a tunnel from
    /// `local_socket` to port `db_port` of the database server.
    OpenTunnel { local_socket: SocketAddress, db_port: u16 },
    /// Run the statement on the database that is reached at `db_tunnel`.
    Exec { db_tunnel: SocketAddress },
    /// Hand out the outcome: nothing is left to do. Where the statement
    /// failed and then the pool did not disconnect, `disconnect_error` is
    /// the error of disconnecting.
    Finish { outcome: Result<QueryResult<T>, Error>, disconnect_error: Option<Error> },
}

/// The state after an event, and what the caller is asked to do then. An
/// event that the state does not wait for changes nothing and asks for
/// nothing.
pub open spec fn query_step<T>(state: QueryState, event: QueryEvent<T>) -> (
    QueryState,
    Option<QueryAction<T>>,
) {
    match (state, event) {
        (QueryState::OpeningTunnel, QueryEvent::TunnelOpened { tunnel }) => match tunnel {
            Ok(db_tunnel) => (QueryState::Executing, Some(QueryAction::Exec { db_tunnel })),
            Err(error) => (
                QueryState::Finished,
                Some(
                    QueryAction::Finish {
                        outcome: Err(Error::SshJumper(Arc::new(error))),
                        disconnect_error: None,
                    },
                ),
            ),
        },
        (QueryState::Executing, QueryEvent::Executed { outcome }) => (
            QueryState::Finished,
            Some(
                QueryAction::Finish {
                    outcome: match outcome {
                        Ok(query_result) => Ok(query_result),
                        Err(error) => Err(error.flat()),
                    },
                    disconnect_error: match outcome {
                        Ok(_) => None,
                        Err(error) => error.disconnect_failure(),
                    },
                },
            ),
        ),
        _ => (state, None),
    }
}

impl QueryState {
    /// Takes in what the caller reports, and returns the next state and what
    /// the caller is asked to do next.
    pub fn step<T>(self, event: QueryEvent<T>) -> (next: (QueryState, Option<QueryAction<T>>))
        ensures
            next == query_step(self, event),
    {
        match self {
            QueryState::OpeningTunnel => match event {
                QueryEvent::TunnelOpened { tunnel } => match tunnel {
                    Ok(db_tunnel) => (QueryState::Executing, Some(QueryAction::Exec { db_tunnel })),
                    Err(error) => (
                        QueryState::Finished,
                        Some(
                            QueryAction::Finish {
                                outcome: Err(Error::from(error)),
                                disconnect_error: None,
                            },
                        ),
                    ),
                },
                QueryEvent::Executed { .. } => (self, None),
            },
            QueryState::Executing => match event {
                QueryEvent::Executed { outcome } => {
                    let (outcome, disconnect_error) = match outcome {
                        Ok(query_result) => (Ok(query_result), None),
                        Err(error) => {
                            let (primary, disconnect_error) = error.split();
                            (Err(primary.flatten()), disconnect_error)
                        },
                    };
                    (
                        QueryState::Finished,
                        Some(QueryAction::Finish { outcome, disconnect_error }),
                    )
                },
                QueryEvent::TunnelOpened { .. } => (self, None),
            },
            QueryState::Finished => (self, None),
        }
    }
}

/// A connection that the pool refuses: the statement ends at once with
/// [`Error::MySqlConnectionRetrieve`] and the error of the SQL driver, and
/// when the pool has disconnected, that error is the error of the query
/// target, as it is.
pub proof fn law_refused_connection_is_the_error<T>(
    run: QueryRunView<T>,
    refused: DriverError,
)
    requires
        run.phase is Connecting,
    ensures
        run.step(QueryRunEvent::Connected { connection: Err(refused) }).0.phase is Finished,
        run.step(QueryRunEvent::Connected { connection: Err(refused) }).0.failure == Some(
            Error::MySqlConnectionRetrieve(refused),
        ),
        exec_outcome::<QueryResult<T>, Error>(
            Err(Error::MySqlConnectionRetrieve(refused)),
            Ok(()),
        ) == Err::<QueryResult<T>, ExecError<Error>>(
            ExecError::Queries(Error::MySqlConnectionRetrieve(refused)),
        ),
        ExecError::Queries(Error::MySqlConnectionRetrieve(refused)).flat()
            == Error::MySqlConnectionRetrieve(refused),
{
}

/// Runs queries for one or more query targets.
#[derive(Clone, Copy, Debug)]
pub struct QueryRunner {
    /// Runs SQL over an SSH connection.
    pub sql_over_ssh: SqlOverSsh,
    /// Maximum number of SSH connections to run concurrently.
    pub ssh_concurrent_limit: usize,
    /// Maximum number of tunnels per SSH connection.
    pub tunnels_per_ssh_connection: usize,
}

impl QueryRunner {
    /// Maximum number of SSH connections to run concurrently, unless another
    /// is given.
    pub const SSH_CONCURRENT_LIMIT_DEFAULT: usize = 20;

    /// Maximum number of tunnels per SSH connection, unless another is given.
    pub const TUNNELS_PER_SSH_CONNECTION_DEFAULT: usize = 3;

    /// Returns a new `QueryRunner` with the given connection limits.
    pub fn new(ssh_concurrent_limit: usize, tunnels_per_ssh_connection: usize) -> (runner: Self)
        ensures
            runner.ssh_concurrent_limit == ssh_concurrent_limit,
            runner.tunnels_per_ssh_connection == tunnels_per_ssh_connection,
    {
        QueryRunner { sql_over_ssh: SqlOverSsh, ssh_concurrent_limit, tunnels_per_ssh_connection }
    }

    /// Begins a query on a single query target over an SSH connection: asks
    /// for the tunnel, bound locally to a port that the operating system
    /// chooses.
    pub fn query<T>(&self) -> (started: (QueryState, QueryAction<T>))
        ensures
            started.0 == QueryState::OpeningTunnel,
            started.1 matches QueryAction::OpenTunnel { local_socket, db_port }
                && local_socket.ip@ == "127.0.0.1"@ && local_socket.port == 0 && db_port
                == DB_PORT,
    {
        (
            QueryState::OpeningTunnel,
            QueryAction::OpenTunnel {
                local_socket: SocketAddress::local_os_chosen(),
                db_port: DB_PORT,
            },
        )
    }

    /// Begins the same query on multiple query targets.
    ///
    /// The query targets are cut into chunks of `tunnels_per_ssh_connection`
    /// that share one SSH session each, and sessions are asked for the first
    /// chunks, as many as `ssh_concurrent_limit` allows. In the end
    /// [`Batch::into_query_outcome`] hands out a result or an error for each
    /// query target.
    pub fn query_multi<'a, S, T>(
        &self,
        jump_host_address: &HostAddress<'_>,
        query_targets: &'a [QueryTarget<'a>],
    ) -> (started: (Batch<'a, S, QueryResult<T>, Error>, Vec<BatchAction<S>>))
        requires
            self.ssh_concurrent_limit > 0,
            self.tunnels_per_ssh_connection > 0,
        ensures
            started.0.wf(),
            started.0@.ssh_concurrent_limit == self.ssh_concurrent_limit,
            started.0@.tunnels_per_ssh_connection == self.tunnels_per_ssh_connection,
            started.0@.jump_host_address == *jump_host_address,
            started.0@.query_targets == query_targets@,
            started.0@.is_initial(),
            started.1@ == Seq::new(
                started.0@.next_chunk,
                |j: int| BatchAction::<S>::PrepareTunnels { chunk: j as usize },
            ),
    {
        self.exec_multi(jump_host_address, query_targets)
    }

    /// Begins the same operation on multiple query targets.
    ///
    /// The query targets are cut into chunks of `tunnels_per_ssh_connection`
    /// that share one SSH session each, and sessions are asked for the first
    /// chunks, as many as `ssh_concurrent_limit` allows. In the end
    /// [`Batch::into_outcome`] hands out an output or an error for each
    /// query target.
    pub fn exec_multi<'a, S, O, E>(
        &self,
        jump_host_address: &HostAddress<'_>,
        query_targets: &'a [QueryTarget<'a>],
    ) -> (started: (Batch<'a, S, O, E>, Vec<BatchAction<S>>))
        requires
            self.ssh_concurrent_limit > 0,
            self.tunnels_per_ssh_connection > 0,
        ensures
            started.0.wf(),
            started.0@.ssh_concurrent_limit == self.ssh_concurrent_limit,
            started.0@.tunnels_per_ssh_connection == self.tunnels_per_ssh_connection,
            started.0@.jump_host_address == *jump_host_address,
            started.0@.query_targets == query_targets@,
            started.0@.is_initial(),
            started.1@ == Seq::new(
                started.0@.next_chunk,
                |j: int| BatchAction::<S>::PrepareTunnels { chunk: j as usize },
            ),
    {
        Batch::start(
            self.ssh_concurrent_limit,
            self.tunnels_per_ssh_connection,
            jump_host_address,
            query_targets,
        )
    }

    /// Begins to run the statement on the database of a query target, with
    /// taking a connection from the pool.
    pub fn query_run<T>(query_target: &QueryTarget<'_>) -> (started: (QueryRun<T>, QueryRunAction))
        ensures
            started.0@ == (QueryRunView::<T> {
                name: query_target.name@,
                phase: QueryRunPhase::Connecting,
                result_sets: Seq::empty(),
                failure: None,
            }),
            started.1 == QueryRunAction::GetConn,
    {
        QueryRun::new(owned_text(&query_target.name))
    }

    /// Begins to fetch the result sets of a statement that was executed:
    /// a query may have multiple result sets.
    pub fn query_result_fetch<T>(query_target_name: String) -> (started: (
        QueryRun<T>,
        QueryRunAction,
    ))
        ensures
            started.0@ == (QueryRunView::<T> {
                name: query_target_name@,
                phase: QueryRunPhase::Fetching,
                result_sets: Seq::empty(),
                failure: None,
            }),
            started.1 == QueryRunAction::FetchResultSet,
    {
        QueryRun::fetching(query_target_name)
    }
}

impl Default for QueryRunner {
    fn default() -> (runner: Self)
        ensures
            runner.ssh_concurrent_limit == QueryRunner::SSH_CONCURRENT_LIMIT_DEFAULT,
            runner.tunnels_per_ssh_connection == QueryRunner::TUNNELS_PER_SSH_CONNECTION_DEFAULT,
    {
        QueryRunner::new(
            QueryRunner::SSH_CONCURRENT_LIMIT_DEFAULT,
            QueryRunner::TUNNELS_PER_SSH_CONNECTION_DEFAULT,
        )
    }
}

} // verus!
