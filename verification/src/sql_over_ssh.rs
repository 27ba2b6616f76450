use crate::db_schema_cred::{owned_text, DbSchemaCred, DbSchemaCredView};
use crate::error::Error;
use crate::exec_error::ExecError;
use crate::socket_address::SocketAddress;
use mysql_async::Error as DriverError;
use mysql_async::{OptsBuilder, Pool, PoolConstraints, PoolOpts};
use vstd::prelude::*;

verus! {

/// Connection pool of the SQL driver. Nothing in this library reads what is
/// inside: a pool is built, lent to the operation, and disconnected.
#[verifier::external_type_specification]
#[verifier::external_body]
pub struct ExPool(Pool);

/// Bounds on the number of connections of a pool, as the SQL driver holds
/// them.
#[verifier::external_type_specification]
#[verifier::external_body]
pub struct ExPoolConstraints(PoolConstraints);

/// Options of a pool, as the SQL driver holds them.
#[verifier::external_type_specification]
#[verifier::external_body]
pub struct ExPoolOpts(PoolOpts);

/// Options of a connection, as the SQL driver holds them while they are
/// put together.
#[verifier::external_type_specification]
#[verifier::external_body]
pub struct ExOptsBuilder(OptsBuilder);

/// What this library sets of the options of a connection.
pub struct DbSettings {
    /// IP address or host name of the database server.
    pub ip_or_hostname: Seq<char>,
    /// Port of the database server.
    pub tcp_port: u16,
    /// Database schema name, `None` if no schema is selected.
    pub db_name: Option<Seq<char>>,
    /// Username to login to the database server, if any.
    pub user: Option<Seq<char>>,
    /// Password to login to the database server, if any.
    pub pass: Option<Seq<char>>,
    /// Least number of connections that the pool keeps.
    pub pool_min: usize,
    /// Greatest number of connections that the pool opens.
    pub pool_max: usize,
}

/// The least and the greatest number of connections that the constraints
/// hold.
pub uninterp spec fn constraints_bounds(constraints: PoolConstraints) -> (usize, usize);

/// The least and the greatest number of connections that the options of a
/// pool hold.
pub uninterp spec fn pool_opts_bounds(pool_opts: PoolOpts) -> (usize, usize);

/// The host, port, schema, user, password and pool bounds that the options
/// of a connection hold.
pub uninterp spec fn opts_settings(db_opts: OptsBuilder) -> DbSettings;

/// The options that a pool was made with.
pub uninterp spec fn pool_opts_of(pool: Pool) -> OptsBuilder;

/// The text of each name that is there.
pub open spec fn text_of(name: Option<&str>) -> Option<Seq<char>> {
    match name {
        Some(name) => Some(name@),
        None => None,
    }
}

/// Calls `PoolConstraints::new`, which returns the constraints of `min` and
/// `max` where `min` is not above `max` and `max` is not zero, and `None`
/// otherwise.
#[verifier::external_body]
fn pool_constraints(min: usize, max: usize) -> (constraints: Option<PoolConstraints>)
    ensures
        constraints.is_some() == (min <= max && max > 0),
        constraints matches Some(made) ==> constraints_bounds(made) == (min, max),
{
    PoolConstraints::new(min, max)
}

/// Calls `PoolOpts::default`.
#[verifier::external_body]
fn pool_opts_default() -> (pool_opts: PoolOpts) {
    PoolOpts::default()
}

/// Calls `PoolOpts::with_constraints`, which stores the constraints.
#[verifier::external_body]
fn pool_opts_with_constraints(pool_opts: PoolOpts, constraints: PoolConstraints) -> (with: PoolOpts)
    ensures
        pool_opts_bounds(with) == constraints_bounds(constraints),
{
    pool_opts.with_constraints(constraints)
}

/// Calls `OptsBuilder::default`.
#[verifier::external_body]
fn opts_default() -> (db_opts: OptsBuilder) {
    OptsBuilder::default()
}

/// Calls `OptsBuilder::ip_or_hostname`, which stores the host and leaves the
/// rest as it is.
#[verifier::external_body]
fn opts_ip_or_hostname(db_opts: OptsBuilder, ip_or_hostname: &str) -> (with: OptsBuilder)
    ensures
        opts_settings(with) == (DbSettings {
            ip_or_hostname: ip_or_hostname@,
            ..opts_settings(db_opts)
        }),
{
    db_opts.ip_or_hostname(ip_or_hostname)
}

/// Calls `OptsBuilder::tcp_port`, which stores the port and leaves the rest
/// as it is.
#[verifier::external_body]
fn opts_tcp_port(db_opts: OptsBuilder, tcp_port: u16) -> (with: OptsBuilder)
    ensures
        opts_settings(with) == (DbSettings { tcp_port, ..opts_settings(db_opts) }),
{
    db_opts.tcp_port(tcp_port)
}

/// Calls `OptsBuilder::db_name`, which stores the schema name and leaves the
/// rest as it is.
#[verifier::external_body]
fn opts_db_name(db_opts: OptsBuilder, db_name: Option<&str>) -> (with: OptsBuilder)
    ensures
        opts_settings(with) == (DbSettings { db_name: text_of(db_name), ..opts_settings(db_opts) }),
{
    db_opts.db_name(db_name)
}

/// Calls `OptsBuilder::user`, which stores the user and leaves the rest as
/// it is.
#[verifier::external_body]
fn opts_user(db_opts: OptsBuilder, user: Option<&str>) -> (with: OptsBuilder)
    ensures
        opts_settings(with) == (DbSettings { user: text_of(user), ..opts_settings(db_opts) }),
{
    db_opts.user(user)
}

/// Calls `OptsBuilder::pass`, which stores the password and leaves the rest
/// as it is.
#[verifier::external_body]
fn opts_pass(db_opts: OptsBuilder, pass: Option<&str>) -> (with: OptsBuilder)
    ensures
        opts_settings(with) == (DbSettings { pass: text_of(pass), ..opts_settings(db_opts) }),
{
    db_opts.pass(pass)
}

/// Calls `OptsBuilder::pool_opts`, which stores the options of the pool and
/// leaves the rest as it is.
#[verifier::external_body]
fn opts_pool_opts(db_opts: OptsBuilder, pool_opts: PoolOpts) -> (with: OptsBuilder)
    ensures
        opts_settings(with) == (DbSettings {
            pool_min: pool_opts_bounds(pool_opts).0,
            pool_max: pool_opts_bounds(pool_opts).1,
            ..opts_settings(db_opts)
        }),
{
    db_opts.pool_opts(Some(pool_opts))
}

/// Calls `Pool::new`, which makes a pool with the given options that has no
/// connection yet. It sets room aside for as many connections as the pool
/// may open, so their number must be small.
#[verifier::external_body]
fn pool_new(db_opts: OptsBuilder) -> (pool: Pool)
    requires
        opts_settings(db_opts).pool_max <= POOL_MAX_LIMIT,
    ensures
        pool_opts_of(pool) == db_opts,
{
    Pool::new(db_opts)
}

/// Whether a pool may keep `min` and open up to `max` connections: `min` is
/// not above `max`, and `max` is neither zero nor above [`POOL_MAX_LIMIT`].
pub open spec fn pool_bounds_valid(min: usize, max: usize) -> bool {
    min <= max && 0 < max <= POOL_MAX_LIMIT
}

/// What the options hold to connect to the database at `db_address` with the
/// given credentials, and to pool between `min` and `max` connections.
pub open spec fn pool_settings(
    db_address: SocketAddress,
    db_schema_cred: DbSchemaCredView,
    min: usize,
    max: usize,
) -> DbSettings {
    DbSettings {
        ip_or_hostname: db_address.ip@,
        tcp_port: db_address.port,
        db_name: db_schema_cred.schema_name,
        user: Some(db_schema_cred.username),
        pass: Some(db_schema_cred.password),
        pool_min: min,
        pool_max: max,
    }
}

/// Greatest number of connections that any pool may open: a pool serves one
/// operation and is never unbounded.
pub const POOL_MAX_LIMIT: usize = 10;

/// Least number of connections that a pool keeps.
pub const POOL_MIN: usize = 1;

/// Greatest number of connections that a pool opens: enough for one
/// operation.
pub const POOL_MAX: usize = 2;

/// How far one operation on one database has come, once its pool is built.
///
/// # Type Parameters
///
/// * `T`: Output of the operation.
/// * `E`: Error of the operation.
pub enum ExecState<T, E> {
    /// The pool is with the operation.
    Running,
    /// The operation returned `result`; the pool is being disconnected.
    Disconnecting { result: Result<T, E> },
    /// The outcome was handed out.
    Finished,
}

/// What the caller reports back.
pub enum ExecEvent<T, E> {
    /// The operation returned, and gave the pool back.
    OperationReturned { pool: Pool, result: Result<T, E> },
    /// The pool was disconnected, or could not be.
    Disconnected { disconnected: Result<(), DriverError> },
}

/// What the caller is asked to do next.
pub enum ExecAction<T, E> {
    /// Run the operation with the pool.
    RunOperation { pool: Pool },
    /// Disconnect the pool.
    Disconnect { pool: Pool },
    /// Hand out the outcome: nothing is left to do.
    Finish { outcome: Result<T, ExecError<E>> },
}

/// The outcome of an operation that returned `result` and whose pool was then
/// disconnected with `disconnected`: the operation's own error comes first,
/// then the error of disconnecting. Where both failed, the error of
/// disconnecting is kept beside the error of the operation.
pub open spec fn exec_outcome<T, E>(
    result: Result<T, E>,
    disconnected: Result<(), DriverError>,
) -> Result<T, ExecError<E>> {
    match result {
        Err(queries) => match disconnected {
            Ok(_) => Err(ExecError::Queries(queries)),
            Err(error) => Err(
                ExecError::QueriesAndDisconnect {
                    queries,
                    disconnect: Error::MySqlPoolDisconnect(error),
                },
            ),
        },
        Ok(output) => match disconnected {
            Ok(_) => Ok(output),
            Err(error) => Err(ExecError::Support(Error::MySqlPoolDisconnect(error))),
        },
    }
}

/// The state after an event, and what the caller is asked to do then. An
/// event that the state does not wait for changes nothing and asks for
/// nothing.
pub open spec fn exec_step<T, E>(state: ExecState<T, E>, event: ExecEvent<T, E>) -> (
    ExecState<T, E>,
    Option<ExecAction<T, E>>,
) {
    match (state, event) {
        (ExecState::Running, ExecEvent::OperationReturned { pool, result }) => (
            ExecState::Disconnecting { result },
            Some(ExecAction::Disconnect { pool }),
        ),
        (ExecState::Disconnecting { result }, ExecEvent::Disconnected { disconnected }) => (
            ExecState::Finished,
            Some(ExecAction::Finish { outcome: exec_outcome(result, disconnected) }),
        ),
        _ => (state, None),
    }
}

/// The state after a run of events, and all that the caller was asked to do
/// meanwhile.
pub open spec fn exec_run<T, E>(state: ExecState<T, E>, events: Seq<ExecEvent<T, E>>) -> (
    ExecState<T, E>,
    Seq<ExecAction<T, E>>,
)
    decreases events.len(),
{
    if events.len() == 0 {
        (state, seq![])
    } else {
        let (before, actions) = exec_run(state, events.drop_last());
        let (after, action) = exec_step(before, events.last());
        (
            after,
            match action {
                Some(action) => actions.push(action),
                None => actions,
            },
        )
    }
}

/// How often the caller was asked to disconnect a pool.
pub open spec fn disconnects<T, E>(actions: Seq<ExecAction<T, E>>) -> nat
    decreases actions.len(),
{
    if actions.len() == 0 {
        0
    } else {
        disconnects(actions.drop_last()) + if actions.last() is Disconnect {
            1nat
        } else {
            0nat
        }
    }
}

impl<T, E> ExecState<T, E> {
    /// Takes in what the caller reports, and returns the next state and what
    /// the caller is asked to do next.
    ///
    /// When the operation has returned, the caller is asked to disconnect
    /// the pool that it gave back, whatever the operation returned. The
    /// outcome is handed out after that.
    pub fn step(self, event: ExecEvent<T, E>) -> (next: (
        ExecState<T, E>,
        Option<ExecAction<T, E>>,
    ))
        ensures
            next == exec_step(self, event),
    {
        match self {
            ExecState::Running => match event {
                ExecEvent::OperationReturned { pool, result } => (
                    ExecState::Disconnecting { result },
                    Some(ExecAction::Disconnect { pool }),
                ),
                ExecEvent::Disconnected { .. } => (ExecState::Running, None),
            },
            ExecState::Disconnecting { result } => match event {
                ExecEvent::Disconnected { disconnected } => {
                    let outcome = match result {
                        Err(queries) => match disconnected {
                            Ok(_) => Err(ExecError::Queries(queries)),
                            Err(error) => Err(
                                ExecError::QueriesAndDisconnect {
                                    queries,
                                    disconnect: Error::MySqlPoolDisconnect(error),
                                },
                            ),
                        },
                        Ok(output) => match disconnected {
                            Ok(_) => Ok(output),
                            Err(error) => Err(
                                ExecError::Support(Error::MySqlPoolDisconnect(error)),
                            ),
                        },
                    };
                    (ExecState::Finished, Some(ExecAction::Finish { outcome }))
                },
                ExecEvent::OperationReturned { .. } => (
                    ExecState::Disconnecting { result },
                    None,
                ),
            },
            ExecState::Finished => (ExecState::Finished, None),
        }
    }
}

/// Runs SQL over an SSH connection.
#[derive(Clone, Copy, Debug)]
pub struct SqlOverSsh;

impl SqlOverSsh {
    /// Returns the options to connect to the database at `db_address`, and
    /// to pool between `min` and `max` connections.
    ///
    /// Fails with [`Error::PoolConstraintsInitialize`] where `min` is above
    /// `max`, or `max` is zero or above [`POOL_MAX_LIMIT`], and on no other
    /// input.
    pub fn db_opts(
        &self,
        db_address: &SocketAddress,
        db_schema_cred: &DbSchemaCred<'_>,
        min: usize,
        max: usize,
    ) -> (db_opts: Result<OptsBuilder, Error>)
        ensures
            match db_opts {
                Ok(db_opts) => pool_bounds_valid(min, max) && opts_settings(db_opts)
                    == pool_settings(*db_address, db_schema_cred@, min, max),
                Err(error) => !pool_bounds_valid(min, max) && error is PoolConstraintsInitialize,
            },
    {
        if max > POOL_MAX_LIMIT {
            return Err(Error::PoolConstraintsInitialize);
        }
        match pool_constraints(min, max) {
            Some(constraints) => {
                let schema_name = match &db_schema_cred.schema_name {
                    Some(name) => Some(owned_text(name)),
                    None => None,
                };
                let db_name = match &schema_name {
                    Some(name) => Some(name.as_str()),
                    None => None,
                };
                let username = owned_text(&db_schema_cred.username);
                let password = owned_text(&db_schema_cred.password);
                let pool_opts = pool_opts_with_constraints(pool_opts_default(), constraints);
                let db_opts = opts_ip_or_hostname(opts_default(), db_address.ip.as_str());
                let db_opts = opts_tcp_port(db_opts, db_address.port);
                let db_opts = opts_db_name(db_opts, db_name);
                let db_opts = opts_user(db_opts, Some(username.as_str()));
                let db_opts = opts_pass(db_opts, Some(password.as_str()));
                Ok(opts_pool_opts(db_opts, pool_opts))
            },
            None => Err(Error::PoolConstraintsInitialize),
        }
    }

    /// Builds the connection pool for the database at `db_address`, with
    /// between `min` and `max` connections.
    ///
    /// Fails with [`Error::PoolConstraintsInitialize`] where `min` is above
    /// `max`, or `max` is zero or above [`POOL_MAX_LIMIT`], and on no other
    /// input.
    pub fn db_pool_initialize(
        &self,
        db_address: &SocketAddress,
        db_schema_cred: &DbSchemaCred<'_>,
        min: usize,
        max: usize,
    ) -> (pool: Result<Pool, Error>)
        ensures
            match pool {
                Ok(pool) => pool_bounds_valid(min, max) && opts_settings(pool_opts_of(pool))
                    == pool_settings(*db_address, db_schema_cred@, min, max),
                Err(error) => !pool_bounds_valid(min, max) && error is PoolConstraintsInitialize,
            },
    {
        match self.db_opts(db_address, db_schema_cred, min, max) {
            Ok(db_opts) => Ok(pool_new(db_opts)),
            Err(error) => Err(error),
        }
    }

    /// Begins an operation on the database at `db_address`: builds a pool of
    /// [`POOL_MIN`] to [`POOL_MAX`] connections and asks for the operation to
    /// be run with it.
    ///
    /// The caller runs the operation, reports with [`ExecState::step`] what
    /// it returned, and is then asked to disconnect the pool, whatever the
    /// operation returned. The outcome is handed out after that.
    pub fn exec<T, E>(&self, db_address: &SocketAddress, db_schema_cred: &DbSchemaCred<'_>) -> (started: (
        ExecState<T, E>,
        ExecAction<T, E>,
    ))
        ensures
            started.0 is Running,
            started.1 matches ExecAction::RunOperation { pool } && opts_settings(
                pool_opts_of(pool),
            ) == pool_settings(*db_address, db_schema_cred@, POOL_MIN, POOL_MAX),
    {
        self.exec_bounded(db_address, db_schema_cred, POOL_MIN, POOL_MAX)
    }

    /// Begins an operation on the database at `db_address`, with a pool of
    /// `min` to `max` connections.
    ///
    /// Where `min` is above `max`, or `max` is zero or above
    /// [`POOL_MAX_LIMIT`], no pool is built, nothing is run, and the outcome
    /// is [`Error::PoolConstraintsInitialize`].
    pub fn exec_bounded<T, E>(
        &self,
        db_address: &SocketAddress,
        db_schema_cred: &DbSchemaCred<'_>,
        min: usize,
        max: usize,
    ) -> (started: (ExecState<T, E>, ExecAction<T, E>))
        ensures
            if pool_bounds_valid(min, max) {
                started.0 is Running && (started.1 matches ExecAction::RunOperation { pool }
                    && opts_settings(pool_opts_of(pool)) == pool_settings(
                    *db_address,
                    db_schema_cred@,
                    min,
                    max,
                ))
            } else {
                started.0 is Finished && started.1 == ExecAction::<T, E>::Finish {
                    outcome: Err(ExecError::Support(Error::PoolConstraintsInitialize)),
                }
            },
    {
        match self.db_pool_initialize(db_address, db_schema_cred, min, max) {
            Ok(pool) => (ExecState::Running, ExecAction::RunOperation { pool }),
            Err(error) => (
                ExecState::Finished,
                ExecAction::Finish { outcome: Err(ExecError::Support(error)) },
            ),
        }
    }

}

/// What a run of events leads to, by the state that it starts in: the pool
/// is asked to be disconnected once the operation has returned and never
/// again, and the outcome is handed out after that only.
pub proof fn lemma_exec_run<T, E>(state: ExecState<T, E>, events: Seq<ExecEvent<T, E>>)
    ensures
        ({
            let (after, actions) = exec_run(state, events);
            match state {
                ExecState::Running => {
                    &&& after is Running ==> disconnects(actions) == 0
                    &&& !(after is Running) ==> disconnects(actions) == 1
                    &&& after is Running <==> forall|i: int|
                        0 <= i < events.len() ==> !((#[trigger] events[i]) is OperationReturned)
                },
                _ => disconnects(actions) == 0 && !(after is Running),
            }
        }),
    decreases events.len(),
{
    if events.len() > 0 {
        lemma_exec_run(state, events.drop_last());
        let (before, actions) = exec_run(state, events.drop_last());
        let (after, action) = exec_step(before, events.last());
        match action {
            Some(action) => {
                assert(actions.push(action).drop_last() =~= actions);
            },
            None => {},
        }
        if state is Running {
            if after is Running {
                assert forall|i: int| 0 <= i < events.len() implies !((
                #[trigger] events[i]) is OperationReturned) by {
                    if i < events.len() - 1 {
                        assert(events.drop_last()[i] == events[i]);
                    }
                }
            } else if before is Running {
                assert(events[events.len() - 1] is OperationReturned);
            } else {
                let i = choose|i: int|
                    0 <= i < events.drop_last().len() && (
                    #[trigger] events.drop_last()[i]) is OperationReturned;
                assert(events[i] is OperationReturned);
            }
        }
    }
}

/// Pool teardown: once a pool is built and lent to the operation, whatever
/// the caller reports and in whatever order, the caller is asked to
/// disconnect it exactly once as soon as the operation has returned, be it
/// with an output or with an error, and is never asked to before.
pub proof fn law_pool_disconnected_once<T, E>(events: Seq<ExecEvent<T, E>>)
    ensures
        disconnects(exec_run(ExecState::<T, E>::Running, events).1) == if exists|i: int|
            0 <= i < events.len() && (#[trigger] events[i]) is OperationReturned {
            1nat
        } else {
            0nat
        },
        exec_run(ExecState::<T, E>::Running, events).0 is Finished ==> disconnects(
            exec_run(ExecState::<T, E>::Running, events).1,
        ) == 1,
        disconnects(exec_run(ExecState::<T, E>::Finished, events).1) == 0,
{
    lemma_exec_run(ExecState::<T, E>::Running, events);
    lemma_exec_run(ExecState::<T, E>::Finished, events);
}

/// Whatever the operation returned, the next thing asked for is to disconnect
/// the pool that it gave back; and when both the operation and the
/// disconnecting fail, the outcome is the error of the operation, with the
/// error of disconnecting kept beside it.
pub proof fn law_disconnect_follows_operation<T, E>(
    pool: Pool,
    result: Result<T, E>,
    disconnected: Result<(), DriverError>,
)
    ensures
        exec_step(ExecState::Running, ExecEvent::OperationReturned { pool, result }).1 == Some(
            ExecAction::<T, E>::Disconnect { pool },
        ),
        exec_run(
            ExecState::Running,
            seq![
                ExecEvent::OperationReturned { pool, result },
                ExecEvent::Disconnected { disconnected },
            ],
        ).1 == seq![
            ExecAction::<T, E>::Disconnect { pool },
            ExecAction::<T, E>::Finish { outcome: exec_outcome(result, disconnected) },
        ],
        result matches Err(error) ==> (exec_outcome(result, disconnected) matches Err(failure)
            && failure.primary() == ExecError::Queries(error) && failure.disconnect_failure()
            == match disconnected {
            Ok(_) => None,
            Err(driver) => Some(Error::MySqlPoolDisconnect(driver)),
        }),
        result is Ok ==> exec_outcome(result, disconnected) == match disconnected {
            Ok(_) => Ok::<T, ExecError<E>>(result->Ok_0),
            Err(driver) => Err(ExecError::Support(Error::MySqlPoolDisconnect(driver))),
        },
{
    reveal_with_fuel(exec_run, 3);
}

} // verus!
