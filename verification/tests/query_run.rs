use mysql_async_support::query_run::{QueryRun, QueryRunAction, QueryRunEvent};
use mysql_async_support::query_runner::{QueryAction, QueryEvent, QueryState};
use mysql_async_support::ssh_tunnel_manager::DB_PORT;
use mysql_async_support::{
    DbSchemaCred, Error, ExecError, QueryResult, QueryRunner, QueryTarget, ResultSet,
    SocketAddress,
};
use ssh_jumper::model::HostAddress;
use std::borrow::Cow;

fn target(name: &'static str) -> QueryTarget<'static> {
    QueryTarget {
        name: Cow::Borrowed(name),
        db_address: HostAddress::HostName(Cow::Borrowed("db.internal")),
        db_schema_cred: DbSchemaCred {
            schema_name: None,
            username: Cow::Borrowed("user"),
            password: Cow::Borrowed("secret"),
        },
    }
}

fn driver_error() -> mysql_async::Error {
    mysql_async::Error::Driver(mysql_async::DriverError::ConnectionClosed)
}

fn result_set(affected_rows: u64, values: Vec<&'static str>) -> ResultSet<&'static str> {
    ResultSet { affected_rows, warning_count: 2, info: String::from("Rows matched: 1"), values }
}

fn executed() -> QueryRun<&'static str> {
    let (mut run, action) = QueryRunner::query_run(&target("a"));
    assert_eq!(QueryRunAction::GetConn, action);
    assert_eq!(
        Some(QueryRunAction::Prepare),
        run.step(QueryRunEvent::Connected { connection: Ok(()) })
    );
    assert_eq!(
        Some(QueryRunAction::Execute),
        run.step(QueryRunEvent::Prepared { statement: Ok(()) })
    );
    assert_eq!(
        Some(QueryRunAction::FetchResultSet),
        run.step(QueryRunEvent::Executed { execution: Ok(()) })
    );
    run
}

#[test]
fn result_sets_keep_the_order_in_which_they_came() {
    let mut run = executed();
    let first = result_set(0, vec!["r1"]);
    let second = result_set(3, vec!["r2a", "r2b"]);

    assert_eq!(
        Some(QueryRunAction::FetchResultSet),
        run.step(QueryRunEvent::ResultSetFetched { fetched: Some(Ok(first.clone())) })
    );
    assert_eq!(
        Some(QueryRunAction::FetchResultSet),
        run.step(QueryRunEvent::ResultSetFetched { fetched: Some(Ok(second.clone())) })
    );
    assert_eq!(
        Some(QueryRunAction::Finish),
        run.step(QueryRunEvent::ResultSetFetched { fetched: None })
    );

    let query_result = run.into_result().expect("finished").expect("no failure");
    assert_eq!(QueryResult { name: String::from("a"), result_sets: vec![first, second] }, query_result);
}

#[test]
fn statement_without_result_set_has_none() {
    let mut run = executed();

    run.step(QueryRunEvent::ResultSetFetched { fetched: None });

    let query_result = run.into_result().expect("finished").expect("no failure");
    assert_eq!("a", query_result.name);
    assert!(query_result.result_sets.is_empty());
}

#[test]
fn failed_connection_is_a_connection_retrieve_error() {
    let (mut run, _) = QueryRunner::query_run::<u8>(&target("a"));

    let action = run.step(QueryRunEvent::Connected { connection: Err(driver_error()) });

    assert_eq!(Some(QueryRunAction::Finish), action);
    assert!(matches!(run.into_result(), Some(Err(Error::MySqlConnectionRetrieve(_)))));
}

#[test]
fn failed_prepare_is_a_prepare_error() {
    let (mut run, _) = QueryRunner::query_run::<u8>(&target("a"));
    run.step(QueryRunEvent::Connected { connection: Ok(()) });

    let action = run.step(QueryRunEvent::Prepared { statement: Err(driver_error()) });

    assert_eq!(Some(QueryRunAction::Finish), action);
    assert!(matches!(run.into_result(), Some(Err(Error::MySqlPrepare(_)))));
}

#[test]
fn failed_execute_is_an_execute_error() {
    let (mut run, _) = QueryRunner::query_run::<u8>(&target("a"));
    run.step(QueryRunEvent::Connected { connection: Ok(()) });
    run.step(QueryRunEvent::Prepared { statement: Ok(()) });

    let action = run.step(QueryRunEvent::Executed { execution: Err(driver_error()) });

    assert_eq!(Some(QueryRunAction::Finish), action);
    assert!(matches!(run.into_result(), Some(Err(Error::MySqlExecute(_)))));
}

#[test]
fn failed_fetch_drops_the_result_sets_fetched_before() {
    let mut run = executed();
    run.step(QueryRunEvent::ResultSetFetched { fetched: Some(Ok(result_set(0, vec!["r1"]))) });

    let action = run.step(QueryRunEvent::ResultSetFetched { fetched: Some(Err(driver_error())) });

    assert_eq!(Some(QueryRunAction::Finish), action);
    assert!(matches!(run.into_result(), Some(Err(Error::QueryResultSetFetch(_)))));
}

#[test]
fn run_that_is_not_finished_has_no_result() {
    let (mut run, _) = QueryRunner::query_run::<u8>(&target("a"));
    run.step(QueryRunEvent::Connected { connection: Ok(()) });

    assert!(run.into_result().is_none());
}

#[test]
fn events_out_of_turn_change_nothing() {
    let (mut run, _) = QueryRunner::query_run::<u8>(&target("a"));

    assert_eq!(None, run.step(QueryRunEvent::Prepared { statement: Ok(()) }));
    assert_eq!(None, run.step(QueryRunEvent::Executed { execution: Err(driver_error()) }));
    assert_eq!(None, run.step(QueryRunEvent::ResultSetFetched { fetched: None }));
    assert_eq!(
        Some(QueryRunAction::Prepare),
        run.step(QueryRunEvent::Connected { connection: Ok(()) })
    );
}

#[test]
fn nothing_is_asked_for_after_the_run_is_finished() {
    let mut run = executed();
    run.step(QueryRunEvent::ResultSetFetched { fetched: None });

    assert_eq!(
        None,
        run.step(QueryRunEvent::ResultSetFetched { fetched: Some(Ok(result_set(0, vec![]))) })
    );
    let query_result = run.into_result().expect("finished").expect("no failure");
    assert!(query_result.result_sets.is_empty());
}

#[test]
fn query_result_fetch_begins_with_fetching() {
    let (mut run, action) = QueryRunner::query_result_fetch(String::from("b"));
    assert_eq!(QueryRunAction::FetchResultSet, action);

    run.step(QueryRunEvent::ResultSetFetched { fetched: Some(Ok(result_set(1, vec!["x"]))) });
    run.step(QueryRunEvent::ResultSetFetched { fetched: None });

    let query_result = run.into_result().expect("finished").expect("no failure");
    assert_eq!("b", query_result.name);
    assert_eq!(vec![result_set(1, vec!["x"])], query_result.result_sets);
    assert_eq!(1, query_result.result_sets[0].affected_rows);
    assert_eq!(2, query_result.result_sets[0].warning_count);
    assert_eq!("Rows matched: 1", query_result.result_sets[0].info);
}

#[test]
fn query_begins_with_a_tunnel_on_a_port_that_the_system_chooses() {
    let (state, action) = QueryRunner::default().query::<u8>();

    assert_eq!(QueryState::OpeningTunnel, state);
    match action {
        QueryAction::OpenTunnel { local_socket, db_port } => {
            assert_eq!("127.0.0.1", local_socket.ip);
            assert_eq!(0, local_socket.port);
            assert_eq!(DB_PORT, db_port);
        }
        _ => panic!("expected a tunnel to be asked for"),
    }
}

#[test]
fn query_runs_through_the_tunnel_and_hands_out_the_result() {
    let (state, _) = QueryRunner::default().query::<u8>();
    let db_tunnel = SocketAddress { ip: String::from("127.0.0.1"), port: 40123 };

    let (state, action) = state.step::<u8>(QueryEvent::TunnelOpened { tunnel: Ok(db_tunnel.clone()) });
    assert_eq!(QueryState::Executing, state);
    assert!(matches!(action, Some(QueryAction::Exec { db_tunnel: asked }) if asked == db_tunnel));

    let query_result: QueryResult<u8> = QueryResult { name: String::from("a"), result_sets: vec![] };
    let (state, action) = state.step(QueryEvent::Executed { outcome: Ok(query_result.clone()) });
    assert_eq!(QueryState::Finished, state);
    assert!(matches!(action, Some(QueryAction::Finish { outcome: Ok(handed), disconnect_error: None }) if handed == query_result));
}

#[test]
fn query_without_tunnel_fails_with_the_error_of_the_tunnel() {
    let (state, _) = QueryRunner::default().query::<u8>();

    let (state, action) = state.step::<u8>(QueryEvent::TunnelOpened {
        tunnel: Err(ssh_jumper::model::Error::SshUserAuthUnknownError),
    });

    assert_eq!(QueryState::Finished, state);
    assert!(matches!(action, Some(QueryAction::Finish { outcome: Err(Error::SshJumper(_)), disconnect_error: None })));
}

#[test]
fn query_hands_out_the_error_of_the_statement() {
    let (state, _) = QueryRunner::default().query::<u8>();
    let db_tunnel = SocketAddress { ip: String::from("127.0.0.1"), port: 40123 };
    let (state, _) = state.step::<u8>(QueryEvent::TunnelOpened { tunnel: Ok(db_tunnel) });

    let (_, action) = state.step::<u8>(QueryEvent::Executed {
        outcome: Err(ExecError::Queries(Error::MySqlPrepare(driver_error()))),
    });

    assert!(matches!(action, Some(QueryAction::Finish { outcome: Err(Error::MySqlPrepare(_)), disconnect_error: None })));
}

#[test]
fn query_hands_out_the_error_of_disconnecting_beside_the_error_of_the_statement() {
    let (state, _) = QueryRunner::default().query::<u8>();
    let db_tunnel = SocketAddress { ip: String::from("127.0.0.1"), port: 40123 };
    let (state, _) = state.step::<u8>(QueryEvent::TunnelOpened { tunnel: Ok(db_tunnel) });

    let (_, action) = state.step::<u8>(QueryEvent::Executed {
        outcome: Err(ExecError::QueriesAndDisconnect {
            queries: Error::MySqlExecute(driver_error()),
            disconnect: Error::MySqlPoolDisconnect(driver_error()),
        }),
    });

    assert!(matches!(
        action,
        Some(QueryAction::Finish {
            outcome: Err(Error::MySqlExecute(_)),
            disconnect_error: Some(Error::MySqlPoolDisconnect(_)),
        })
    ));
}

#[test]
fn query_hands_out_a_failed_disconnect_after_success_as_the_outcome() {
    let (state, _) = QueryRunner::default().query::<u8>();
    let db_tunnel = SocketAddress { ip: String::from("127.0.0.1"), port: 40123 };
    let (state, _) = state.step::<u8>(QueryEvent::TunnelOpened { tunnel: Ok(db_tunnel) });

    let (_, action) = state.step::<u8>(QueryEvent::Executed {
        outcome: Err(ExecError::Support(Error::MySqlPoolDisconnect(driver_error()))),
    });

    assert!(matches!(
        action,
        Some(QueryAction::Finish {
            outcome: Err(Error::MySqlPoolDisconnect(_)),
            disconnect_error: None,
        })
    ));
}

#[test]
fn query_events_out_of_turn_change_nothing() {
    let (state, _) = QueryRunner::default().query::<u8>();

    let (state, action) = state.step::<u8>(QueryEvent::Executed {
        outcome: Err(ExecError::Support(Error::SshConnInit)),
    });

    assert_eq!(QueryState::OpeningTunnel, state);
    assert!(action.is_none());
}
