use mysql_async_support::batch::{plan_chunks, Batch, BatchAction, BatchEvent, ChunkRange};
use mysql_async_support::{
    DbSchemaCred, Error, ExecError, QueryResult, QueryRunner, QueryTarget, ResultSet,
    SocketAddress, SshTunnelMap,
};
use ssh_jumper::model::HostAddress;
use std::borrow::Cow;
use std::collections::VecDeque;

fn target(name: &'static str) -> QueryTarget<'static> {
    QueryTarget {
        name: Cow::Borrowed(name),
        db_address: HostAddress::HostName(Cow::Borrowed("db.internal")),
        db_schema_cred: DbSchemaCred {
            schema_name: Some(Cow::Borrowed("schema")),
            username: Cow::Borrowed("user"),
            password: Cow::Borrowed("secret"),
        },
    }
}

fn targets(names: &[&'static str]) -> Vec<QueryTarget<'static>> {
    names.iter().map(|name| target(name)).collect()
}

fn jump_host() -> HostAddress<'static> {
    HostAddress::HostName(Cow::Borrowed("jump.example.com"))
}

fn tunnel(port: u16) -> SocketAddress {
    SocketAddress { ip: String::from("127.0.0.1"), port }
}

fn one_row(name: &str) -> QueryResult<u32> {
    QueryResult {
        name: String::from(name),
        result_sets: vec![ResultSet {
            affected_rows: 0,
            warning_count: 0,
            info: String::new(),
            values: vec![1],
        }],
    }
}

fn auth_failure() -> Error {
    Error::from(ssh_jumper::model::Error::SshUserAuthUnknownError)
}

/// What a run of a batch looked like from outside.
struct Trace {
    sessions_asked: Vec<usize>,
    sessions_closed: Vec<usize>,
    targets_run: Vec<(usize, u16)>,
    most_sessions: usize,
    most_running_per_session: usize,
}

/// Runs a batch to its end. A session opens unless its chunk is in
/// `unreachable`; it has a tunnel for every query target but those in
/// `without_tunnel`; an operation succeeds unless its query target is in
/// `failing`. Operations finish last in, first out.
fn run<'a>(
    runner: &QueryRunner,
    query_targets: &'a [QueryTarget<'a>],
    unreachable: &[usize],
    without_tunnel: &[usize],
    failing: &[usize],
) -> (Batch<'a, u32, QueryResult<u32>, Error>, Trace) {
    let (mut batch, first) = runner.query_multi::<u32, u32>(&jump_host(), query_targets);
    let chunks = plan_chunks(query_targets.len(), runner.tunnels_per_ssh_connection).0;
    let mut trace = Trace {
        sessions_asked: vec![],
        sessions_closed: vec![],
        targets_run: vec![],
        most_sessions: 0,
        most_running_per_session: 0,
    };
    let mut open_sessions = 0usize;
    let mut running: Vec<usize> = vec![];
    let mut actions: VecDeque<BatchAction<u32>> = first.into_iter().collect();
    loop {
        while let Some(action) = actions.pop_front() {
            match action {
                BatchAction::PrepareTunnels { chunk } => {
                    trace.sessions_asked.push(chunk);
                    open_sessions += 1;
                    trace.most_sessions = trace.most_sessions.max(open_sessions);
                    let tunnels = if unreachable.contains(&chunk) {
                        open_sessions -= 1;
                        Err(auth_failure())
                    } else {
                        let mut tunnel_map = SshTunnelMap::new(chunk as u32);
                        for t in chunks[chunk].start..chunks[chunk].end {
                            if !without_tunnel.contains(&t) {
                                tunnel_map.insert(&query_targets[t].name, tunnel(10_000 + t as u16));
                            }
                        }
                        Ok(tunnel_map)
                    };
                    actions.extend(batch.step(BatchEvent::TunnelsReady { chunk, tunnels }));
                }
                BatchAction::RunTarget { target, db_tunnel } => {
                    assert_eq!("127.0.0.1", db_tunnel.ip);
                    trace.targets_run.push((target, db_tunnel.port));
                    running.push(target);
                    let chunk = target / runner.tunnels_per_ssh_connection;
                    let in_chunk = running
                        .iter()
                        .filter(|t| **t / runner.tunnels_per_ssh_connection == chunk)
                        .count();
                    trace.most_running_per_session = trace.most_running_per_session.max(in_chunk);
                }
                BatchAction::CloseSession { chunk, tunnel_map } => {
                    assert_eq!(chunk as u32, *tunnel_map.ssh_session());
                    assert!(running
                        .iter()
                        .all(|t| *t / runner.tunnels_per_ssh_connection != chunk));
                    trace.sessions_closed.push(chunk);
                    open_sessions -= 1;
                }
            }
        }
        match running.pop() {
            Some(target) => {
                let outcome = if failing.contains(&target) {
                    Err(ExecError::Queries(Error::MySqlConnectionRetrieve(
                        mysql_async::Error::Driver(mysql_async::DriverError::ConnectionClosed),
                    )))
                } else {
                    Ok(one_row("set by the batch"))
                };
                actions.extend(batch.step(BatchEvent::TargetFinished { target, outcome }));
            }
            None => break,
        }
    }
    assert_eq!(0, open_sessions);
    assert!(batch.is_complete());
    (batch, trace)
}

fn names<T>(results: &[QueryResult<T>]) -> Vec<&str> {
    results.iter().map(|result| result.name.as_str()).collect()
}

#[test]
fn plan_chunks_cuts_five_targets_into_three_and_two() {
    let (ranges, chunk_of) = plan_chunks(5, 3);

    assert_eq!(
        vec![ChunkRange { start: 0, end: 3 }, ChunkRange { start: 3, end: 5 }],
        ranges
    );
    assert_eq!(vec![0, 0, 0, 1, 1], chunk_of);
}

#[test]
fn plan_chunks_of_no_targets_has_no_chunk() {
    let (ranges, chunk_of) = plan_chunks(0, 3);

    assert!(ranges.is_empty());
    assert!(chunk_of.is_empty());
}

#[test]
fn plan_chunks_of_full_chunks_has_no_short_chunk() {
    let (ranges, chunk_of) = plan_chunks(4, 2);

    assert_eq!(
        vec![ChunkRange { start: 0, end: 2 }, ChunkRange { start: 2, end: 4 }],
        ranges
    );
    assert_eq!(vec![0, 0, 1, 1], chunk_of);
}

#[test]
fn plan_chunks_of_one_per_chunk() {
    let (ranges, _) = plan_chunks(3, 1);

    assert_eq!(
        vec![
            ChunkRange { start: 0, end: 1 },
            ChunkRange { start: 1, end: 2 },
            ChunkRange { start: 2, end: 3 }
        ],
        ranges
    );
}

#[test]
fn plan_chunks_larger_than_the_targets_is_one_chunk() {
    let (ranges, _) = plan_chunks(2, usize::MAX);

    assert_eq!(vec![ChunkRange { start: 0, end: 2 }], ranges);
}

#[test]
fn five_targets_all_reachable_give_five_results() {
    let query_targets = targets(&["a", "b", "c", "d", "e"]);
    let runner = QueryRunner::new(20, 3);

    let (batch, trace) = run(&runner, &query_targets, &[], &[], &[]);
    let (results, errors, disconnect_errors) = batch.into_query_outcome();
    assert!(disconnect_errors.is_empty());

    assert_eq!(vec![0, 1], trace.sessions_asked);
    assert_eq!(5, trace.targets_run.len());
    assert_eq!(vec!["a", "b", "c", "d", "e"], names(&results));
    assert!(results
        .iter()
        .all(|result| result.result_sets.len() == 1 && result.result_sets[0].values == vec![1]));
    assert!(errors.is_empty());
}

#[test]
fn four_targets_behind_unreachable_jump_host_give_four_errors() {
    let query_targets = targets(&["a", "b", "c", "d"]);

    for (limit, per_session, chunks) in [(20, 3, 2), (20, 4, 1), (1, 3, 2), (20, 1, 4)] {
        let runner = QueryRunner::new(limit, per_session);
        let unreachable: Vec<usize> = (0..chunks).collect();

        let (batch, trace) = run(&runner, &query_targets, &unreachable, &[], &[]);
        let (results, errors, disconnect_errors) = batch.into_query_outcome();
        assert!(disconnect_errors.is_empty());

        assert_eq!(chunks, trace.sessions_asked.len());
        assert!(trace.targets_run.is_empty());
        assert!(results.is_empty());
        assert_eq!(
            vec!["a", "b", "c", "d"],
            errors.iter().map(|error| error.name.as_str()).collect::<Vec<_>>()
        );
        assert!(errors
            .iter()
            .all(|error| error.message() == "SSH user auth with jump host failed with unknown cause."));
    }
}

#[test]
fn one_target_with_invalid_credentials_fails_alone() {
    let query_targets = targets(&["a", "b", "c", "d", "e"]);
    let runner = QueryRunner::new(20, 3);

    let (batch, _) = run(&runner, &query_targets, &[], &[], &[1]);
    let (results, errors, disconnect_errors) = batch.into_query_outcome();
    assert!(disconnect_errors.is_empty());

    assert_eq!(vec!["a", "c", "d", "e"], names(&results));
    assert_eq!(1, errors.len());
    assert_eq!("b", errors[0].name);
    assert!(matches!(errors[0].error, Error::MySqlConnectionRetrieve(_)));
}

#[test]
fn failed_session_fails_each_target_of_its_chunk_with_the_same_error() {
    let query_targets = targets(&["a", "b", "c", "d", "e", "f", "g"]);
    let runner = QueryRunner::new(20, 3);

    let (batch, trace) = run(&runner, &query_targets, &[1], &[], &[]);
    let (results, errors) = batch.into_outcome();

    assert_eq!(vec![0, 1, 2, 6], results.iter().map(|(t, _)| *t).collect::<Vec<_>>());
    assert_eq!(vec![3, 4, 5], errors.iter().map(|(t, _)| *t).collect::<Vec<_>>());
    let causes: Vec<_> = errors
        .iter()
        .map(|(_, error)| match error {
            ExecError::Support(Error::SshJumper(cause)) => cause.clone(),
            _ => panic!("every target of the chunk carries the error of the session"),
        })
        .collect();
    assert!(causes.iter().all(|cause| std::sync::Arc::ptr_eq(cause, &causes[0])));
    assert_eq!(vec![2, 0], trace.sessions_closed);
}

#[test]
fn no_more_sessions_than_the_limit_are_open_at_once() {
    let query_targets = targets(&["a", "b", "c", "d", "e", "f", "g", "h", "i", "j", "k"]);
    let runner = QueryRunner::new(2, 3);

    let (batch, trace) = run(&runner, &query_targets, &[], &[], &[]);
    let (results, errors, disconnect_errors) = batch.into_query_outcome();
    assert!(disconnect_errors.is_empty());

    assert_eq!(2, trace.most_sessions);
    assert_eq!(3, trace.most_running_per_session);
    assert_eq!(vec![0, 1, 2, 3], trace.sessions_asked);
    assert_eq!(11, results.len());
    assert!(errors.is_empty());
}

#[test]
fn start_asks_for_as_many_sessions_as_the_limit_allows() {
    let query_targets = targets(&["a", "b", "c", "d", "e", "f", "g"]);
    let runner = QueryRunner::new(2, 2);

    let (batch, actions) = runner.exec_multi::<u32, u32, u32>(&jump_host(), &query_targets);

    assert_eq!(2, actions.len());
    assert!(matches!(actions[0], BatchAction::PrepareTunnels { chunk: 0 }));
    assert!(matches!(actions[1], BatchAction::PrepareTunnels { chunk: 1 }));
    assert!(!batch.is_complete());
}

#[test]
fn batch_without_targets_is_complete_at_once() {
    let query_targets = targets(&[]);
    let runner = QueryRunner::default();

    let (batch, actions) = runner.exec_multi::<u32, u32, u32>(&jump_host(), &query_targets);

    assert!(actions.is_empty());
    assert!(batch.is_complete());
    let (results, errors) = batch.into_outcome();
    assert!(results.is_empty());
    assert!(errors.is_empty());
}

#[test]
fn next_session_is_asked_for_when_one_is_given_back() {
    let query_targets = targets(&["a", "b", "c"]);
    let runner = QueryRunner::new(1, 1);
    let (mut batch, actions) = runner.exec_multi::<u32, u32, u32>(&jump_host(), &query_targets);
    assert_eq!(1, actions.len());

    let mut tunnel_map = SshTunnelMap::new(0);
    tunnel_map.insert("a", tunnel(4000));
    let actions = batch.step(BatchEvent::TunnelsReady { chunk: 0, tunnels: Ok(tunnel_map) });
    assert_eq!(1, actions.len());
    assert!(matches!(
        &actions[0],
        BatchAction::RunTarget { target: 0, db_tunnel } if db_tunnel.port == 4000
    ));

    let actions = batch.step(BatchEvent::TargetFinished { target: 0, outcome: Ok(7) });
    assert_eq!(2, actions.len());
    assert!(matches!(&actions[0], BatchAction::CloseSession { chunk: 0, .. }));
    assert!(matches!(actions[1], BatchAction::PrepareTunnels { chunk: 1 }));
}

#[test]
fn session_stays_open_until_the_last_target_of_its_chunk_is_done() {
    let query_targets = targets(&["a", "b"]);
    let runner = QueryRunner::new(5, 2);
    let (mut batch, _) = runner.exec_multi::<u32, u32, u32>(&jump_host(), &query_targets);
    let mut tunnel_map = SshTunnelMap::new(0);
    tunnel_map.insert("a", tunnel(4000));
    tunnel_map.insert("b", tunnel(4001));
    let actions = batch.step(BatchEvent::TunnelsReady { chunk: 0, tunnels: Ok(tunnel_map) });
    assert_eq!(2, actions.len());

    let actions = batch.step(BatchEvent::TargetFinished { target: 1, outcome: Ok(1) });
    assert!(actions.is_empty());
    assert!(!batch.is_complete());

    let actions = batch.step(BatchEvent::TargetFinished {
        target: 0,
        outcome: Err(ExecError::Queries(9)),
    });
    assert_eq!(1, actions.len());
    assert!(matches!(&actions[0], BatchAction::CloseSession { chunk: 0, .. }));
    assert!(batch.is_complete());

    let (results, errors) = batch.into_outcome();
    assert_eq!(vec![(1, 1)], results);
    assert!(matches!(errors.as_slice(), [(0, ExecError::Queries(9))]));
}

#[test]
fn target_without_tunnel_fails_with_tunnel_not_found() {
    let query_targets = targets(&["a", "b", "c"]);
    let runner = QueryRunner::new(20, 3);

    let (batch, trace) = run(&runner, &query_targets, &[], &[1], &[]);
    let (results, errors, disconnect_errors) = batch.into_query_outcome();
    assert!(disconnect_errors.is_empty());

    assert_eq!(vec![(0, 10_000), (2, 10_002)], trace.targets_run);
    assert_eq!(vec!["a", "c"], names(&results));
    assert_eq!(1, errors.len());
    assert_eq!("b", errors[0].name);
    match &errors[0].error {
        Error::SshTunnelNotFound { jump_host_address, query_target } => {
            assert_eq!(&jump_host(), jump_host_address);
            assert_eq!(&query_targets[1], query_target);
        }
        _ => panic!("expected `Error::SshTunnelNotFound`"),
    }
    assert_eq!(
        "Expected SSH tunnel for `b: db.internal` to be established through jump host: \
         `jump.example.com`. This is likely a bug.",
        errors[0].error.message()
    );
}

#[test]
fn session_without_any_tunnel_is_given_back_at_once() {
    let query_targets = targets(&["a", "b"]);
    let runner = QueryRunner::new(1, 1);
    let (mut batch, _) = runner.exec_multi::<u32, u32, u32>(&jump_host(), &query_targets);

    let actions = batch.step(BatchEvent::TunnelsReady {
        chunk: 0,
        tunnels: Ok(SshTunnelMap::new(0)),
    });

    assert_eq!(2, actions.len());
    assert!(matches!(&actions[0], BatchAction::CloseSession { chunk: 0, .. }));
    assert!(matches!(actions[1], BatchAction::PrepareTunnels { chunk: 1 }));
}

#[test]
fn events_that_the_batch_does_not_wait_for_change_nothing() {
    let query_targets = targets(&["a", "b", "c"]);
    let runner = QueryRunner::new(1, 2);
    let (mut batch, _) = runner.exec_multi::<u32, u32, u32>(&jump_host(), &query_targets);

    assert!(batch.step(BatchEvent::TargetFinished { target: 0, outcome: Ok(1) }).is_empty());
    assert!(batch.step(BatchEvent::TargetFinished { target: 9, outcome: Ok(1) }).is_empty());
    assert!(batch
        .step(BatchEvent::TunnelsReady { chunk: 1, tunnels: Err(auth_failure()) })
        .is_empty());
    assert!(batch
        .step(BatchEvent::TunnelsReady { chunk: 7, tunnels: Ok(SshTunnelMap::new(7)) })
        .is_empty());

    let (results, errors) = batch.into_outcome();
    assert!(results.is_empty());
    assert!(errors.is_empty());
}

#[test]
fn outcome_before_the_end_holds_what_is_done() {
    let query_targets = targets(&["a", "b", "c"]);
    let runner = QueryRunner::new(2, 1);
    let (mut batch, _) = runner.exec_multi::<u32, u32, u32>(&jump_host(), &query_targets);
    batch.step(BatchEvent::TunnelsReady { chunk: 1, tunnels: Err(auth_failure()) });

    let (results, errors) = batch.into_outcome();

    assert!(results.is_empty());
    assert_eq!(vec![1], errors.iter().map(|(t, _)| *t).collect::<Vec<_>>());
}

#[test]
fn results_and_errors_together_name_every_target_once() {
    let query_targets = targets(&["a", "b", "c", "d", "e", "f", "g", "h"]);
    let runner = QueryRunner::new(2, 3);

    let (batch, _) = run(&runner, &query_targets, &[1], &[6], &[0, 7]);
    let (results, errors, disconnect_errors) = batch.into_query_outcome();
    assert!(disconnect_errors.is_empty());

    let mut all: Vec<&str> = names(&results);
    all.extend(errors.iter().map(|error| error.name.as_str()));
    all.sort();
    assert_eq!(vec!["a", "b", "c", "d", "e", "f", "g", "h"], all);
    assert_eq!(vec!["b", "c"], names(&results));
}

#[test]
fn failed_disconnect_after_failed_statement_stands_beside_the_error() {
    let query_targets = targets(&["a", "b"]);
    let runner = QueryRunner::new(20, 3);
    let (mut batch, _) = runner.query_multi::<u32, u32>(&jump_host(), &query_targets);
    let mut tunnel_map = SshTunnelMap::new(0);
    tunnel_map.insert("a", tunnel(4000));
    tunnel_map.insert("b", tunnel(4001));
    batch.step(BatchEvent::TunnelsReady { chunk: 0, tunnels: Ok(tunnel_map) });
    batch.step(BatchEvent::TargetFinished { target: 0, outcome: Ok(one_row("a")) });
    batch.step(BatchEvent::TargetFinished {
        target: 1,
        outcome: Err(ExecError::QueriesAndDisconnect {
            queries: Error::MySqlExecute(mysql_async::Error::Driver(
                mysql_async::DriverError::ConnectionClosed,
            )),
            disconnect: Error::MySqlPoolDisconnect(mysql_async::Error::Driver(
                mysql_async::DriverError::PoolDisconnected,
            )),
        }),
    });
    assert!(batch.is_complete());

    let (results, errors, disconnect_errors) = batch.into_query_outcome();

    assert_eq!(vec!["a"], names(&results));
    assert_eq!(1, errors.len());
    assert_eq!("b", errors[0].name);
    assert!(matches!(errors[0].error, Error::MySqlExecute(_)));
    assert_eq!(1, disconnect_errors.len());
    assert_eq!("b", disconnect_errors[0].name);
    assert!(matches!(disconnect_errors[0].error, Error::MySqlPoolDisconnect(_)));
}

#[test]
fn query_runner_default_has_the_default_limits() {
    let runner = QueryRunner::default();

    assert_eq!(20, runner.ssh_concurrent_limit);
    assert_eq!(3, runner.tunnels_per_ssh_connection);
}

#[test]
fn query_runner_new_keeps_the_limits() {
    let runner = QueryRunner::new(7, 4);

    assert_eq!(7, runner.ssh_concurrent_limit);
    assert_eq!(4, runner.tunnels_per_ssh_connection);
}
