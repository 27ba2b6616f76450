use crate::error::Error;
use crate::query_result::QueryResult;
use crate::result_set::ResultSet;
use mysql_async::Error as DriverError;
use vstd::prelude::*;

verus! {

/// How far the statement has come on one database.
#[derive(Clone, Copy, Debug, PartialEq, Eq)]
pub enum QueryRunPhase {
    /// A connection is being taken from the pool.
    Connecting,
    /// The statement is being prepared.
    Preparing,
    /// The statement is being executed.
    Executing,
    /// The result sets are being fetched, one after the other.
    Fetching,
    /// Nothing is left to do.
    Finished,
}

/// What the caller reports back.
pub enum QueryRunEvent<T> {
    /// A connection was taken from the pool, or could not be.
    Connected { connection: Result<(), DriverError> },
    /// The statement was prepared, or could not be.
    Prepared { statement: Result<(), DriverError> },
    /// The statement was executed, or could not be.
    Executed { execution: Result<(), DriverError> },
    /// No result set was left (`None`); or the rows of the next one were
    /// decoded and its counters read, or its rows could not be decoded.
    ResultSetFetched { fetched: Option<Result<ResultSet<T>, DriverError>> },
}

/// What the caller is asked to do next.
#[derive(Clone, Copy, Debug, PartialEq, Eq)]
pub enum QueryRunAction {
    /// Take a connection from the pool.
    GetConn,
    /// Prepare the statement on the connection.
    Prepare,
    /// Execute the prepared statement.
    Execute,
    /// See whether a result set is left, and if so decode its rows and read
    /// its counters.
    FetchResultSet,
    /// Take the outcome: nothing is left to do.
    Finish,
}

/// What a [`QueryRun`] stands for.
pub struct QueryRunView<T> {
    /// Name of the query target.
    pub name: Seq<char>,
    /// How far the statement has come.
    pub phase: QueryRunPhase,
    /// The result sets fetched so far, in the order in which they came.
    pub result_sets: Seq<ResultSet<T>>,
    /// Why the statement has no result.
    pub failure: Option<Error>,
}

impl<T> QueryRunView<T> {
    /// The run after it failed: what was fetched is dropped.
    pub open spec fn failed(self, failure: Error) -> Self {
        QueryRunView {
            phase: QueryRunPhase::Finished,
            result_sets: Seq::empty(),
            failure: Some(failure),
            ..self
        }
    }

    /// The run in its next phase.
    pub open spec fn moved_to(self, phase: QueryRunPhase) -> Self {
        QueryRunView { phase, ..self }
    }

    /// The run after an event, and what the caller is asked to do then.
    ///
    /// Each step that the SQL driver fails ends the run with the error of
    /// its kind. Each result set that is fetched is put behind those
    /// fetched before. An event that the run does not wait for changes
    /// nothing and asks for nothing.
    pub open spec fn step(self, event: QueryRunEvent<T>) -> (Self, Option<QueryRunAction>) {
        match (self.phase, event) {
            (QueryRunPhase::Connecting, QueryRunEvent::Connected { connection }) => match connection {
                Ok(_) => (self.moved_to(QueryRunPhase::Preparing), Some(QueryRunAction::Prepare)),
                Err(error) => (
                    self.failed(Error::MySqlConnectionRetrieve(error)),
                    Some(QueryRunAction::Finish),
                ),
            },
            (QueryRunPhase::Preparing, QueryRunEvent::Prepared { statement }) => match statement {
                Ok(_) => (self.moved_to(QueryRunPhase::Executing), Some(QueryRunAction::Execute)),
                Err(error) => (self.failed(Error::MySqlPrepare(error)), Some(QueryRunAction::Finish)),
            },
            (QueryRunPhase::Executing, QueryRunEvent::Executed { execution }) => match execution {
                Ok(_) => (
                    self.moved_to(QueryRunPhase::Fetching),
                    Some(QueryRunAction::FetchResultSet),
                ),
                Err(error) => (self.failed(Error::MySqlExecute(error)), Some(QueryRunAction::Finish)),
            },
            (QueryRunPhase::Fetching, QueryRunEvent::ResultSetFetched { fetched }) => match fetched {
                Some(Ok(result_set)) => (
                    QueryRunView { result_sets: self.result_sets.push(result_set), ..self },
                    Some(QueryRunAction::FetchResultSet),
                ),
                Some(Err(error)) => (
                    self.failed(Error::QueryResultSetFetch(error)),
                    Some(QueryRunAction::Finish),
                ),
                None => (self.moved_to(QueryRunPhase::Finished), Some(QueryRunAction::Finish)),
            },
            _ => (self, None),
        }
    }

    /// The run after a row of events.
    pub open spec fn run(self, events: Seq<QueryRunEvent<T>>) -> Self
        decreases events.len(),
    {
        if events.len() == 0 {
            self
        } else {
            self.run(events.drop_last()).step(events.last()).0
        }
    }
}

/// What the caller reports while the result sets `result_sets` come in, one
/// after the other, and then none is left.
pub open spec fn fetched_in_order<T>(result_sets: Seq<ResultSet<T>>) -> Seq<QueryRunEvent<T>> {
    Seq::new(
        result_sets.len() + 1,
        |i: int|
            if i < result_sets.len() {
                QueryRunEvent::ResultSetFetched { fetched: Some(Ok(result_sets[i])) }
            } else {
                QueryRunEvent::ResultSetFetched { fetched: None }
            },
    )
}

/// One statement under way on one database: connect, prepare, execute, and
/// fetch every result set.
///
/// # Type Parameters
///
/// * `T`: Type of the values of each row.
pub struct QueryRun<T> {
    name: String,
    phase: QueryRunPhase,
    result_sets: Vec<ResultSet<T>>,
    failure: Option<Error>,
}

impl<T> View for QueryRun<T> {
    type V = QueryRunView<T>;

    closed spec fn view(&self) -> QueryRunView<T> {
        QueryRunView {
            name: self.name@,
            phase: self.phase,
            result_sets: self.result_sets@,
            failure: self.failure,
        }
    }
}

impl<T> QueryRun<T> {
    /// Begins with taking a connection from the pool.
    pub fn new(query_target_name: String) -> (started: (Self, QueryRunAction))
        ensures
            started.0@ == (QueryRunView::<T> {
                name: query_target_name@,
                phase: QueryRunPhase::Connecting,
                result_sets: Seq::empty(),
                failure: None,
            }),
            started.1 == QueryRunAction::GetConn,
    {
        (
            QueryRun {
                name: query_target_name,
                phase: QueryRunPhase::Connecting,
                result_sets: Vec::new(),
                failure: None,
            },
            QueryRunAction::GetConn,
        )
    }

    /// Begins with fetching the result sets of a statement that was
    /// executed.
    pub fn fetching(query_target_name: String) -> (started: (Self, QueryRunAction))
        ensures
            started.0@ == (QueryRunView::<T> {
                name: query_target_name@,
                phase: QueryRunPhase::Fetching,
                result_sets: Seq::empty(),
                failure: None,
            }),
            started.1 == QueryRunAction::FetchResultSet,
    {
        (
            QueryRun {
                name: query_target_name,
                phase: QueryRunPhase::Fetching,
                result_sets: Vec::new(),
                failure: None,
            },
            QueryRunAction::FetchResultSet,
        )
    }

    /// Ends the run with a failure, and drops what was fetched.
    fn fail(&mut self, failure: Error) -> (action: Option<QueryRunAction>)
        ensures
            final(self)@ == old(self)@.failed(failure),
            action == Some(QueryRunAction::Finish),
    {
        self.phase = QueryRunPhase::Finished;
        self.result_sets = Vec::new();
        self.failure = Some(failure);
        Some(QueryRunAction::Finish)
    }

    /// Takes in what the caller reports, and returns what the caller is
    /// asked to do next.
    pub fn step(&mut self, event: QueryRunEvent<T>) -> (action: Option<QueryRunAction>)
        ensures
            (final(self)@, action) == old(self)@.step(event),
    {
        match (self.phase, event) {
            (QueryRunPhase::Connecting, QueryRunEvent::Connected { connection }) => match connection {
                Ok(_) => {
                    self.phase = QueryRunPhase::Preparing;
                    Some(QueryRunAction::Prepare)
                },
                Err(error) => self.fail(Error::MySqlConnectionRetrieve(error)),
            },
            (QueryRunPhase::Preparing, QueryRunEvent::Prepared { statement }) => match statement {
                Ok(_) => {
                    self.phase = QueryRunPhase::Executing;
                    Some(QueryRunAction::Execute)
                },
                Err(error) => self.fail(Error::MySqlPrepare(error)),
            },
            (QueryRunPhase::Executing, QueryRunEvent::Executed { execution }) => match execution {
                Ok(_) => {
                    self.phase = QueryRunPhase::Fetching;
                    Some(QueryRunAction::FetchResultSet)
                },
                Err(error) => self.fail(Error::MySqlExecute(error)),
            },
            (QueryRunPhase::Fetching, QueryRunEvent::ResultSetFetched { fetched }) => match fetched {
                Some(Ok(result_set)) => {
                    self.result_sets.push(result_set);
                    Some(QueryRunAction::FetchResultSet)
                },
                Some(Err(error)) => self.fail(Error::QueryResultSetFetch(error)),
                None => {
                    self.phase = QueryRunPhase::Finished;
                    Some(QueryRunAction::Finish)
                },
            },
            _ => None,
        }
    }

    /// Ends the run and returns its outcome: the result sets in the order in
    /// which they came, under the name of the query target, or the failure.
    /// Returns `None` while the run is not finished.
    pub fn into_result(self) -> (outcome: Option<Result<QueryResult<T>, Error>>)
        ensures
            outcome is Some <==> self@.phase is Finished,
            self@.phase is Finished ==> match self@.failure {
                Some(failure) => outcome == Some(Err::<QueryResult<T>, Error>(failure)),
                None => outcome matches Some(Ok(query_result)) && query_result.name@ == self@.name
                    && query_result.result_sets@ == self@.result_sets,
            },
    {
        match self.phase {
            QueryRunPhase::Finished => match self.failure {
                Some(failure) => Some(Err(failure)),
                None => Some(Ok(QueryResult { name: self.name, result_sets: self.result_sets })),
            },
            _ => None,
        }
    }
}

/// While result sets come in, the run keeps fetching and holds them in the
/// order in which they came.
pub proof fn lemma_fetching<T>(start: QueryRunView<T>, result_sets: Seq<ResultSet<T>>, upto: int)
    requires
        start.phase is Fetching,
        0 <= upto <= result_sets.len(),
    ensures
        start.run(fetched_in_order(result_sets).take(upto)) == (QueryRunView {
            result_sets: start.result_sets + result_sets.take(upto),
            ..start
        }),
    decreases upto,
{
    let events = fetched_in_order(result_sets).take(upto);
    if upto == 0 {
        assert(start.result_sets + result_sets.take(0) =~= start.result_sets);
    } else {
        lemma_fetching(start, result_sets, upto - 1);
        assert(events.drop_last() =~= fetched_in_order(result_sets).take(upto - 1));
        assert(events.last() == QueryRunEvent::ResultSetFetched {
            fetched: Some(Ok(result_sets[upto - 1])),
        });
        assert((start.result_sets + result_sets.take(upto - 1)).push(result_sets[upto - 1])
            =~= start.result_sets + result_sets.take(upto));
    }
}

/// Multi-result-set ordering: when a statement produces result sets one
/// after the other and all of them are fetched, the run ends with exactly
/// these result sets, in the order in which they came, none merged and none
/// left out.
pub proof fn law_result_sets_keep_order<T>(name: Seq<char>, result_sets: Seq<ResultSet<T>>)
    ensures
        (QueryRunView::<T> {
            name,
            phase: QueryRunPhase::Fetching,
            result_sets: Seq::empty(),
            failure: None,
        }).run(fetched_in_order(result_sets)) == (QueryRunView::<T> {
            name,
            phase: QueryRunPhase::Finished,
            result_sets,
            failure: None,
        }),
{
    let start = QueryRunView::<T> {
        name,
        phase: QueryRunPhase::Fetching,
        result_sets: Seq::empty(),
        failure: None,
    };
    let events = fetched_in_order(result_sets);
    lemma_fetching(start, result_sets, result_sets.len() as int);
    assert(result_sets.take(result_sets.len() as int) =~= result_sets);
}

} // verus!
