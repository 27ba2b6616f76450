use crate::error::Error;
use vstd::prelude::*;
use vstd::std_specs::convert::FromSpec;

verus! {

/// Why a query target has no output.
///
/// # Type Parameters
///
/// * `E`: Error of the caller's operation.
#[derive(Debug)]
pub enum ExecError<E> {
    /// The library failed around the operation: there was no tunnel or no
    /// connection pool, the query could not be run, or the pool did not
    /// disconnect.
    Support(Error),
    /// The caller's operation failed.
    Queries(E),
    /// The caller's operation failed, and then the pool did not disconnect.
    /// The error of the operation comes first; the other one tells that a
    /// pool may not have been given back.
    QueriesAndDisconnect {
        /// The error of the operation.
        queries: E,
        /// The error of disconnecting the pool.
        disconnect: Error,
    },
}

impl<E> ExecError<E> {
    /// Why there is no output, without what came after it.
    pub open spec fn primary(self) -> ExecError<E> {
        match self {
            ExecError::QueriesAndDisconnect { queries, .. } => ExecError::Queries(queries),
            _ => self,
        }
    }

    /// The error of disconnecting the pool that came after the error of the
    /// operation, if there is one.
    pub open spec fn disconnect_failure(self) -> Option<Error> {
        match self {
            ExecError::QueriesAndDisconnect { disconnect, .. } => Some(disconnect),
            _ => None,
        }
    }

    /// Returns apart why there is no output, and the error of disconnecting
    /// the pool that came after it, if there is one.
    pub fn split(self) -> (parts: (ExecError<E>, Option<Error>))
        ensures
            parts.0 == self.primary(),
            parts.1 == self.disconnect_failure(),
    {
        match self {
            ExecError::QueriesAndDisconnect { queries, disconnect } => (
                ExecError::Queries(queries),
                Some(disconnect),
            ),
            ExecError::Support(support) => (ExecError::Support(support), None),
            ExecError::Queries(queries) => (ExecError::Queries(queries), None),
        }
    }

    /// Returns the error in the caller's own type, which any [`Error`] can be
    /// turned into. Where the operation failed it is the error of the
    /// operation.
    pub fn into_error(self) -> (error: E) where E: From<Error>
        ensures
            match self {
                ExecError::Support(support) => E::obeys_from_spec() ==> error == E::from_spec(
                    support,
                ),
                ExecError::Queries(queries) => error == queries,
                ExecError::QueriesAndDisconnect { queries, .. } => error == queries,
            },
    {
        match self {
            ExecError::Support(support) => E::from(support),
            ExecError::Queries(queries) => queries,
            ExecError::QueriesAndDisconnect { queries, .. } => queries,
        }
    }
}

impl ExecError<Error> {
    /// The error, whichever side it came from. Where the operation failed it
    /// is the error of the operation.
    pub open spec fn flat(self) -> Error {
        match self {
            ExecError::Support(error) => error,
            ExecError::Queries(error) => error,
            ExecError::QueriesAndDisconnect { queries, .. } => queries,
        }
    }

    /// Returns the error, whichever side it came from. Where the operation
    /// failed it is the error of the operation.
    pub fn flatten(self) -> (error: Error)
        ensures
            error == self.flat(),
    {
        match self {
            ExecError::Support(error) => error,
            ExecError::Queries(error) => error,
            ExecError::QueriesAndDisconnect { queries, .. } => queries,
        }
    }
}

} // verus!
