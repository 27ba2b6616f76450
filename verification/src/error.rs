use crate::jump_host::{
    host_address_text, host_address_to_string, share_tunnel_error, static_host_address,
    tunnel_error_to_string,
};
use crate::query_target::QueryTarget;
use mysql_async::Error as DriverError;
use ssh_jumper::model::Error as TunnelError;
use ssh_jumper::model::HostAddress;
use std::sync::Arc;
use vstd::prelude::*;
use vstd::std_specs::convert::FromSpecImpl;
use vstd::string::StringExecFns;

verus! {

/// Failure reported by the SQL driver. Nothing in this library reads what is
/// inside.
#[verifier::external_type_specification]
#[verifier::external_body]
pub struct ExDriverError(DriverError);

/// Error while running SQL over SSH.
#[derive(Debug)]
pub enum Error {
    /// Failed to initialize `mysql_async::PoolConstraints`.
    PoolConstraintsInitialize,
    /// Failed to get MySQL connection.
    MySqlConnectionRetrieve(DriverError),
    /// Failed to prepare SQL statement.
    MySqlPrepare(DriverError),
    /// Failed to execute SQL query.
    MySqlExecute(DriverError),
    /// Failed to fetch result set from query execution.
    ///
    /// One query may have multiple result sets, and we may fail to fetch a
    /// later one.
    QueryResultSetFetch(DriverError),
    /// Error occurred while disconnecting connection pool.
    MySqlPoolDisconnect(DriverError),
    /// SSH connection initialization failed.
    SshConnInit,
    /// SSH tunnel was not found for a query target.
    SshTunnelNotFound {
        /// Address of the jump host.
        jump_host_address: HostAddress<'static>,
        /// The query target that the SSH tunnel wasn't found for.
        query_target: QueryTarget<'static>,
    },
    /// Error while using the `ssh_jumper` crate.
    ///
    /// The cause is shared, so that every query target of a failed session
    /// can carry it.
    SshJumper(Arc<TunnelError>),
}

impl Error {
    /// Whether a copy of this error can be handed to several query targets:
    /// it holds no error of the SQL driver.
    pub open spec fn is_shareable(self) -> bool {
        self is PoolConstraintsInitialize || self is SshConnInit || self is SshTunnelNotFound
            || self is SshJumper
    }

    /// The error that [`Error::share`] hands out for `self`.
    pub open spec fn shared(self) -> Error {
        if self.is_shareable() {
            self
        } else {
            Error::SshConnInit
        }
    }

    /// Returns an error for one more query target that failed for the same
    /// reason. An error of the SQL driver belongs to one target and cannot
    /// be copied: for it this is [`Error::SshConnInit`].
    pub fn share(&self) -> (copy: Error)
        ensures
            copy == self.shared(),
    {
        match self {
            Error::PoolConstraintsInitialize => Error::PoolConstraintsInitialize,
            Error::SshConnInit => Error::SshConnInit,
            Error::SshTunnelNotFound { jump_host_address, query_target } => {
                Error::SshTunnelNotFound {
                    jump_host_address: static_host_address(jump_host_address),
                    query_target: query_target.clone(),
                }
            },
            Error::SshJumper(cause) => Error::SshJumper(share_tunnel_error(cause)),
            _ => Error::SshConnInit,
        }
    }

    /// The sentence that describes the error, or `None` for an error of
    /// `ssh_jumper`, which words its own.
    pub open spec fn message_text(self) -> Option<Seq<char>> {
        match self {
            Error::PoolConstraintsInitialize => Some(
                "Failed to construct `mysql_async::PoolConstraints.`"@,
            ),
            Error::MySqlConnectionRetrieve(_) => Some("Failed to get MySql connection."@),
            Error::MySqlPrepare(_) => Some("Failed to prepare SQL statement."@),
            Error::MySqlExecute(_) => Some("Failed to execute SQL query."@),
            Error::QueryResultSetFetch(_) => Some("Failed to fetch next query result set."@),
            Error::MySqlPoolDisconnect(_) => Some(
                "Failed to cleanly disconnect MySQL connection pool."@,
            ),
            Error::SshConnInit => Some("SSH connection initialization failed."@),
            Error::SshTunnelNotFound { jump_host_address, query_target } => Some(
                "Expected SSH tunnel for `"@ + query_target.name@ + ": "@ + host_address_text(
                    query_target.db_address,
                ) + "` to be established through jump host: `"@ + host_address_text(
                    jump_host_address,
                ) + "`. This is likely a bug."@,
            ),
            Error::SshJumper(_) => None,
        }
    }

    /// Returns the sentence that describes this error; for an error of
    /// `ssh_jumper`, the sentence that `ssh_jumper` words.
    pub fn message(&self) -> (text: String)
        ensures
            self.message_text() matches Some(sentence) ==> text@ == sentence,
    {
        match self {
            Error::PoolConstraintsInitialize => {
                String::from_str("Failed to construct `mysql_async::PoolConstraints.`")
            },
            Error::MySqlConnectionRetrieve(_) => String::from_str(
                "Failed to get MySql connection.",
            ),
            Error::MySqlPrepare(_) => String::from_str("Failed to prepare SQL statement."),
            Error::MySqlExecute(_) => String::from_str("Failed to execute SQL query."),
            Error::QueryResultSetFetch(_) => String::from_str(
                "Failed to fetch next query result set.",
            ),
            Error::MySqlPoolDisconnect(_) => String::from_str(
                "Failed to cleanly disconnect MySQL connection pool.",
            ),
            Error::SshConnInit => String::from_str("SSH connection initialization failed."),
            Error::SshTunnelNotFound { jump_host_address, query_target } => {
                let db_address = host_address_to_string(&query_target.db_address);
                let jump_host = host_address_to_string(jump_host_address);
                let mut text = String::from_str("Expected SSH tunnel for `");
                text.append(crate::db_schema_cred::owned_text(&query_target.name).as_str());
                text.append(": ");
                text.append(db_address.as_str());
                text.append("` to be established through jump host: `");
                text.append(jump_host.as_str());
                text.append("`. This is likely a bug.");
                text
            },
            Error::SshJumper(cause) => tunnel_error_to_string(cause),
        }
    }
}

impl From<TunnelError> for Error {
    fn from(error: TunnelError) -> (converted: Error) {
        Error::SshJumper(Arc::new(error))
    }
}

impl FromSpecImpl<TunnelError> for Error {
    open spec fn obeys_from_spec() -> bool {
        true
    }

    open spec fn from_spec(error: TunnelError) -> Error {
        Error::SshJumper(Arc::new(error))
    }
}

} // verus!
