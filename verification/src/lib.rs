//! Runs one SQL statement against many database targets that are reachable
//! only through an SSH jump host, and reports a per-target outcome.
//!
//! The library decides and never waits: what needs the network is asked of
//! the caller, who reports back what came of it.
//!
//! * [`QueryRunner::query_multi`] and [`QueryRunner::exec_multi`] begin a
//!   [`batch::Batch`], which cuts the query targets into chunks that share an
//!   SSH session, keeps the number of sessions within the limit, and holds
//!   what becomes of each query target. No query target's failure ends the
//!   batch: in the end each one has a result or an error.
//! * [`SshTunnelManager::prepare_tunnels`] begins one SSH session with one
//!   tunnel per query target of a chunk. Either every query target gets its
//!   tunnel, or the session is dropped.
//! * [`SqlOverSsh::exec`] begins one operation with a connection pool of its
//!   own, which is disconnected once the operation has returned, whatever it
//!   returned.
//! * [`QueryRunner::query_run`] begins one statement on one database, and
//!   keeps its result sets in the order in which they come.
//!
//! What holds of every batch, every pool and every statement is stated and
//! proved in [`batch::laws`], [`batch::runs`], [`sql_over_ssh`] and
//! [`query_run`].

pub use crate::db_schema_cred::{DbSchemaCred, DbSchemaCredView};
pub use crate::error::Error;
pub use crate::exec_error::ExecError;
pub use crate::query_error::QueryError;
pub use crate::query_result::QueryResult;
pub use crate::query_runner::QueryRunner;
pub use crate::query_target::{QueryTarget, QueryTargetView};
pub use crate::result_set::ResultSet;
pub use crate::socket_address::SocketAddress;
pub use crate::sql_over_ssh::SqlOverSsh;
pub use crate::ssh_tunnel_manager::SshTunnelManager;
pub use crate::ssh_tunnel_map::SshTunnelMap;
pub use crate::string_values::{ResultSetStrings, StringValues};
pub use crate::typed_values::{ResultSetTyped, TypedValues};
pub use crate::value::{Value, ValueIr};

pub mod batch;
pub mod db_schema_cred;
pub mod error;
pub mod exec_error;
pub mod jump_host;
pub mod query_error;
pub mod query_result;
pub mod query_run;
pub mod query_runner;
pub mod query_target;
pub mod result_set;
pub mod row;
pub mod socket_address;
pub mod sql_over_ssh;
pub mod ssh_tunnel_manager;
pub mod ssh_tunnel_map;
pub mod string_values;
pub mod typed_values;
pub mod value;
