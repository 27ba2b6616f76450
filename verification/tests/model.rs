use mysql_async_support::{
    DbSchemaCred, Error, QueryError, QueryTarget, SocketAddress, SshTunnelMap,
};
use ssh_jumper::model::HostAddress;
use std::borrow::Cow;
use std::sync::Arc;

fn borrowed_cred<'a>(schema: &'a str, user: &'a str, password: &'a str) -> DbSchemaCred<'a> {
    DbSchemaCred {
        schema_name: Some(Cow::Borrowed(schema)),
        username: Cow::Borrowed(user),
        password: Cow::Borrowed(password),
    }
}

fn driver_error() -> mysql_async::Error {
    mysql_async::Error::Driver(mysql_async::DriverError::ConnectionClosed)
}

#[test]
fn db_schema_cred_into_static_keeps_the_values() {
    let schema = String::from("schema");
    let user = String::from("user");
    let password = String::from("secret");

    let owned = borrowed_cred(&schema, &user, &password).into_static();

    assert_eq!(borrowed_cred("schema", "user", "secret"), owned);
    assert!(matches!(owned.schema_name, Some(Cow::Owned(_))));
    assert!(matches!(owned.username, Cow::Owned(_)));
    assert!(matches!(owned.password, Cow::Owned(_)));
}

#[test]
fn db_schema_cred_into_static_keeps_no_schema() {
    let cred = DbSchemaCred {
        schema_name: None,
        username: Cow::Borrowed("user"),
        password: Cow::Borrowed(""),
    };

    let owned = cred.clone().into_static();

    assert_eq!(cred, owned);
    assert_eq!(None, owned.schema_name);
}

#[test]
fn db_schema_cred_clone_is_equal() {
    let cred = borrowed_cred("schema", "user", "secret");

    assert_eq!(cred, cred.clone());
    assert_eq!(cred, cred.to_static());
}

#[test]
fn query_target_into_static_keeps_the_values() {
    let name = String::from("target");
    let host = String::from("db.internal");
    let query_target = QueryTarget {
        name: Cow::Borrowed(name.as_str()),
        db_address: HostAddress::HostName(Cow::Borrowed(host.as_str())),
        db_schema_cred: borrowed_cred("schema", "user", "secret"),
    };

    let owned = query_target.clone().into_static();

    assert_eq!(query_target, owned);
    assert!(matches!(owned.name, Cow::Owned(_)));
    assert!(matches!(owned.db_address, HostAddress::HostName(Cow::Owned(_))));
    assert_eq!(query_target, query_target.to_static());
}

#[test]
fn error_messages_are_the_sentences_of_each_kind() {
    assert_eq!(
        "Failed to construct `mysql_async::PoolConstraints.`",
        Error::PoolConstraintsInitialize.message()
    );
    assert_eq!(
        "Failed to get MySql connection.",
        Error::MySqlConnectionRetrieve(driver_error()).message()
    );
    assert_eq!("Failed to prepare SQL statement.", Error::MySqlPrepare(driver_error()).message());
    assert_eq!("Failed to execute SQL query.", Error::MySqlExecute(driver_error()).message());
    assert_eq!(
        "Failed to fetch next query result set.",
        Error::QueryResultSetFetch(driver_error()).message()
    );
    assert_eq!(
        "Failed to cleanly disconnect MySQL connection pool.",
        Error::MySqlPoolDisconnect(driver_error()).message()
    );
    assert_eq!("SSH connection initialization failed.", Error::SshConnInit.message());
    assert_eq!(
        "SSH handshake with jump host failed.",
        Error::SshJumper(Arc::new(ssh_jumper::model::Error::SshHandshakeFail(
            std::io::ErrorKind::ConnectionReset.into()
        )))
        .message()
    );
}

#[test]
fn tunnel_not_found_message_names_target_and_jump_host() {
    let error = Error::SshTunnelNotFound {
        jump_host_address: HostAddress::HostName(Cow::Borrowed("jump.example.com")),
        query_target: QueryTarget {
            name: Cow::Borrowed("customer 1"),
            db_address: HostAddress::HostName(Cow::Borrowed("10.0.0.7")),
            db_schema_cred: borrowed_cred("schema", "user", "secret"),
        },
    };

    assert_eq!(
        "Expected SSH tunnel for `customer 1: 10.0.0.7` to be established through jump host: \
         `jump.example.com`. This is likely a bug.",
        error.message()
    );
}

#[test]
fn error_from_ssh_jumper_keeps_the_cause() {
    let error = Error::from(ssh_jumper::model::Error::SshUserAuthUnknownError);

    assert!(matches!(
        &error,
        Error::SshJumper(cause)
            if matches!(**cause, ssh_jumper::model::Error::SshUserAuthUnknownError)
    ));
}

#[test]
fn shared_error_of_ssh_jumper_is_the_same_error() {
    let error = Error::from(ssh_jumper::model::Error::SshUserAuthUnknownError);

    let copy = error.share();

    match (&error, &copy) {
        (Error::SshJumper(cause), Error::SshJumper(shared)) => assert!(Arc::ptr_eq(cause, shared)),
        _ => panic!("expected `Error::SshJumper`"),
    }
}

#[test]
fn shared_error_without_driver_error_is_equal() {
    assert!(matches!(Error::SshConnInit.share(), Error::SshConnInit));
    assert!(matches!(
        Error::PoolConstraintsInitialize.share(),
        Error::PoolConstraintsInitialize
    ));
    let not_found = Error::SshTunnelNotFound {
        jump_host_address: HostAddress::HostName(Cow::Borrowed("jump")),
        query_target: QueryTarget {
            name: Cow::Borrowed("a"),
            db_address: HostAddress::HostName(Cow::Borrowed("db")),
            db_schema_cred: borrowed_cred("schema", "user", "secret"),
        },
    };
    assert_eq!(not_found.message(), not_found.share().message());
}

#[test]
fn shared_driver_error_is_the_session_failure() {
    assert!(matches!(Error::MySqlExecute(driver_error()).share(), Error::SshConnInit));
    assert!(matches!(Error::MySqlPoolDisconnect(driver_error()).share(), Error::SshConnInit));
}

#[test]
fn query_error_derefs_to_its_error() {
    let query_error = QueryError { name: String::from("a"), error: Error::SshConnInit };

    assert_eq!("SSH connection initialization failed.", query_error.message());
    assert!(matches!(*query_error, Error::SshConnInit));
}

#[test]
fn local_socket_is_loopback_with_port_zero() {
    let local = SocketAddress::local_os_chosen();

    assert_eq!(SocketAddress { ip: String::from("127.0.0.1"), port: 0 }, local);
    assert_eq!(local, local.clone());
}

#[test]
fn ssh_tunnel_map_finds_what_was_inserted() {
    let mut tunnel_map = SshTunnelMap::new("session");
    let first = SocketAddress { ip: String::from("127.0.0.1"), port: 4000 };
    let second = SocketAddress { ip: String::from("127.0.0.1"), port: 4001 };

    tunnel_map.insert("a", first.clone());
    tunnel_map.insert("b", second.clone());

    assert_eq!(Some(&first), tunnel_map.get("a"));
    assert_eq!(Some(&second), tunnel_map.get("b"));
    assert_eq!(None, tunnel_map.get("c"));
    assert_eq!("session", *tunnel_map.ssh_session());
}

#[test]
fn ssh_tunnel_map_insert_replaces_the_tunnel_of_a_name() {
    let mut tunnel_map = SshTunnelMap::new(());
    let first = SocketAddress { ip: String::from("127.0.0.1"), port: 4000 };
    let second = SocketAddress { ip: String::from("127.0.0.1"), port: 4001 };

    tunnel_map.insert("a", first);
    tunnel_map.insert("a", second.clone());

    assert_eq!(Some(&second), tunnel_map.get("a"));
}
