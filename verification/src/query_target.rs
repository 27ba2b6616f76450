use crate::db_schema_cred::{copied_text, static_text, DbSchemaCred, DbSchemaCredView};
use crate::jump_host::static_host_address;
use ssh_jumper::model::HostAddress;
use std::borrow::Cow;
use vstd::prelude::*;

verus! {

/// An entity for which to run a query.
#[derive(Debug, PartialEq)]
pub struct QueryTarget<'query> {
    /// Name of the query target.
    ///
    /// This is used to disambiguate targets when running the same query.
    pub name: Cow<'query, str>,
    /// Address of the database server.
    pub db_address: HostAddress<'query>,
    /// DB Schema and credentials of the database.
    pub db_schema_cred: DbSchemaCred<'query>,
}

/// What a [`QueryTarget`] holds, whether borrowed or owned.
pub struct QueryTargetView {
    pub name: Seq<char>,
    pub db_address: HostAddress<'static>,
    pub db_schema_cred: DbSchemaCredView,
}

impl<'query> View for QueryTarget<'query> {
    type V = QueryTargetView;

    open spec fn view(&self) -> QueryTargetView {
        QueryTargetView {
            name: self.name@,
            db_address: self.db_address,
            db_schema_cred: self.db_schema_cred@,
        }
    }
}

impl<'query> Clone for QueryTarget<'query> {
    fn clone(&self) -> (copy: Self)
        ensures
            copy == *self,
    {
        QueryTarget {
            name: copied_text(&self.name),
            db_address: static_host_address(&self.db_address),
            db_schema_cred: self.db_schema_cred.clone(),
        }
    }
}

impl<'query> QueryTarget<'query> {
    /// Returns an owned version of self.
    pub fn into_static(self) -> (owned: QueryTarget<'static>)
        ensures
            owned@ == self@,
            owned.name is Owned,
            owned.db_schema_cred.username is Owned,
            owned.db_schema_cred.password is Owned,
            owned.db_schema_cred.schema_name matches Some(name) ==> name is Owned,
    {
        let QueryTarget { name, db_address, db_schema_cred } = self;
        let name = static_text(&name);
        let db_address = static_host_address(&db_address);
        let db_schema_cred = db_schema_cred.into_static();

        QueryTarget { name, db_address, db_schema_cred }
    }

    /// Returns an owned copy of self.
    pub fn to_static(&self) -> (owned: QueryTarget<'static>)
        ensures
            owned@ == self@,
    {
        QueryTarget {
            name: static_text(&self.name),
            db_address: static_host_address(&self.db_address),
            db_schema_cred: self.db_schema_cred.to_static(),
        }
    }
}

} // verus!
