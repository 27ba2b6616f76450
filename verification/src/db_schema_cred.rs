use std::borrow::Cow;
use vstd::prelude::*;

verus! {

/// Credentials to access a database schema.
#[derive(Debug, PartialEq, Eq)]
pub struct DbSchemaCred<'db_cred> {
    /// Database schema name, `None` if no schema is selected.
    pub schema_name: Option<Cow<'db_cred, str>>,
    /// Username to login to the database server.
    pub username: Cow<'db_cred, str>,
    /// Password to login to the database server.
    pub password: Cow<'db_cred, str>,
}

/// What a [`DbSchemaCred`] holds, whether borrowed or owned.
pub struct DbSchemaCredView {
    pub schema_name: Option<Seq<char>>,
    pub username: Seq<char>,
    pub password: Seq<char>,
}

impl<'db_cred> View for DbSchemaCred<'db_cred> {
    type V = DbSchemaCredView;

    open spec fn view(&self) -> DbSchemaCredView {
        DbSchemaCredView {
            schema_name: match self.schema_name {
                Some(name) => Some(name@),
                None => None,
            },
            username: self.username@,
            password: self.password@,
        }
    }
}

/// Returns the text of `text` as an owned string.
pub fn owned_text<'a>(text: &Cow<'a, str>) -> (owned: String)
    ensures
        owned@ == text@,
{
    match text {
        Cow::Borrowed(borrowed) => (*borrowed).to_owned(),
        Cow::Owned(owned) => owned.clone(),
    }
}

/// Returns a copy of `text` that borrows from nothing.
pub fn static_text<'a>(text: &Cow<'a, str>) -> (owned: Cow<'static, str>)
    ensures
        owned@ == text@,
        owned is Owned,
{
    Cow::Owned(owned_text(text))
}

/// Returns a copy of `text`, borrowed where `text` is.
pub fn copied_text<'a>(text: &Cow<'a, str>) -> (copy: Cow<'a, str>)
    ensures
        copy == *text,
{
    match text {
        Cow::Borrowed(borrowed) => Cow::Borrowed(*borrowed),
        Cow::Owned(owned) => Cow::Owned(owned.clone()),
    }
}

impl<'db_cred> Clone for DbSchemaCred<'db_cred> {
    fn clone(&self) -> (copy: Self)
        ensures
            copy == *self,
    {
        let schema_name = match &self.schema_name {
            Some(name) => Some(copied_text(name)),
            None => None,
        };
        DbSchemaCred {
            schema_name,
            username: copied_text(&self.username),
            password: copied_text(&self.password),
        }
    }
}

impl<'db_cred> DbSchemaCred<'db_cred> {
    /// Returns an owned version of self.
    pub fn into_static(self) -> (owned: DbSchemaCred<'static>)
        ensures
            owned@ == self@,
            owned.username is Owned,
            owned.password is Owned,
            owned.schema_name matches Some(name) ==> name is Owned,
    {
        let DbSchemaCred { schema_name, username, password } = self;
        let schema_name = match schema_name {
            Some(name) => Some(static_text(&name)),
            None => None,
        };
        let username = static_text(&username);
        let password = static_text(&password);

        DbSchemaCred { schema_name, username, password }
    }

    /// Returns an owned copy of self.
    pub fn to_static(&self) -> (owned: DbSchemaCred<'static>)
        ensures
            owned@ == self@,
    {
        let schema_name = match &self.schema_name {
            Some(name) => Some(static_text(name)),
            None => None,
        };
        DbSchemaCred {
            schema_name,
            username: static_text(&self.username),
            password: static_text(&self.password),
        }
    }
}

} // verus!
