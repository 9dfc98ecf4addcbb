//! The secret store: where its database is, and the decisions each store
//! operation takes on what the database answered. The queries themselves
//! are run by the caller.
use vstd::prelude::*;

verus! {

/// A store kept in an SQLite database.
pub struct SqliteStore {
    database_url: String,
}

/// Why a store operation failed.
#[derive(Debug, Clone, PartialEq, Eq)]
pub enum StoreError {
    /// Refused because of what the store holds (or does not hold), with the
    /// message shown to the user.
    AlreadyExists(String),
    /// A looked-up item is missing, with the message shown to the user.
    NotFound(String),
    /// The database failed, with its message.
    Backend(String),
}

/// What inserting a row gave.
#[derive(Debug, Clone, PartialEq, Eq)]
pub enum InsertOutcome {
    Inserted,
    /// The row would repeat a unique column.
    UniqueViolation,
    /// The database failed, with its message.
    Failed(String),
}

/// How a secret is written.
#[derive(Debug, Clone, Copy, PartialEq, Eq, Structural)]
pub enum SecretWrite {
    /// Overwrite the value and nonce of the existing row.
    Update,
    /// Add a new row.
    Insert,
}

pub open spec fn project_already_exists_msg() -> Seq<char> {
    "Project already exists"@
}

pub open spec fn project_missing_msg() -> Seq<char> {
    "Project does not exist"@
}

pub open spec fn project_not_found_msg() -> Seq<char> {
    "Project not found"@
}

pub open spec fn secret_missing_msg() -> Seq<char> {
    "Secret does not exist"@
}

/// The message carried by a store error.
pub open spec fn store_error_message(e: StoreError) -> Seq<char> {
    match e {
        StoreError::AlreadyExists(m) => m@,
        StoreError::NotFound(m) => m@,
        StoreError::Backend(m) => m@,
    }
}

impl StoreError {
    /// The message of the error, as displayed.
    pub fn to_string(&self) -> (r: String)
        ensures
            r@ == store_error_message(*self),
    {
        match self {
            StoreError::AlreadyExists(m) => m.clone(),
            StoreError::NotFound(m) => m.clone(),
            StoreError::Backend(m) => m.clone(),
        }
    }
}

impl SqliteStore {
    /// A store on the database at `database_url`; an empty URL stands for
    /// the one named by the `DATABASE_URL` variable.
    pub fn new(database_url: String) -> (s: SqliteStore)
        ensures
            s.database_url() == database_url@,
    {
        SqliteStore { database_url }
    }

    pub closed spec fn database_url(&self) -> Seq<char> {
        self.database_url@
    }

    /// The URL given to the store, or nothing when it was empty and the
    /// `DATABASE_URL` variable is to be used.
    pub fn configured_url(&self) -> (r: Option<String>)
        ensures
            match r {
                Some(u) => self.database_url().len() > 0 && u@ == self.database_url(),
                None => self.database_url().len() == 0,
            },
    {
        if self.database_url.as_str().is_empty() {
            None
        } else {
            Some(self.database_url.clone())
        }
    }
}

impl SqliteStore {
    /// The database the store opens: the URL it was given, or, when that is
    /// empty, the value of `DATABASE_URL` (`env_url`); nothing when both are
    /// missing.
    pub fn db_url(&self, env_url: Option<String>) -> (r: Option<String>)
        ensures
            self.database_url().len() > 0 ==> (r matches Some(u) && u@ == self.database_url()),
            self.database_url().len() == 0 ==> r == env_url,
    {
        match self.configured_url() {
            Some(url) => Some(url),
            None => env_url,
        }
    }
}

/// The refusal that the store reports with `message`.
pub fn construct_error(message: &str) -> (r: Result<(), StoreError>)
    ensures
        r matches Err(StoreError::AlreadyExists(m)) && m@ == message@,
{
    Err(StoreError::AlreadyExists(message.to_owned()))
}

/// Creating a project is refused when one of that name exists.
pub fn check_new_project(exists: bool) -> (r: Result<(), StoreError>)
    ensures
        exists ==> (r matches Err(StoreError::AlreadyExists(m)) && m@ == project_already_exists_msg()),
        !exists ==> r is Ok,
{
    if exists {
        construct_error("Project already exists")
    } else {
        Ok(())
    }
}

/// The outcome of creating a project from that of inserting its row: a
/// repeated name is reported as an existing project.
pub fn project_insert_result(outcome: InsertOutcome) -> (r: Result<(), StoreError>)
    ensures
        match outcome {
            InsertOutcome::Inserted => r is Ok,
            InsertOutcome::UniqueViolation => r matches Err(StoreError::AlreadyExists(m)) && m@
                == project_already_exists_msg(),
            InsertOutcome::Failed(m) => r == Err::<(), StoreError>(StoreError::Backend(m)),
        },
{
    match outcome {
        InsertOutcome::Inserted => Ok(()),
        InsertOutcome::UniqueViolation => construct_error("Project already exists"),
        InsertOutcome::Failed(m) => Err(StoreError::Backend(m)),
    }
}

/// Deleting a project is refused when none of that name exists.
pub fn check_project_to_delete(exists: bool) -> (r: Result<(), StoreError>)
    ensures
        !exists ==> (r matches Err(StoreError::AlreadyExists(m)) && m@ == project_missing_msg()),
        exists ==> r is Ok,
{
    if !exists {
        construct_error("Project does not exist")
    } else {
        Ok(())
    }
}

/// Deleting a secret is refused when no row holds it.
pub fn check_secret_to_delete(existing_id: Option<String>) -> (r: Result<(), StoreError>)
    ensures
        existing_id is None ==> (r matches Err(StoreError::NotFound(m)) && m@ == secret_missing_msg()),
        existing_id is Some ==> r is Ok,
{
    match existing_id {
        Some(_) => Ok(()),
        None => Err(StoreError::NotFound(String::from_str("Secret does not exist"))),
    }
}

/// A project's id from the lookup by name.
pub fn project_id_from_lookup(found: Option<String>) -> (r: Result<String, StoreError>)
    ensures
        match found {
            Some(id) => r == Ok::<String, StoreError>(id),
            None => r matches Err(StoreError::NotFound(m)) && m@ == project_not_found_msg(),
        },
{
    match found {
        Some(id) => Ok(id),
        None => Err(StoreError::NotFound(String::from_str("Project not found"))),
    }
}

/// Setting a secret that exists overwrites it; otherwise a row is added.
pub fn secret_write(exists: bool) -> (r: SecretWrite)
    ensures
        r == (if exists {
            SecretWrite::Update
        } else {
            SecretWrite::Insert
        }),
{
    if exists {
        SecretWrite::Update
    } else {
        SecretWrite::Insert
    }
}

} // verus!
