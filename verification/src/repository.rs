//! The capabilities of a repository. An entity opts into the ones that it
//! supports: the cargo into all of them, the spec into creation alone,
//! which is what keeps the specs a history.
//!
//! Each capability states here only what holds of every entity. The
//! entity's own implementation states what the operation does to its
//! relation.

use crate::error::RepoError;
use crate::filter::GenericFilter;
use crate::query::ReadQuery;
use crate::store::Store;
use vstd::prelude::*;

verus! {

/// What went wrong in the store's driver, as far as the system tells
/// failures apart.
#[derive(Clone, Copy, Debug, PartialEq, Eq, Structural)]
pub enum DriverFailure {
    /// A statement that names one row found none.
    RowNotFound,
    /// A primary key or another unique value is taken.
    UniqueViolation,
    /// A row refers to a row that does not exist.
    ForeignKeyViolation,
    /// No connection could be taken from the pool.
    NoConnection,
    /// Any other failure of the driver.
    Other,
}

impl DriverFailure {
    /// The failure that the system reports for this failure of the driver.
    pub open spec fn reported(self) -> RepoError {
        match self {
            DriverFailure::RowNotFound => RepoError::NotFound,
            DriverFailure::UniqueViolation => RepoError::Conflict,
            DriverFailure::ForeignKeyViolation => RepoError::Conflict,
            DriverFailure::NoConnection => RepoError::StoreUnavailable,
            DriverFailure::Other => RepoError::StoreUnavailable,
        }
    }
}

/// Translates a failure of the driver into the failure that the system
/// reports.
pub fn report(failure: DriverFailure) -> (error: RepoError)
    ensures
        error == failure.reported(),
{
    match failure {
        DriverFailure::RowNotFound => RepoError::NotFound,
        DriverFailure::UniqueViolation => RepoError::Conflict,
        DriverFailure::ForeignKeyViolation => RepoError::Conflict,
        DriverFailure::NoConnection => RepoError::StoreUnavailable,
        DriverFailure::Other => RepoError::StoreUnavailable,
    }
}

/// The outcome of a statement that changes or removes the row with a given
/// primary key, from the number of rows that it touched: where it touched
/// none, no row has the key.
pub fn written(rows: usize) -> (outcome: Result<(), RepoError>)
    ensures
        outcome == if rows == 0 {
            Err::<(), RepoError>(RepoError::NotFound)
        } else {
            Ok::<(), RepoError>(())
        },
{
    if rows == 0 {
        Err(RepoError::NotFound)
    } else {
        Ok(())
    }
}

/// Marks an entity as one that a store keeps.
pub trait RepositoryBase {
    /// The name of the primary key column.
    fn get_pk() -> &'static str;

    /// Translates a failure of the driver into the failure that the system
    /// reports. No failure of the driver crosses the repository as it is.
    fn map_err(failure: DriverFailure) -> (error: RepoError)
        ensures
            error == failure.reported(),
    ;
}

/// The entity can be created: a row is inserted and handed back as stored.
pub trait RepositoryCreate: Sized {
    fn create_from(item: Self, store: &mut Store) -> (outcome: Result<Self, RepoError>)
        requires
            old(store).wf(),
        ensures
            final(store).wf(),
    ;
}

/// The entity can be changed: a patch is applied to the row with the given
/// primary key, and what the patch leaves out stays as it is.
pub trait RepositoryUpdate {
    /// The patch of the entity.
    type UpdateItem;

    fn update_pk(pk: &str, values: Self::UpdateItem, store: &mut Store) -> (outcome: Result<
        (),
        RepoError,
    >)
        requires
            old(store).wf(),
        ensures
            final(store).wf(),
    ;
}

/// The entity can be deleted: the row with the given primary key is
/// removed.
pub trait RepositoryDelByPk {
    fn del_by_pk(pk: &str, store: &mut Store) -> (outcome: Result<(), RepoError>)
        requires
            old(store).wf(),
        ensures
            final(store).wf(),
    ;
}

/// The entity can be read by a filter, in the join shape that it declares
/// once for all its reads.
pub trait RepositoryReadBy: RepositoryBase {
    /// A row as a read returns it.
    type Output;

    /// Translates a filter into a read of the entity's relation.
    fn gen_read_query(filter: &GenericFilter, is_multiple: bool) -> ReadQuery;

    /// Reads the rows that the filter asks for.
    fn read_by(filter: &GenericFilter, store: &Store) -> Vec<Self::Output>
        requires
            store.wf(),
    ;

    /// Reads the first row that the filter asks for.
    fn read_one_by(filter: &GenericFilter, store: &Store) -> Result<Self::Output, RepoError>
        requires
            store.wf(),
    ;

    /// Reads the row with the given primary key.
    fn read_by_pk(pk: &str, store: &Store) -> Result<Self::Output, RepoError>
        requires
            store.wf(),
    ;
}

/// The rows that a read returns are turned into the objects that callers
/// see.
pub trait RepositoryReadByTransform: RepositoryReadBy {
    /// An object as callers see it.
    type NewOutput;

    /// Turns one row into the object that it stands for.
    fn transform(item: Self::Output) -> Result<Self::NewOutput, RepoError>;

    /// Reads the objects that the filter asks for.
    fn transform_read_by(filter: &GenericFilter, store: &Store) -> Result<
        Vec<Self::NewOutput>,
        RepoError,
    >
        requires
            store.wf(),
    ;

    /// Reads the object with the given primary key.
    fn transform_read_by_pk(pk: &str, store: &Store) -> Result<Self::NewOutput, RepoError>
        requires
            store.wf(),
    ;
}

/// The entity refers to a spec, and becomes the object that callers see
/// once the spec is attached.
pub trait WithSpec {
    /// The object with the spec attached.
    type Output;

    /// The spec in its domain shape.
    type Relation;

    fn with_spec(self, r: &Self::Relation) -> Self::Output;
}

} // verus!
