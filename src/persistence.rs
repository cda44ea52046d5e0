use vstd::prelude::*;

use crate::error::{ErrorModel, SolverError, BAD_REQUEST};
use crate::registry::{registration_result_view, unit_result_view};
use crate::types::{NamespaceId, RollupRegistration};

verus! {

/// The largest namespace that the store's signed 64-bit key column holds.
pub const MAX_STORED_NAMESPACE: u64 = 0x7fff_ffff_ffff_ffff;

/// What the store reported for a write.
pub enum StoreWrite {
    /// The statement ran and affected this many rows.
    Affected(u64),
    /// The row would break the store's uniqueness constraint on the namespace.
    UniqueViolation,
    /// The store failed for another reason, described here.
    Failed(String),
}

/// The store key of a namespace: the same number as a signed 64-bit
/// integer, or an overflow error when it does not fit.
pub fn namespace_key(ns: NamespaceId) -> (r: Result<i64, SolverError>)
    ensures
        ns <= MAX_STORED_NAMESPACE <==> r is Ok,
        r matches Ok(k) ==> k as int == ns as int,
        r matches Err(e) ==> e@ == ErrorModel::Custom(
            BAD_REQUEST,
            "overflow out of range integral type conversion attempted"@,
        ),
{
    if ns <= MAX_STORED_NAMESPACE {
        Ok(ns as i64)
    } else {
        Err(
            SolverError::Custom {
                status: BAD_REQUEST,
                message: String::from_str("overflow out of range integral type conversion attempted"),
            },
        )
    }
}

/// A write succeeds only when it affected exactly one row.
pub fn check_rows_affected(rows: u64) -> (r: Result<(), SolverError>)
    ensures
        unit_result_view(r) == rows_result(rows),
{
    if rows == 1 {
        Ok(())
    } else {
        Err(SolverError::Database(String::from_str("invalid number of rows affected")))
    }
}

/// What a write of one row comes to.
pub open spec fn rows_result(rows: u64) -> Result<(), ErrorModel> {
    if rows == 1 {
        Ok(())
    } else {
        Err(ErrorModel::Storage("invalid number of rows affected"@))
    }
}

/// What inserting a new registration for `ns` comes to.
pub open spec fn insert_result(ns: NamespaceId, write: StoreWrite) -> Result<(), ErrorModel> {
    match write {
        StoreWrite::Affected(n) => rows_result(n),
        StoreWrite::UniqueViolation => Err(ErrorModel::AlreadyExists(ns)),
        StoreWrite::Failed(m) => Err(ErrorModel::Storage(m@)),
    }
}

/// What overwriting a stored registration comes to.
pub open spec fn overwrite_result(write: StoreWrite) -> Result<(), ErrorModel> {
    match write {
        StoreWrite::Affected(n) => rows_result(n),
        StoreWrite::UniqueViolation => Err(ErrorModel::Storage("unique constraint violated"@)),
        StoreWrite::Failed(m) => Err(ErrorModel::Storage(m@)),
    }
}

/// The outcome of inserting a new registration for `ns`: the store's
/// uniqueness constraint is the authority on whether the namespace exists.
pub fn insert_outcome(ns: NamespaceId, write: StoreWrite) -> (r: Result<(), SolverError>)
    ensures
        unit_result_view(r) == insert_result(ns, write),
{
    match write {
        StoreWrite::Affected(n) => check_rows_affected(n),
        StoreWrite::UniqueViolation => Err(SolverError::RollupAlreadyExists(ns)),
        StoreWrite::Failed(m) => Err(SolverError::Database(m)),
    }
}

/// The outcome of overwriting the stored registration of a namespace.
pub fn overwrite_outcome(write: StoreWrite) -> (r: Result<(), SolverError>)
    ensures
        unit_result_view(r) == overwrite_result(write),
{
    match write {
        StoreWrite::Affected(n) => check_rows_affected(n),
        StoreWrite::UniqueViolation => Err(
            SolverError::Database(String::from_str("unique constraint violated")),
        ),
        StoreWrite::Failed(m) => Err(SolverError::Database(m)),
    }
}

/// The registration fetched for `ns`, or a not-found error when the store
/// holds none.
pub fn require_stored(ns: NamespaceId, fetched: Option<RollupRegistration>) -> (r: Result<
    RollupRegistration,
    SolverError,
>)
    ensures
        registration_result_view(r) == match fetched {
            Some(x) => Ok(x@),
            None => Err(ErrorModel::NotFound(ns)),
        },
{
    match fetched {
        Some(x) => Ok(x),
        None => Err(SolverError::RollupNotFound(ns)),
    }
}

} // verus!
