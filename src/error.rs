use vstd::prelude::*;

use crate::types::{NamespaceId, SignatureKey};

verus! {

/// The status classification of a failure.
pub const BAD_REQUEST: u16 = 400;

/// Failures of the registry and of the layers around it.
#[derive(PartialEq, Eq, Clone, Debug)]
pub enum SolverError {
    /// A registration for the namespace is already stored.
    RollupAlreadyExists(NamespaceId),
    /// The signing key is not among the body's own authorized keys.
    InvalidSignature(SignatureKey),
    /// The signing key is not among the stored registration's authorized keys.
    SignatureDatabaseKeysMismatch(SignatureKey),
    /// No registration is stored for the namespace.
    RollupNotFound(NamespaceId),
    BincodeError(String),
    /// A failure of the persistence layer.
    Database(String),
    /// A payload could not be serialized or deserialized.
    SerdeJsonError(String),
    Request(String),
    /// The consensus event service could not be reached.
    UpstreamUnavailable(String),
    Custom { status: u16, message: String },
}

/// The mathematical content of an error: its kind and what identifies it.
pub enum ErrorModel {
    AlreadyExists(u64),
    InvalidSignature(Seq<u8>),
    AuthorizationMismatch(Seq<u8>),
    NotFound(u64),
    Bincode(Seq<char>),
    Storage(Seq<char>),
    Serialization(Seq<char>),
    Request(Seq<char>),
    UpstreamUnavailable(Seq<char>),
    Custom(u16, Seq<char>),
}

impl View for SolverError {
    type V = ErrorModel;

    open spec fn view(&self) -> ErrorModel {
        match self {
            SolverError::RollupAlreadyExists(n) => ErrorModel::AlreadyExists(*n),
            SolverError::InvalidSignature(k) => ErrorModel::InvalidSignature(k@),
            SolverError::SignatureDatabaseKeysMismatch(k) => ErrorModel::AuthorizationMismatch(k@),
            SolverError::RollupNotFound(n) => ErrorModel::NotFound(*n),
            SolverError::BincodeError(m) => ErrorModel::Bincode(m@),
            SolverError::Database(m) => ErrorModel::Storage(m@),
            SolverError::SerdeJsonError(m) => ErrorModel::Serialization(m@),
            SolverError::Request(m) => ErrorModel::Request(m@),
            SolverError::UpstreamUnavailable(m) => ErrorModel::UpstreamUnavailable(m@),
            SolverError::Custom { status, message } => ErrorModel::Custom(*status, message@),
        }
    }
}

impl SolverError {
    /// An error with the given status and message.
    pub fn catch_all(status: u16, message: String) -> (r: SolverError)
        ensures
            r@ == ErrorModel::Custom(status, message@),
    {
        SolverError::Custom { status, message }
    }

    /// The status under which the error is reported: a custom error keeps its
    /// own, every other kind is a bad request.
    pub fn status(&self) -> (r: u16)
        ensures
            r == match self {
                SolverError::Custom { status, .. } => *status,
                _ => BAD_REQUEST,
            },
    {
        match self {
            SolverError::Custom { status, .. } => *status,
            _ => BAD_REQUEST,
        }
    }
}

} // verus!
