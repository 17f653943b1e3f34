//! What can go wrong, and how a failure travels outward.

use vstd::prelude::*;

verus! {

/// Why a response could not be read as the shape a table expects.
#[derive(Debug, Clone, Copy, PartialEq, Eq, Structural)]
pub enum DecodeReason {
    /// The response is not a record `{id, fields, createdTime}`.
    NotARecord,
    /// The response is not a record list `{records: [...]}`.
    NotARecordList,
    /// A field is missing or holds a value of another type than its kind.
    FieldType,
}

/// A domain rule that a value broke.
#[derive(Debug, Clone, Copy, PartialEq, Eq, Structural)]
pub enum MappingReason {
    /// A lookup by ids was given no id.
    MissingIds,
    /// The first item of an empty list was asked for.
    EmptyList,
    /// A transform got a value of a type it does not take.
    UnexpectedValue,
    /// A record has no field of the asked name.
    MissingField,
}

/// Errors of the library. Each layer that a failure passes adds one level of
/// context: the field and table of a transform, then the table of a record.
#[derive(Debug)]
pub enum Error {
    /// Credentials or base id were not configured.
    MissingEnvConfig,
    /// A table, id or filter value gave no valid URL.
    UrlConstruction,
    /// The transport could not reach the store for `url`.
    RemoteRequest { url: String, message: String },
    /// The store answered `url` with a status that is not a success.
    RemoteResponse { status: u16, url: String },
    /// A response did not have the expected shape.
    Deserialization(DecodeReason),
    /// A domain rule was broken.
    Mapping(MappingReason),
    /// The transform chain of `field` in `table` failed.
    FieldTransform { table: String, field: String, cause: Box<Error> },
    /// A record of `table` could not be built.
    RecordCreation { table: String, cause: Box<Error> },
    /// Linked records nested deeper than the depth guard allows, at `table`.
    DepthLimit { table: String },
}

impl Error {
    /// A copy of this error, cause by cause.
    pub fn duplicate(&self) -> (r: Error)
        ensures
            r == *self,
        decreases self,
    {
        match self {
            Error::MissingEnvConfig => Error::MissingEnvConfig,
            Error::UrlConstruction => Error::UrlConstruction,
            Error::RemoteRequest { url, message } => Error::RemoteRequest { url: url.clone(), message: message.clone() },
            Error::RemoteResponse { status, url } => Error::RemoteResponse { status: *status, url: url.clone() },
            Error::Deserialization(r) => Error::Deserialization(*r),
            Error::Mapping(r) => Error::Mapping(*r),
            Error::FieldTransform { table, field, cause } => Error::FieldTransform {
                table: table.clone(),
                field: field.clone(),
                cause: Box::new(cause.duplicate()),
            },
            Error::RecordCreation { table, cause } => Error::RecordCreation {
                table: table.clone(),
                cause: Box::new(cause.duplicate()),
            },
            Error::DepthLimit { table } => Error::DepthLimit { table: table.clone() },
        }
    }
}

/// What the transport reports for a request that produced no value.
#[derive(Debug)]
pub enum FetchFailure {
    /// The request did not complete; the transport's message.
    Transport { message: String },
    /// The store answered with this non-success HTTP status.
    Status { status: u16 },
}

/// The error that a failed fetch of `url` turns into.
pub open spec fn failure_error(url: String, f: FetchFailure) -> Error {
    match f {
        FetchFailure::Transport { message } => Error::RemoteRequest { url, message },
        FetchFailure::Status { status } => Error::RemoteResponse { status, url },
    }
}

pub fn error_of_failure(url: String, f: FetchFailure) -> (r: Error)
    ensures
        r == failure_error(url, f),
{
    match f {
        FetchFailure::Transport { message } => Error::RemoteRequest { url, message },
        FetchFailure::Status { status } => Error::RemoteResponse { status, url },
    }
}

/// Why a computation that reads the store stopped before its result.
#[derive(Debug)]
pub enum Stop {
    /// It failed with this error.
    Fail(Error),
    /// It needs the response for this URL, which the store has not given yet.
    Need(String),
}

/// The model of a [`Stop`].
pub enum Halt {
    Fail(Error),
    Need(Seq<char>),
}

impl Stop {
    pub open spec fn view(&self) -> Halt {
        match self {
            Stop::Fail(e) => Halt::Fail(*e),
            Stop::Need(u) => Halt::Need(u@),
        }
    }
}

} // verus!
