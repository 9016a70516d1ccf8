//! Errors of the service and of the model.
use vstd::prelude::*;

verus! {

/// Failure of a service operation; a missing record is no error.
#[derive(Debug)]
pub enum ServiceError {
    /// File-system failure, such as creating the store's directory.
    Io(String),
    /// Failure of the storage engine: opening the store or a table, reading, writing or
    /// committing.
    DB(String),
}

impl ServiceError {
    /// A storage-engine failure described by `message`.
    pub fn db(message: String) -> (r: ServiceError)
        ensures
            r == ServiceError::DB(message),
    {
        ServiceError::DB(message)
    }

    /// The description that the error carries.
    pub fn message(&self) -> (r: &str)
        ensures
            r@ == match self {
                ServiceError::Io(m) => m@,
                ServiceError::DB(m) => m@,
            },
    {
        match self {
            ServiceError::Io(m) => m.as_str(),
            ServiceError::DB(m) => m.as_str(),
        }
    }
}

/// Failure inside the model: hashing a password, or a stored hash that cannot be read.
#[derive(Debug)]
pub enum Error {
    Runtime(String),
}

impl Error {
    /// A model failure described by `message`.
    pub fn runtime(message: String) -> (r: Error)
        ensures
            r == Error::Runtime(message),
    {
        Error::Runtime(message)
    }

    /// The description that the error carries.
    pub fn message(&self) -> (r: &str)
        ensures
            r@ == match self {
                Error::Runtime(m) => m@,
            },
    {
        match self {
            Error::Runtime(m) => m.as_str(),
        }
    }
}

} // verus!
