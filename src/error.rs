use vstd::prelude::*;
use vstd::string::*;

verus! {

/// What went wrong, with the message of the part that failed.
#[derive(Clone, Debug, PartialEq, Eq)]
pub enum Error {
    /// The lock that serialises access to the store was poisoned.
    PoisonedLock,
    /// The application shell failed.
    Tauri(String),
    /// The store failed to open or to run a statement.
    Database(String),
    /// The data directory could not be prepared.
    FileSystem(String),
}

/// The text shown for an error.
pub open spec fn message_of(e: Error) -> Seq<char> {
    match e {
        Error::PoisonedLock => "a mutex lock was poisoned"@,
        Error::Tauri(m) => "tauri error: "@ + m@,
        Error::Database(m) => "database error: "@ + m@,
        Error::FileSystem(m) => "filesystem error: "@ + m@,
    }
}

impl Error {
    /// The text shown for this error: its kind, then the underlying message.
    pub fn message(&self) -> (r: String)
        ensures
            r@ == message_of(*self),
    {
        match self {
            Error::PoisonedLock => "a mutex lock was poisoned".to_owned(),
            Error::Tauri(m) => "tauri error: ".to_owned().concat(m.as_str()),
            Error::Database(m) => "database error: ".to_owned().concat(m.as_str()),
            Error::FileSystem(m) => "filesystem error: ".to_owned().concat(m.as_str()),
        }
    }
}

#[verifier::external_type_specification]
#[verifier::external_body]
#[verifier::reject_recursive_types(T)]
pub struct ExPoisonError<T>(std::sync::PoisonError<T>);

impl<T> From<std::sync::PoisonError<T>> for Error {
    fn from(_e: std::sync::PoisonError<T>) -> (r: Error)
        ensures
            r == Error::PoisonedLock,
    {
        Error::PoisonedLock
    }
}

impl<T> vstd::std_specs::convert::FromSpecImpl<std::sync::PoisonError<T>> for Error {
    open spec fn obeys_from_spec() -> bool {
        true
    }

    open spec fn from_spec(v: std::sync::PoisonError<T>) -> Error {
        Error::PoisonedLock
    }
}

} // verus!
