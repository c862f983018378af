//! What finishing an encoder gives back: the sink, always, and the error if
//! there was one.

use crate::gzip::error::Error;
use vstd::prelude::*;

verus! {

/// The outcome of finishing an encoder. The sink is handed back whether or
/// not finishing succeeded, so that a failure does not lose it.
#[derive(Debug)]
pub struct Finish<T> {
    value: T,
    error: Option<Error>,
}

impl<T> Finish<T> {
    /// What was handed back.
    pub closed spec fn value(self) -> T {
        self.value
    }

    /// The error, if finishing failed.
    pub closed spec fn error(self) -> Option<Error> {
        self.error
    }

    pub fn new(value: T, error: Option<Error>) -> (finish: Self)
        ensures
            finish.value() == value,
            finish.error() == error,
    {
        Finish { value, error }
    }

    /// The value if there was no error, the error otherwise.
    pub fn result(self) -> (result: Result<T, Error>)
        ensures
            result == match self.error() {
                None => Ok::<T, Error>(self.value()),
                Some(e) => Err::<T, Error>(e),
            },
    {
        match self.error {
            None => Ok(self.value),
            Some(e) => Err(e),
        }
    }

    /// The value if there was no error, the value and the error otherwise.
    pub fn into_result(self) -> (result: Result<T, (T, Error)>)
        ensures
            result == match self.error() {
                None => Ok::<T, (T, Error)>(self.value()),
                Some(e) => Err::<T, (T, Error)>((self.value(), e)),
            },
    {
        match self.error {
            None => Ok(self.value),
            Some(e) => Err((self.value, e)),
        }
    }

    /// The value, whether or not there was an error.
    pub fn into_inner(self) -> (value: T)
        ensures
            value == self.value(),
    {
        self.value
    }
}

} // verus!
