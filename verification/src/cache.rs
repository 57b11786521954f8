//! The cache abstraction: a string value with an optional expiry
//! timestamp, and the storage-agnostic interface the session layer
//! talks to.

use vstd::prelude::*;

use crate::error::AppError;

verus! {

/// A cached string with an optional expiry timestamp.
#[derive(Debug)]
pub struct StrValue {
    value: String,
    expired: Option<i64>,
}

impl StrValue {
    /// The stored text.
    pub closed spec fn spec_value(&self) -> Seq<char> {
        self.value@
    }

    /// The expiry timestamp, if one was set.
    pub closed spec fn spec_expired(&self) -> Option<int> {
        match self.expired {
            Some(t) => Some(t as int),
            None => None,
        }
    }

    /// Sets the expiry timestamp, leaving the text unchanged.
    pub fn set_expired(&mut self, expired: i64)
        ensures
            final(self).spec_expired() == Some(expired as int),
            final(self).spec_value() == old(self).spec_value(),
    {
        self.expired = Some(expired);
    }

    /// The stored text, for reading the value back out.
    pub fn value(&self) -> (r: &str)
        ensures
            r@ == self.spec_value(),
    {
        self.value.as_str()
    }
}

impl StrValue {
    /// Wraps a plain string, with no expiry set.
    pub fn new(value: String) -> (r: StrValue)
        ensures
            r.spec_value() == value@,
            r.spec_expired() is None,
    {
        StrValue { value, expired: None }
    }

    /// Wraps a plain string slice, with no expiry set.
    pub fn from_str_slice(value: &str) -> (r: StrValue)
        ensures
            r.spec_value() == value@,
            r.spec_expired() is None,
    {
        StrValue { value: value.to_owned(), expired: None }
    }
}

/// The storage abstraction the session layer talks to: where the data
/// lives does not matter, only how it is read and written.  Backends
/// (an embedded key-value store, a cache server) live outside the
/// library and implement this interface there.
pub trait Cache: Send + Sync + 'static {
    /// Reads the value stored at `key`.
    fn get(&self, key: &str) -> Result<Option<StrValue>, AppError>;

    /// Stores a value at `key`, returning the value it replaced.
    fn set(&self, key: String, value: StrValue) -> Result<Option<StrValue>, AppError>;

    /// Removes the value stored at `key`, returning it.
    fn del(&self, key: &str) -> Result<Option<StrValue>, AppError>;

    /// True when a value is stored at `key`.
    fn is_exists(&self, key: &str) -> Result<bool, AppError>;
}

/// Turns an optional outcome inside out: no value stays no value, a
/// present outcome keeps its success or failure.
pub fn flip<T>(x: Option<Result<T, AppError>>) -> (r: Result<Option<T>, AppError>)
    ensures
        match x {
            None => r matches Ok(None),
            Some(Ok(_)) => r matches Ok(Some(t)) && x == Some(Result::<T, AppError>::Ok(t)),
            Some(Err(_)) => r matches Err(e) && x == Some(Result::<T, AppError>::Err(e)),
        },
{
    match x {
        None => Ok(None),
        Some(Ok(t)) => Ok(Some(t)),
        Some(Err(e)) => Err(e),
    }
}

} // verus!
