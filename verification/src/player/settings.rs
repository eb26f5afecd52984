//! Player settings handed in by the embedding page.

use vstd::prelude::*;

verus! {

/// How much the player logs.
#[derive(Debug, Clone, Copy, PartialEq, Eq, Structural)]
pub enum LoggingLevel {
    Info,
    Trace,
    Debug,
    Warn,
    Error,
}

impl Default for LoggingLevel {
    /// Informational logging.
    fn default() -> (r: LoggingLevel)
        ensures
            r == LoggingLevel::Info,
    {
        LoggingLevel::Info
    }
}

/// A value decoded from the page, kept until the player takes it.
#[derive(Debug)]
pub struct ErrorWrapper<T> {
    inner: T,
}

impl<T> ErrorWrapper<T> {
    /// The wrapped value.
    pub closed spec fn value(self) -> T {
        self.inner
    }

    /// Wraps a decoded value.
    pub fn new(inner: T) -> (r: Self)
        ensures
            r.value() == inner,
    {
        ErrorWrapper { inner }
    }

    /// Takes the wrapped value out.
    pub fn into_inner(self) -> (r: T)
        ensures
            r == self.value(),
    {
        self.inner
    }
}

} // verus!
