//! The crate-wide error type.
use vstd::prelude::*;
use vstd::string::*;

use crate::carve::CarveError;

verus! {

#[derive(Debug)]
pub enum FastCarveError {
    /// A carve failed.
    Carve(CarveError),
    /// The evidence could not be read.
    Evidence(String),
    /// A metadata record could not be written.
    Metadata(String),
    /// The configuration is unusable.
    Config(String),
    /// A lock was poisoned by a panicking thread.
    LockPoisoned(String),
    Io(String),
    /// A pipeline queue was closed unexpectedly.
    Channel(String),
    Other(String),
}

impl FastCarveError {
    pub fn lock_poisoned(context: &str) -> (r: Self)
        ensures
            r matches FastCarveError::LockPoisoned(s) && s@ == context@,
            r.text() == "lock poisoned: "@ + context@,
    {
        FastCarveError::LockPoisoned(String::from_str(context))
    }

    pub fn channel_error(context: &str) -> (r: Self)
        ensures
            r matches FastCarveError::Channel(s) && s@ == context@,
            r.text() == "channel error: "@ + context@,
    {
        FastCarveError::Channel(String::from_str(context))
    }

    pub fn config_error(msg: &str) -> (r: Self)
        ensures
            r matches FastCarveError::Config(s) && s@ == msg@,
            r.text() == "config error: "@ + msg@,
    {
        FastCarveError::Config(String::from_str(msg))
    }

    pub open spec fn text(&self) -> Seq<char> {
        match self {
            FastCarveError::Carve(e) => "carve error: "@ + e.text(),
            FastCarveError::Evidence(s) => "evidence error: "@ + s@,
            FastCarveError::Metadata(s) => "metadata error: "@ + s@,
            FastCarveError::Config(s) => "config error: "@ + s@,
            FastCarveError::LockPoisoned(s) => "lock poisoned: "@ + s@,
            FastCarveError::Io(s) => "io error: "@ + s@,
            FastCarveError::Channel(s) => "channel error: "@ + s@,
            FastCarveError::Other(s) => s@,
        }
    }

    /// A human-readable description, prefixed by the kind of failure.
    pub fn message(&self) -> (r: String)
        ensures
            r@ == self.text(),
    {
        match self {
            FastCarveError::Carve(e) => String::from_str("carve error: ").concat(e.message().as_str()),
            FastCarveError::Evidence(s) => String::from_str("evidence error: ").concat(s.as_str()),
            FastCarveError::Metadata(s) => String::from_str("metadata error: ").concat(s.as_str()),
            FastCarveError::Config(s) => String::from_str("config error: ").concat(s.as_str()),
            FastCarveError::LockPoisoned(s) => String::from_str("lock poisoned: ").concat(s.as_str()),
            FastCarveError::Io(s) => String::from_str("io error: ").concat(s.as_str()),
            FastCarveError::Channel(s) => String::from_str("channel error: ").concat(s.as_str()),
            FastCarveError::Other(s) => s.clone(),
        }
    }
}

} // verus!
