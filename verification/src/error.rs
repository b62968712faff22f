//! The errors of the monitor.

use vstd::prelude::*;
use crate::text::concat;

verus! {

/// What can go wrong in the monitor. Each variant carries the details as
/// text.
#[derive(Debug)]
pub enum SecmonError {
    Io(String),
    Inotify(String),
    Config(String),
    Serialization(String),
    Channel(String),
}

impl SecmonError {
    /// What the message says before the details.
    pub open spec fn label(&self) -> Seq<char> {
        match self {
            SecmonError::Io(_) => "IO error: "@,
            SecmonError::Inotify(_) => "Inotify error: "@,
            SecmonError::Config(_) => "Configuration error: "@,
            SecmonError::Serialization(_) => "Serialization error: "@,
            SecmonError::Channel(_) => "Channel error: "@,
        }
    }

    /// The details of the error.
    pub open spec fn details(&self) -> Seq<char> {
        match self {
            SecmonError::Io(s) => s@,
            SecmonError::Inotify(s) => s@,
            SecmonError::Config(s) => s@,
            SecmonError::Serialization(s) => s@,
            SecmonError::Channel(s) => s@,
        }
    }

    /// A one-line message for the user.
    pub fn message(&self) -> (r: String)
        ensures
            r@ == self.label() + self.details(),
    {
        match self {
            SecmonError::Io(s) => concat("IO error: ", s.as_str()),
            SecmonError::Inotify(s) => concat("Inotify error: ", s.as_str()),
            SecmonError::Config(s) => concat("Configuration error: ", s.as_str()),
            SecmonError::Serialization(s) => concat("Serialization error: ", s.as_str()),
            SecmonError::Channel(s) => concat("Channel error: ", s.as_str()),
        }
    }
}

} // verus!
