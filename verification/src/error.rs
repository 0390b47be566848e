//! The kinds of failure and how far each of them reaches.

use vstd::prelude::*;

verus! {

/// What can go wrong.
#[derive(Clone, Copy, Debug, PartialEq, Eq, Structural)]
pub enum Failure {
    /// A line of the task file is malformed.
    Format,
    /// A required setting is missing or invalid.
    Config,
    /// The listener cannot bind its address.
    Bind,
    /// The host's service manager rejects the registration.
    Registration,
    /// The task file cannot be read or written.
    Io,
    /// The host did not take a status report.
    StatusReport,
}

/// How far a failure reaches.
#[derive(Clone, Copy, Debug, PartialEq, Eq, Structural)]
pub enum Reach {
    /// The start is given up and the process ends with a diagnostic.
    Startup,
    /// The request that met the failure gets an error; the listener and the
    /// other requests go on.
    Request,
    /// The failure is logged and the work goes on.
    Logged,
}

/// The reach of each kind of failure.
pub open spec fn reach_of(failure: Failure) -> Reach {
    match failure {
        Failure::Config | Failure::Bind | Failure::Registration => Reach::Startup,
        Failure::Format | Failure::Io => Reach::Request,
        Failure::StatusReport => Reach::Logged,
    }
}

impl Failure {
    /// How far this kind of failure reaches.
    pub fn reach(self) -> (reach: Reach)
        ensures
            reach == reach_of(self),
    {
        match self {
            Failure::Config | Failure::Bind | Failure::Registration => Reach::Startup,
            Failure::Format | Failure::Io => Reach::Request,
            Failure::StatusReport => Reach::Logged,
        }
    }
}

} // verus!
