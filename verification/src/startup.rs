//! Startup failures: which kind of error a fault of the watch mechanism is,
//! and the message that the caller of the startup call receives.

use vstd::prelude::*;
use vstd::string::StringExecFns;

verus! {

/// The step of startup at which a fault arose.
#[derive(Clone, Copy, Debug, PartialEq, Eq, Structural)]
pub enum StartStage {
    /// Constructing the watcher and its debouncer.
    CreateWatcher,
    /// Registering the recursive watch on the root.
    RegisterWatch,
}

/// What an I/O fault of the watch mechanism says of its cause.
#[derive(Clone, Copy, Debug, PartialEq, Eq, Structural)]
pub enum IoFault {
    NotFound,
    PermissionDenied,
    Other,
}

/// A fault as the watch mechanism reports it.
#[derive(Clone, Copy, Debug, PartialEq, Eq, Structural)]
pub enum WatchFault {
    /// A fault without a kind of its own.
    Generic,
    /// A fault of the operating system.
    Io(IoFault),
    /// The path to watch does not exist.
    PathNotFound,
    /// No watch is registered on the path.
    WatchNotFound,
    /// The watcher does not take its configuration.
    InvalidConfig,
    /// The operating system's limit on watches is reached.
    MaxFilesWatch,
}

/// Why the notifier did not start.
#[derive(Clone, Copy, Debug, PartialEq, Eq, Structural)]
pub enum StartError {
    /// The root does not exist.
    RootMissing,
    /// The process may not read the root.
    PermissionDenied,
    /// A limit of the operating system is reached.
    OsLimitExceeded,
    /// The platform's watcher cannot provide the watch.
    Unsupported,
}

/// A startup failure: where it arose, of which kind it is, and the message
/// for the caller.
#[derive(Clone, Debug)]
pub struct StartFailure {
    pub stage: StartStage,
    pub error: StartError,
    pub message: String,
}

/// The kind of startup error that a fault amounts to.
pub open spec fn classify(fault: WatchFault) -> StartError {
    match fault {
        WatchFault::PathNotFound => StartError::RootMissing,
        WatchFault::Io(IoFault::NotFound) => StartError::RootMissing,
        WatchFault::Io(IoFault::PermissionDenied) => StartError::PermissionDenied,
        WatchFault::MaxFilesWatch => StartError::OsLimitExceeded,
        _ => StartError::Unsupported,
    }
}

/// How the message of a failure at `stage` begins.
pub open spec fn stage_prefix(stage: StartStage) -> Seq<char> {
    match stage {
        StartStage::CreateWatcher => "Failed to create file watcher: "@,
        StartStage::RegisterWatch => "Failed to watch directory: "@,
    }
}

impl StartError {
    /// The kind of startup error that `fault` amounts to.
    pub fn from_fault(fault: WatchFault) -> (error: StartError)
        ensures
            error == classify(fault),
    {
        match fault {
            WatchFault::PathNotFound => StartError::RootMissing,
            WatchFault::Io(IoFault::NotFound) => StartError::RootMissing,
            WatchFault::Io(IoFault::PermissionDenied) => StartError::PermissionDenied,
            WatchFault::MaxFilesWatch => StartError::OsLimitExceeded,
            _ => StartError::Unsupported,
        }
    }
}

impl StartStage {
    /// How the message of a failure at this stage begins.
    pub fn prefix(self) -> (text: &'static str)
        ensures
            text@ == stage_prefix(self),
    {
        match self {
            StartStage::CreateWatcher => "Failed to create file watcher: ",
            StartStage::RegisterWatch => "Failed to watch directory: ",
        }
    }
}

impl StartFailure {
    /// The failure for a fault at `stage`, where `detail` is the watch
    /// mechanism's own description of the fault.
    pub fn new(stage: StartStage, fault: WatchFault, detail: &str) -> (failure: StartFailure)
        ensures
            failure.stage == stage,
            failure.error == classify(fault),
            failure.message@ == stage_prefix(stage) + detail@,
    {
        let mut message = String::from_str(stage.prefix());
        message.append(detail);
        StartFailure { stage, error: StartError::from_fault(fault), message }
    }
}

} // verus!
