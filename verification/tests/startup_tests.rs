use session_watch::startup::{IoFault, StartError, StartFailure, StartStage, WatchFault};

#[test]
fn missing_root_is_a_startup_error() {
    let failure = StartFailure::new(
        StartStage::RegisterWatch,
        WatchFault::Io(IoFault::NotFound),
        "No such file or directory (os error 2)",
    );
    assert_eq!(failure.stage, StartStage::RegisterWatch);
    assert_eq!(failure.error, StartError::RootMissing);
    assert_eq!(
        failure.message,
        "Failed to watch directory: No such file or directory (os error 2)"
    );
}

#[test]
fn path_not_found_is_a_missing_root() {
    assert_eq!(StartError::from_fault(WatchFault::PathNotFound), StartError::RootMissing);
    assert_eq!(
        StartError::from_fault(WatchFault::Io(IoFault::NotFound)),
        StartError::RootMissing
    );
}

#[test]
fn permission_fault_is_permission_denied() {
    assert_eq!(
        StartError::from_fault(WatchFault::Io(IoFault::PermissionDenied)),
        StartError::PermissionDenied
    );
}

#[test]
fn watch_limit_is_an_os_limit() {
    assert_eq!(StartError::from_fault(WatchFault::MaxFilesWatch), StartError::OsLimitExceeded);
}

#[test]
fn other_faults_are_unsupported() {
    for fault in [
        WatchFault::Generic,
        WatchFault::Io(IoFault::Other),
        WatchFault::WatchNotFound,
        WatchFault::InvalidConfig,
    ] {
        assert_eq!(StartError::from_fault(fault), StartError::Unsupported);
    }
}

#[test]
fn message_begins_with_the_stage() {
    assert_eq!(StartStage::CreateWatcher.prefix(), "Failed to create file watcher: ");
    assert_eq!(StartStage::RegisterWatch.prefix(), "Failed to watch directory: ");
    let failure = StartFailure::new(
        StartStage::CreateWatcher,
        WatchFault::MaxFilesWatch,
        "OS file watch limit reached.",
    );
    assert_eq!(failure.error, StartError::OsLimitExceeded);
    assert_eq!(
        failure.message,
        "Failed to create file watcher: OS file watch limit reached."
    );
}

#[test]
fn message_keeps_the_detail_unchanged() {
    let failure = StartFailure::new(StartStage::RegisterWatch, WatchFault::Generic, "");
    assert_eq!(failure.message, "Failed to watch directory: ");
    let detail = "No path was found. about [\"/tmp/gone\"]";
    let failure = StartFailure::new(StartStage::RegisterWatch, WatchFault::PathNotFound, detail);
    assert_eq!(
        failure.message,
        "Failed to watch directory: No path was found. about [\"/tmp/gone\"]"
    );
}
