use session_watch::event::{has_jsonl_changes, ChangeEvent, ChangeKind};
use session_watch::worker::{Action, Input, WorkerState, DEBOUNCE_WINDOW_SECS, SESSIONS_CHANGED};

fn event(kind: ChangeKind, paths: &[&str]) -> ChangeEvent {
    ChangeEvent::new(kind, paths.iter().map(|p| p.as_bytes().to_vec()).collect())
}

/// Feeds the batches to a worker in turn, reports every notification as taken
/// by the host, and counts the notifications asked for.
fn emissions(batches: Vec<Vec<ChangeEvent>>) -> usize {
    let mut state = WorkerState::new();
    let mut count = 0;
    for batch in batches {
        let (next, action) = state.on_input(&Input::Batch(batch));
        state = next;
        if action == Action::Notify {
            count += 1;
            let (next, action) = state.on_input(&Input::NotifyDone);
            assert_eq!(action, Action::Wait);
            state = next;
        }
        assert_eq!(state, WorkerState::Idle);
    }
    count
}

#[test]
fn notification_name_and_window_are_fixed() {
    assert_eq!(SESSIONS_CHANGED, "sessions-changed");
    assert_eq!(DEBOUNCE_WINDOW_SECS, 1);
}

#[test]
fn worker_starts_idle() {
    assert_eq!(WorkerState::new(), WorkerState::Idle);
}

#[test]
fn created_session_log_gives_one_emission() {
    let batch = vec![event(ChangeKind::Create, &["root/a.jsonl"])];
    assert!(has_jsonl_changes(&batch));
    let (state, action) = WorkerState::Idle.on_input(&Input::Batch(batch.clone()));
    assert_eq!((state, action), (WorkerState::Processing, Action::Notify));
    assert_eq!(state.on_input(&Input::NotifyDone), (WorkerState::Idle, Action::Wait));
    assert_eq!(emissions(vec![batch]), 1);
}

#[test]
fn burst_of_appends_in_one_batch_gives_one_emission() {
    let mut batch = Vec::new();
    for _ in 0..50 {
        batch.push(event(ChangeKind::Modify, &["root/a.jsonl"]));
    }
    assert_eq!(emissions(vec![batch]), 1);
    let coalesced = vec![event(ChangeKind::Modify, &["root/a.jsonl"])];
    assert_eq!(emissions(vec![coalesced]), 1);
}

#[test]
fn temporary_file_gives_no_emission() {
    let mut batch = vec![event(ChangeKind::Create, &["root/b.tmp"])];
    for _ in 0..10 {
        batch.push(event(ChangeKind::Modify, &["root/b.tmp"]));
    }
    batch.push(event(ChangeKind::Remove, &["root/b.tmp"]));
    assert!(!has_jsonl_changes(&batch));
    assert_eq!(emissions(vec![batch.clone()]), 0);
    let one_by_one: Vec<Vec<ChangeEvent>> = batch.into_iter().map(|e| vec![e]).collect();
    assert_eq!(one_by_one.len(), 12);
    assert_eq!(emissions(one_by_one), 0);
}

#[test]
fn session_log_in_new_subdirectory_gives_one_emission() {
    let batch = vec![
        event(ChangeKind::Create, &["root/sub"]),
        event(ChangeKind::Create, &["root/sub/c.jsonl"]),
    ];
    assert_eq!(emissions(vec![batch]), 1);
}

#[test]
fn rename_there_and_back_gives_one_emission() {
    let batch = vec![
        event(ChangeKind::Rename, &["root/a.jsonl", "root/a.jsonl.bak"]),
        event(ChangeKind::Rename, &["root/a.jsonl.bak", "root/a.jsonl"]),
    ];
    assert_eq!(emissions(vec![batch]), 1);
    let merged = vec![event(ChangeKind::Rename, &["root/a.jsonl", "root/a.jsonl"])];
    assert_eq!(emissions(vec![merged]), 1);
}

#[test]
fn rename_away_from_session_log_is_relevant() {
    let batch = vec![event(ChangeKind::Rename, &["root/a.jsonl", "root/a.jsonl.bak"])];
    assert!(has_jsonl_changes(&batch));
    let batch = vec![event(ChangeKind::Rename, &["root/a.tmp", "root/a.jsonl"])];
    assert!(has_jsonl_changes(&batch));
    let batch = vec![event(ChangeKind::Rename, &["root/a.tmp", "root/a.bak"])];
    assert!(!has_jsonl_changes(&batch));
}

#[test]
fn many_session_logs_in_one_batch_give_one_emission() {
    let batch = vec![
        event(ChangeKind::Modify, &["root/a.jsonl"]),
        event(ChangeKind::Create, &["root/b.jsonl", "root/c.jsonl"]),
        event(ChangeKind::Remove, &["root/d.jsonl"]),
        event(ChangeKind::Modify, &["root/e.tmp"]),
    ];
    let (state, action) = WorkerState::Idle.on_input(&Input::Batch(batch.clone()));
    assert_eq!((state, action), (WorkerState::Processing, Action::Notify));
    assert_eq!(emissions(vec![batch]), 1);
}

#[test]
fn each_relevant_batch_gives_its_own_emission() {
    let relevant = vec![event(ChangeKind::Modify, &["root/a.jsonl"])];
    let irrelevant = vec![event(ChangeKind::Modify, &["root/a.tmp"])];
    let batches = vec![
        relevant.clone(),
        irrelevant.clone(),
        relevant.clone(),
        relevant.clone(),
        irrelevant,
        relevant,
    ];
    assert_eq!(emissions(batches), 4);
}

#[test]
fn frequent_irrelevant_changes_give_no_emission() {
    let mut batches = Vec::new();
    for n in 0..1000 {
        let name = format!("root/file{}", n);
        batches.push(vec![
            event(ChangeKind::Modify, &["root/b.tmp"]),
            event(ChangeKind::Modify, &[name.as_str()]),
            event(ChangeKind::Modify, &["root/notes.json", "root/a.jsonl.bak"]),
        ]);
    }
    assert_eq!(emissions(batches), 0);
}

#[test]
fn relevance_does_not_depend_on_the_kind() {
    for kind in [
        ChangeKind::Create,
        ChangeKind::Modify,
        ChangeKind::Remove,
        ChangeKind::Rename,
        ChangeKind::Other,
    ] {
        assert!(has_jsonl_changes(&[event(kind, &["root/a.jsonl"])]));
        assert!(!has_jsonl_changes(&[event(kind, &["root/a.txt"])]));
        assert!(event(kind, &["x", "y.jsonl"]).touches_session_log());
        assert!(!event(kind, &["x", "y"]).touches_session_log());
    }
}

#[test]
fn empty_batch_and_event_without_paths_are_irrelevant() {
    assert!(!has_jsonl_changes(&[]));
    assert!(!has_jsonl_changes(&[event(ChangeKind::Modify, &[])]));
    assert!(!event(ChangeKind::Modify, &[]).touches_session_log());
    assert_eq!(
        WorkerState::Idle.on_input(&Input::Batch(Vec::new())),
        (WorkerState::Idle, Action::Wait)
    );
}

#[test]
fn session_log_is_found_wherever_it_stands_in_the_batch() {
    let batch = vec![
        event(ChangeKind::Modify, &["root/a.tmp"]),
        event(ChangeKind::Modify, &["root/b.tmp", "root/c.tmp", "root/d.jsonl"]),
    ];
    assert!(has_jsonl_changes(&batch));
    let batch = vec![
        event(ChangeKind::Modify, &["root/d.jsonl", "root/b.tmp"]),
        event(ChangeKind::Modify, &["root/a.tmp"]),
    ];
    assert!(has_jsonl_changes(&batch));
}

#[test]
fn watch_errors_are_logged_and_the_worker_goes_on() {
    let (state, action) = WorkerState::Idle.on_input(&Input::WatchErrors);
    assert_eq!((state, action), (WorkerState::Idle, Action::LogWatchErrors));
    let batch = vec![event(ChangeKind::Modify, &["root/a.jsonl"])];
    assert_eq!(
        state.on_input(&Input::Batch(batch)),
        (WorkerState::Processing, Action::Notify)
    );
}

#[test]
fn failed_notification_is_logged_and_the_worker_goes_on() {
    let batch = vec![event(ChangeKind::Modify, &["root/a.jsonl"])];
    let (state, action) = WorkerState::Idle.on_input(&Input::Batch(batch.clone()));
    assert_eq!(action, Action::Notify);
    let (state, action) = state.on_input(&Input::NotifyFailed);
    assert_eq!((state, action), (WorkerState::Idle, Action::LogNotifyFailure));
    assert_eq!(
        state.on_input(&Input::Batch(batch)),
        (WorkerState::Processing, Action::Notify)
    );
}

#[test]
fn closed_channel_ends_the_worker() {
    let (state, action) = WorkerState::Idle.on_input(&Input::Closed);
    assert_eq!((state, action), (WorkerState::Terminal, Action::Exit));
}

#[test]
fn ended_worker_stays_ended() {
    let batch = vec![event(ChangeKind::Modify, &["root/a.jsonl"])];
    for input in [
        Input::Batch(batch),
        Input::WatchErrors,
        Input::Closed,
        Input::NotifyDone,
        Input::NotifyFailed,
    ] {
        assert_eq!(
            WorkerState::Terminal.on_input(&input),
            (WorkerState::Terminal, Action::Exit)
        );
    }
}

#[test]
fn deliveries_wait_while_a_notification_is_outstanding() {
    let batch = vec![event(ChangeKind::Modify, &["root/a.jsonl"])];
    for input in [Input::Batch(batch), Input::WatchErrors, Input::Closed] {
        assert_eq!(
            WorkerState::Processing.on_input(&input),
            (WorkerState::Processing, Action::Defer)
        );
    }
}

#[test]
fn outcome_without_outstanding_notification_changes_nothing() {
    assert_eq!(
        WorkerState::Idle.on_input(&Input::NotifyDone),
        (WorkerState::Idle, Action::Wait)
    );
    assert_eq!(
        WorkerState::Idle.on_input(&Input::NotifyFailed),
        (WorkerState::Idle, Action::Wait)
    );
}

#[test]
fn failed_notifications_do_not_change_the_count() {
    let relevant = vec![event(ChangeKind::Modify, &["root/a.jsonl"])];
    let irrelevant = vec![event(ChangeKind::Modify, &["root/a.tmp"])];
    let mut state = WorkerState::new();
    let mut count = 0;
    for (n, batch) in [relevant.clone(), irrelevant, relevant.clone(), relevant]
        .into_iter()
        .enumerate()
    {
        let (next, action) = state.on_input(&Input::Batch(batch));
        state = next;
        if action == Action::Notify {
            count += 1;
            let outcome = if n % 2 == 0 { Input::NotifyFailed } else { Input::NotifyDone };
            let (next, _) = state.on_input(&outcome);
            state = next;
        }
        assert_eq!(state, WorkerState::Idle);
    }
    assert_eq!(count, 3);
}

#[test]
fn deferred_batch_is_handled_once_the_outcome_is_known() {
    let first = Input::Batch(vec![event(ChangeKind::Modify, &["root/a.jsonl"])]);
    let second = Input::Batch(vec![event(ChangeKind::Create, &["root/b.jsonl"])]);
    let (state, action) = WorkerState::Idle.on_input(&first);
    assert_eq!(action, Action::Notify);
    let (state, action) = state.on_input(&second);
    assert_eq!((state, action), (WorkerState::Processing, Action::Defer));
    let (state, action) = state.on_input(&Input::NotifyDone);
    assert_eq!((state, action), (WorkerState::Idle, Action::Wait));
    let (state, action) = state.on_input(&second);
    assert_eq!((state, action), (WorkerState::Processing, Action::Notify));
}
