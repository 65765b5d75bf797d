//! The filter-and-emit worker as a state machine: from its state and what
//! reached it to its next state and what the caller is to do.

use crate::event::{
    batch_is_relevant, batch_view, has_jsonl_changes, touches_session_log, ChangeEvent,
    ChangeEventView,
};
use crate::path::{
    ends_with, file_name_of, is_session_log, lemma_session_log_ends_in_suffix, session_log_suffix,
};
use vstd::prelude::*;

verus! {

/// The name of the notification that the host receives. It carries no
/// payload.
pub const SESSIONS_CHANGED: &'static str = "sessions-changed";

/// The quiescent window of the debouncer, in seconds.
pub const DEBOUNCE_WINDOW_SECS: u64 = 1;

/// Where the worker stands.
#[derive(Clone, Copy, Debug, PartialEq, Eq, Structural)]
pub enum WorkerState {
    /// Awaiting the next delivery.
    Idle,
    /// A relevant batch is being handled: the notification for it has been
    /// asked for and its outcome is not yet known.
    Processing,
    /// Upstream has closed; the worker has ended.
    Terminal,
}

/// What reaches the worker.
#[derive(Clone, Debug)]
pub enum Input {
    /// The debouncer delivered a batch of events.
    Batch(Vec<ChangeEvent>),
    /// The debouncer delivered errors of the watch mechanism.
    WatchErrors,
    /// The channel from the debouncer has closed.
    Closed,
    /// The host took the notification.
    NotifyDone,
    /// The host failed to take the notification.
    NotifyFailed,
}

/// The mathematical reading of an [`Input`].
pub ghost enum InputView {
    Batch(Seq<ChangeEventView>),
    WatchErrors,
    Closed,
    NotifyDone,
    NotifyFailed,
}

impl View for Input {
    type V = InputView;

    open spec fn view(&self) -> InputView {
        match *self {
            Input::Batch(batch) => InputView::Batch(batch_view(batch@)),
            Input::WatchErrors => InputView::WatchErrors,
            Input::Closed => InputView::Closed,
            Input::NotifyDone => InputView::NotifyDone,
            Input::NotifyFailed => InputView::NotifyFailed,
        }
    }
}

/// What the caller is to do after a step.
#[derive(Clone, Copy, Debug, PartialEq, Eq, Structural)]
pub enum Action {
    /// Send [`SESSIONS_CHANGED`] to the host, once, and report the outcome as
    /// [`Input::NotifyDone`] or [`Input::NotifyFailed`].
    Notify,
    /// Log the delivered watch errors and go on.
    LogWatchErrors,
    /// Log that the host failed to take the notification and go on.
    LogNotifyFailure,
    /// Nothing to do: await the next delivery.
    Wait,
    /// The input came while a notification was outstanding and was not
    /// consumed: present it again once the outcome has been reported.
    Defer,
    /// Leave the loop.
    Exit,
}

/// The transition function of the worker.
///
/// An idle worker turns a relevant batch into one notification and passes
/// over an irrelevant one; it has watch errors logged and ends when upstream
/// closes. While a notification is outstanding it consumes nothing but the
/// outcome. Once ended it stays so.
pub open spec fn step(state: WorkerState, input: InputView) -> (WorkerState, Action) {
    match state {
        WorkerState::Idle => match input {
            InputView::Batch(batch) => if batch_is_relevant(batch) {
                (WorkerState::Processing, Action::Notify)
            } else {
                (WorkerState::Idle, Action::Wait)
            },
            InputView::WatchErrors => (WorkerState::Idle, Action::LogWatchErrors),
            InputView::Closed => (WorkerState::Terminal, Action::Exit),
            InputView::NotifyDone => (WorkerState::Idle, Action::Wait),
            InputView::NotifyFailed => (WorkerState::Idle, Action::Wait),
        },
        WorkerState::Processing => match input {
            InputView::NotifyDone => (WorkerState::Idle, Action::Wait),
            InputView::NotifyFailed => (WorkerState::Idle, Action::LogNotifyFailure),
            _ => (WorkerState::Processing, Action::Defer),
        },
        WorkerState::Terminal => (WorkerState::Terminal, Action::Exit),
    }
}

/// The state after a sequence of inputs.
pub open spec fn run(state: WorkerState, inputs: Seq<InputView>) -> WorkerState
    decreases inputs.len(),
{
    if inputs.len() == 0 {
        state
    } else {
        run(step(state, inputs[0]).0, inputs.drop_first())
    }
}

/// The number of notifications asked for over a sequence of inputs.
pub open spec fn notifications(state: WorkerState, inputs: Seq<InputView>) -> nat
    decreases inputs.len(),
{
    if inputs.len() == 0 {
        0
    } else {
        let (next, action) = step(state, inputs[0]);
        let here: nat = if action is Notify {
            1
        } else {
            0
        };
        here + notifications(next, inputs.drop_first())
    }
}

impl WorkerState {
    /// The state in which a worker starts.
    pub fn new() -> (state: WorkerState)
        ensures
            state == WorkerState::Idle,
    {
        WorkerState::Idle
    }

    /// One step of the worker: the next state and what the caller is to do.
    pub fn on_input(self, input: &Input) -> (next: (WorkerState, Action))
        ensures
            next == step(self, input@),
    {
        match self {
            WorkerState::Idle => match input {
                Input::Batch(batch) => {
                    if has_jsonl_changes(batch.as_slice()) {
                        (WorkerState::Processing, Action::Notify)
                    } else {
                        (WorkerState::Idle, Action::Wait)
                    }
                },
                Input::WatchErrors => (WorkerState::Idle, Action::LogWatchErrors),
                Input::Closed => (WorkerState::Terminal, Action::Exit),
                Input::NotifyDone => (WorkerState::Idle, Action::Wait),
                Input::NotifyFailed => (WorkerState::Idle, Action::Wait),
            },
            WorkerState::Processing => match input {
                Input::NotifyDone => (WorkerState::Idle, Action::Wait),
                Input::NotifyFailed => (WorkerState::Idle, Action::LogNotifyFailure),
                _ => (WorkerState::Processing, Action::Defer),
            },
            WorkerState::Terminal => (WorkerState::Terminal, Action::Exit),
        }
    }
}

/// Whether the file name of `path` ends in `.jsonl`.
pub open spec fn name_ends_in_jsonl(path: Seq<u8>) -> bool {
    file_name_of(path) matches Some(name) && ends_with(name, session_log_suffix())
}

/// Whether no path in `batch` has a file name that ends in `.jsonl`.
pub open spec fn names_no_jsonl(batch: Seq<ChangeEventView>) -> bool {
    forall|i: int, j: int|
        0 <= i < batch.len() && 0 <= j < batch[i].paths.len() ==> !name_ends_in_jsonl(
            #[trigger] batch[i].paths[j],
        )
}

/// Whether `input` is anything but a relevant batch.
pub open spec fn is_irrelevant(input: InputView) -> bool {
    match input {
        InputView::Batch(batch) => !batch_is_relevant(batch),
        _ => true,
    }
}

/// The number of relevant batches among `batches[from..]`.
pub open spec fn relevant_batches(batches: Seq<Seq<ChangeEventView>>, from: int) -> nat
    decreases batches.len() - from,
{
    if from < 0 || from >= batches.len() {
        0
    } else {
        let here: nat = if batch_is_relevant(batches[from]) {
            1
        } else {
            0
        };
        here + relevant_batches(batches, from + 1)
    }
}

/// What reaches a worker that is handed `batches[from..]` in turn and, after
/// each notification, its outcome before the next batch: `taken[k]` says
/// whether the host took the notification for `batches[k]`.
pub open spec fn served(batches: Seq<Seq<ChangeEventView>>, taken: Seq<bool>, from: int) -> Seq<
    InputView,
>
    decreases batches.len() - from,
{
    if from < 0 || from >= batches.len() {
        Seq::empty()
    } else {
        let outcome = if taken[from] {
            InputView::NotifyDone
        } else {
            InputView::NotifyFailed
        };
        let head = if batch_is_relevant(batches[from]) {
            seq![InputView::Batch(batches[from]), outcome]
        } else {
            seq![InputView::Batch(batches[from])]
        };
        head + served(batches, taken, from + 1)
    }
}

/// A batch with at least one path whose file name ends in `.jsonl` makes an
/// idle worker ask for exactly one notification.
pub proof fn lemma_session_log_batch_notifies_once(batch: Seq<ChangeEventView>, i: int, j: int)
    requires
        0 <= i < batch.len(),
        0 <= j < batch[i].paths.len(),
        name_ends_in_jsonl(batch[i].paths[j]),
    ensures
        batch_is_relevant(batch),
        step(WorkerState::Idle, InputView::Batch(batch)) == (
            WorkerState::Processing,
            Action::Notify,
        ),
        notifications(WorkerState::Idle, seq![InputView::Batch(batch)]) == 1,
{
    lemma_session_log_ends_in_suffix(batch[i].paths[j]);
    assert(touches_session_log(batch[i].paths));
    lemma_single_input(WorkerState::Idle, InputView::Batch(batch));
}

/// A batch without any path whose file name ends in `.jsonl` leaves an idle
/// worker idle and asks for no notification.
pub proof fn lemma_batch_without_session_log_is_silent(batch: Seq<ChangeEventView>)
    requires
        names_no_jsonl(batch),
    ensures
        !batch_is_relevant(batch),
        step(WorkerState::Idle, InputView::Batch(batch)) == (WorkerState::Idle, Action::Wait),
        notifications(WorkerState::Idle, seq![InputView::Batch(batch)]) == 0,
{
    assert forall|i: int| 0 <= i < batch.len() implies !touches_session_log(
        (#[trigger] batch[i]).paths,
    ) by {
        assert forall|j: int| 0 <= j < batch[i].paths.len() implies !is_session_log(
            #[trigger] batch[i].paths[j],
        ) by {
            lemma_session_log_ends_in_suffix(batch[i].paths[j]);
        }
    }
    lemma_single_input(WorkerState::Idle, InputView::Batch(batch));
}

/// One input asks for one notification at most, however many session logs a
/// batch names and whatever the state.
pub proof fn lemma_at_most_one_notification(state: WorkerState, input: InputView)
    ensures
        notifications(state, seq![input]) <= 1,
{
    lemma_single_input(state, input);
}

/// Inputs without a relevant batch never bring a notification, however many
/// there are and whatever the state.
pub proof fn lemma_irrelevant_inputs_never_notify(state: WorkerState, inputs: Seq<InputView>)
    requires
        forall|k: int| 0 <= k < inputs.len() ==> is_irrelevant(#[trigger] inputs[k]),
    ensures
        notifications(state, inputs) == 0,
    decreases inputs.len(),
{
    if inputs.len() > 0 {
        let rest = inputs.drop_first();
        assert forall|k: int| 0 <= k < rest.len() implies is_irrelevant(#[trigger] rest[k]) by {
            assert(rest[k] == inputs[k + 1]);
        }
        assert(is_irrelevant(inputs[0]));
        lemma_irrelevant_inputs_never_notify(step(state, inputs[0]).0, rest);
    }
}

/// Changes to files whose names do not end in `.jsonl` never bring a
/// notification, however frequent they are and whatever else reaches the
/// worker between them.
pub proof fn lemma_changes_elsewhere_never_notify(state: WorkerState, inputs: Seq<InputView>)
    requires
        forall|k: int|
            0 <= k < inputs.len() ==> (#[trigger] inputs[k] matches InputView::Batch(batch)
                ==> names_no_jsonl(batch)),
    ensures
        notifications(state, inputs) == 0,
{
    assert forall|k: int| 0 <= k < inputs.len() implies is_irrelevant(#[trigger] inputs[k]) by {
        if let InputView::Batch(batch) = inputs[k] {
            lemma_batch_without_session_log_is_silent(batch);
        }
    }
    lemma_irrelevant_inputs_never_notify(state, inputs);
}

/// While a notification is outstanding no other is asked for: the worker
/// leaves that state only on the outcome.
pub proof fn lemma_notifications_are_serialized(input: InputView)
    ensures
        !(step(WorkerState::Processing, input).1 is Notify),
        step(WorkerState::Processing, input).0 == WorkerState::Idle <==> (input is NotifyDone
            || input is NotifyFailed),
        step(WorkerState::Processing, input).0 != WorkerState::Idle ==> step(
            WorkerState::Processing,
            input,
        ) == (WorkerState::Processing, Action::Defer),
{
}

/// The worker ends only when upstream closes: a step leads to the final
/// state from an idle worker on the closing of the channel, and from nowhere
/// else but the final state itself.
pub proof fn lemma_ends_only_on_close(state: WorkerState, input: InputView)
    ensures
        step(state, input).0 == WorkerState::Terminal <==> (state == WorkerState::Terminal || (
        state == WorkerState::Idle && input is Closed)),
        step(state, input).1 is Exit <==> step(state, input).0 == WorkerState::Terminal,
{
}

/// A worker that has ended stays so and asks for nothing more.
pub proof fn lemma_terminal_is_final(inputs: Seq<InputView>)
    ensures
        run(WorkerState::Terminal, inputs) == WorkerState::Terminal,
        notifications(WorkerState::Terminal, inputs) == 0,
    decreases inputs.len(),
{
    if inputs.len() > 0 {
        lemma_terminal_is_final(inputs.drop_first());
    }
}

/// A worker that is handed batches in turn, each outcome reported before the
/// next batch, asks for exactly one notification for each relevant batch, and
/// is idle at the end, whether or not the host took the notifications.
pub proof fn lemma_one_notification_per_relevant_batch(
    batches: Seq<Seq<ChangeEventView>>,
    taken: Seq<bool>,
    from: int,
)
    requires
        taken.len() == batches.len(),
        0 <= from <= batches.len(),
    ensures
        notifications(WorkerState::Idle, served(batches, taken, from)) == relevant_batches(
            batches,
            from,
        ),
        run(WorkerState::Idle, served(batches, taken, from)) == WorkerState::Idle,
    decreases batches.len() - from,
{
    if from < batches.len() {
        let outcome = if taken[from] {
            InputView::NotifyDone
        } else {
            InputView::NotifyFailed
        };
        let first = InputView::Batch(batches[from]);
        let rest = served(batches, taken, from + 1);
        lemma_one_notification_per_relevant_batch(batches, taken, from + 1);
        if batch_is_relevant(batches[from]) {
            let all = seq![first, outcome] + rest;
            let mid = seq![outcome] + rest;
            assert(all.drop_first() =~= mid);
            assert(mid.drop_first() =~= rest);
            assert(notifications(WorkerState::Idle, all) == 1 + notifications(
                WorkerState::Processing,
                mid,
            ));
            assert(run(WorkerState::Idle, all) == run(WorkerState::Processing, mid));
        } else {
            let all = seq![first] + rest;
            assert(all.drop_first() =~= rest);
        }
    }
}

proof fn lemma_single_input(state: WorkerState, input: InputView)
    ensures
        notifications(state, seq![input]) == if step(state, input).1 is Notify {
            1nat
        } else {
            0nat
        },
        run(state, seq![input]) == step(state, input).0,
{
    let inputs = seq![input];
    assert(notifications(step(state, input).0, inputs.drop_first()) == 0);
    assert(run(step(state, input).0, inputs.drop_first()) == step(state, input).0);
}

} // verus!
