//! Change events as the debouncer delivers them, and the relevance test on a
//! batch of them.

use crate::path::{has_jsonl_extension, is_session_log};
use vstd::prelude::*;

verus! {

/// What happened to the paths of an event.
#[derive(Clone, Copy, Debug, PartialEq, Eq, Structural)]
pub enum ChangeKind {
    Create,
    Modify,
    Remove,
    Rename,
    Other,
}

/// One coalesced change: its kind and the paths it concerns.
#[derive(Clone, Debug)]
pub struct ChangeEvent {
    pub kind: ChangeKind,
    pub paths: Vec<Vec<u8>>,
}

/// The mathematical reading of a [`ChangeEvent`].
pub ghost struct ChangeEventView {
    pub kind: ChangeKind,
    pub paths: Seq<Seq<u8>>,
}

/// The paths of an event as byte sequences.
pub open spec fn paths_view(paths: Seq<Vec<u8>>) -> Seq<Seq<u8>> {
    paths.map_values(|p: Vec<u8>| p@)
}

/// The events of a batch as their mathematical readings.
pub open spec fn batch_view(batch: Seq<ChangeEvent>) -> Seq<ChangeEventView> {
    batch.map_values(|e: ChangeEvent| e@)
}

impl View for ChangeEvent {
    type V = ChangeEventView;

    open spec fn view(&self) -> ChangeEventView {
        ChangeEventView { kind: self.kind, paths: paths_view(self.paths@) }
    }
}

/// Whether one of `paths` names a session log.
pub open spec fn touches_session_log(paths: Seq<Seq<u8>>) -> bool {
    exists|j: int| 0 <= j < paths.len() && is_session_log(#[trigger] paths[j])
}

/// Whether a batch is relevant: one of its events has a path that names a
/// session log. The kinds of the events play no part.
pub open spec fn batch_is_relevant(batch: Seq<ChangeEventView>) -> bool {
    exists|i: int| 0 <= i < batch.len() && touches_session_log((#[trigger] batch[i]).paths)
}

impl ChangeEvent {
    /// An event of the given kind about the given paths.
    pub fn new(kind: ChangeKind, paths: Vec<Vec<u8>>) -> (event: ChangeEvent)
        ensures
            event.kind == kind,
            event.paths == paths,
    {
        ChangeEvent { kind, paths }
    }

    /// Whether one of the event's paths names a session log.
    pub fn touches_session_log(&self) -> (found: bool)
        ensures
            found == touches_session_log(self@.paths),
    {
        let mut j: usize = 0;
        while j < self.paths.len()
            invariant
                j <= self.paths.len(),
                forall|k: int| 0 <= k < j ==> !is_session_log(#[trigger] self@.paths[k]),
            decreases self.paths.len() - j,
        {
            if has_jsonl_extension(self.paths[j].as_slice()) {
                assert(is_session_log(self@.paths[j as int]));
                return true;
            }
            j = j + 1;
        }
        false
    }
}

/// Whether a batch of events has a change to a session log.
pub fn has_jsonl_changes(batch: &[ChangeEvent]) -> (found: bool)
    ensures
        found == batch_is_relevant(batch_view(batch@)),
{
    let mut i: usize = 0;
    while i < batch.len()
        invariant
            i <= batch.len(),
            forall|k: int|
                0 <= k < i ==> !touches_session_log((#[trigger] batch_view(batch@)[k]).paths),
        decreases batch.len() - i,
    {
        if batch[i].touches_session_log() {
            assert(touches_session_log(batch_view(batch@)[i as int].paths));
            return true;
        }
        i = i + 1;
    }
    false
}

/// The union of the paths of the events of a batch.
pub open spec fn batch_paths(batch: Seq<ChangeEventView>) -> Set<Seq<u8>> {
    Set::new(
        |path: Seq<u8>|
            exists|i: int, j: int|
                0 <= i < batch.len() && 0 <= j < batch[i].paths.len() && #[trigger] batch[i].paths[j]
                    == path,
    )
}

/// A batch is relevant exactly when the union of its paths holds a session
/// log.
pub proof fn lemma_relevance_is_over_the_union(batch: Seq<ChangeEventView>)
    ensures
        batch_is_relevant(batch) <==> exists|path: Seq<u8>| #[trigger]
            batch_paths(batch).contains(path) && is_session_log(path),
{
    if batch_is_relevant(batch) {
        let i = choose|i: int|
            0 <= i < batch.len() && touches_session_log((#[trigger] batch[i]).paths);
        let j = choose|j: int|
            0 <= j < batch[i].paths.len() && is_session_log(#[trigger] batch[i].paths[j]);
        assert(batch_paths(batch).contains(batch[i].paths[j]));
    }
    if exists|path: Seq<u8>| #[trigger] batch_paths(batch).contains(path) && is_session_log(path) {
        let path = choose|path: Seq<u8>| #[trigger]
            batch_paths(batch).contains(path) && is_session_log(path);
        let (i, j) = choose|i: int, j: int|
            0 <= i < batch.len() && 0 <= j < batch[i].paths.len() && #[trigger] batch[i].paths[j]
                == path;
        assert(touches_session_log(batch[i].paths));
    }
}

/// The relevance of a batch rests on the union of its paths alone: neither
/// the kinds of the events nor their order, nor how often a path occurs,
/// plays a part.
pub proof fn lemma_relevance_ignores_kind_and_order(
    first: Seq<ChangeEventView>,
    second: Seq<ChangeEventView>,
)
    requires
        batch_paths(first) == batch_paths(second),
    ensures
        batch_is_relevant(first) == batch_is_relevant(second),
{
    lemma_relevance_is_over_the_union(first);
    lemma_relevance_is_over_the_union(second);
}

} // verus!
