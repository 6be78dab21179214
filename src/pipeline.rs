//! The decisions of an archiving run, as a state machine.
//!
//! The driver performs each action that `step` returns and reports its outcome
//! back as the next event. Hashing the source tree runs beside the chain pack,
//! unpack, re-hash; comparison waits for whichever of the two ends last. The
//! artifact is renamed at most once, and only after the manifests matched.

use vstd::prelude::*;

use crate::error::ArchiveError;

verus! {

/// A stage that can fail.
#[derive(Debug, Clone, Copy, PartialEq, Eq, Structural)]
pub enum Stage {
    SourceHashing,
    Packing,
    Unpacking,
    Rehashing,
    Comparing,
    Renaming,
    Copying,
}

/// Where a run stands.
#[derive(Debug, Clone, Copy, PartialEq, Eq, Structural)]
pub enum Phase {
    Idle,
    Packing,
    Unpacking,
    Rehashing,
    /// The unpacked copy is hashed; the source manifest is not ready yet.
    AwaitingSource,
    Comparing,
    Renaming,
    Copying,
    Done,
    Failed(Stage),
}

/// The outcome of an action, reported by the driver.
#[derive(Debug, Clone, Copy, PartialEq, Eq, Structural)]
pub enum Event {
    Start,
    SourceHashed(bool),
    Packed(bool),
    Unpacked(bool),
    Rehashed(bool),
    /// Whether the two manifests matched.
    Compared(bool),
    Renamed(bool),
    /// Whether the copy was made and has the artifact's legacy digest.
    CopyChecked(bool),
}

/// What the driver is to do next.
#[derive(Debug, Clone, Copy, PartialEq, Eq, Structural)]
pub enum Action {
    /// Start hashing the source tree and, beside it, packing the artifact.
    HashSourceAndPack,
    Unpack,
    Rehash,
    /// Compare the manifests, then remove the unpacked copy whatever the result.
    Compare,
    Rename,
    CopyAndVerify,
    /// Nothing to do until the next event.
    Wait,
    Succeed,
    Fail(Stage),
}

/// The state of one archiving run.
#[derive(Debug, Clone, Copy, PartialEq, Eq, Structural)]
pub struct Pipeline {
    pub phase: Phase,
    /// Whether the source manifest has been written.
    pub source_ready: bool,
    /// Whether the finalized artifact is to be copied to a destination.
    pub copy_requested: bool,
}

/// What a run does on each event: the next state and the action to take.
/// Terminal phases stay as they are; an event that does not belong to the
/// current phase changes nothing.
pub open spec fn transition(p: Pipeline, e: Event) -> (Pipeline, Action) {
    let to = |ph: Phase| Pipeline { phase: ph, ..p };
    match (p.phase, e) {
        (Phase::Idle, Event::Start) => (to(Phase::Packing), Action::HashSourceAndPack),
        (Phase::Done, _) => (p, Action::Wait),
        (Phase::Failed(_), _) => (p, Action::Wait),
        (_, Event::SourceHashed(false)) => (
            to(Phase::Failed(Stage::SourceHashing)),
            Action::Fail(Stage::SourceHashing),
        ),
        (Phase::AwaitingSource, Event::SourceHashed(true)) => (
            Pipeline { phase: Phase::Comparing, source_ready: true, ..p },
            Action::Compare,
        ),
        (Phase::Idle, Event::SourceHashed(true)) => (p, Action::Wait),
        (_, Event::SourceHashed(true)) => (Pipeline { source_ready: true, ..p }, Action::Wait),
        (Phase::Packing, Event::Packed(ok)) => if ok {
            (to(Phase::Unpacking), Action::Unpack)
        } else {
            (to(Phase::Failed(Stage::Packing)), Action::Fail(Stage::Packing))
        },
        (Phase::Unpacking, Event::Unpacked(ok)) => if ok {
            (to(Phase::Rehashing), Action::Rehash)
        } else {
            (to(Phase::Failed(Stage::Unpacking)), Action::Fail(Stage::Unpacking))
        },
        (Phase::Rehashing, Event::Rehashed(ok)) => if !ok {
            (to(Phase::Failed(Stage::Rehashing)), Action::Fail(Stage::Rehashing))
        } else if p.source_ready {
            (to(Phase::Comparing), Action::Compare)
        } else {
            (to(Phase::AwaitingSource), Action::Wait)
        },
        (Phase::Comparing, Event::Compared(matched)) => if matched {
            (to(Phase::Renaming), Action::Rename)
        } else {
            (to(Phase::Failed(Stage::Comparing)), Action::Fail(Stage::Comparing))
        },
        (Phase::Renaming, Event::Renamed(ok)) => if !ok {
            (to(Phase::Failed(Stage::Renaming)), Action::Fail(Stage::Renaming))
        } else if p.copy_requested {
            (to(Phase::Copying), Action::CopyAndVerify)
        } else {
            (to(Phase::Done), Action::Succeed)
        },
        (Phase::Copying, Event::CopyChecked(ok)) => if ok {
            (to(Phase::Done), Action::Succeed)
        } else {
            (to(Phase::Failed(Stage::Copying)), Action::Fail(Stage::Copying))
        },
        _ => (p, Action::Wait),
    }
}

impl Pipeline {
    /// A run that has not started. Moving to the archive needs a destination:
    /// asking for it without one is a configuration failure, and no run exists
    /// that could copy anything.
    pub fn new(move_to_archive: bool, has_archive_dir: bool) -> (r: Result<Pipeline, ArchiveError>)
        ensures
            r is Err <==> move_to_archive && !has_archive_dir,
            r is Err ==> r == Err::<Pipeline, ArchiveError>(ArchiveError::MissingArchiveDir),
            r matches Ok(p) ==> p == (Pipeline {
                phase: Phase::Idle,
                source_ready: false,
                copy_requested: move_to_archive,
            }),
    {
        if move_to_archive && !has_archive_dir {
            Err(ArchiveError::MissingArchiveDir)
        } else {
            Ok(Pipeline { phase: Phase::Idle, source_ready: false, copy_requested: move_to_archive })
        }
    }

    /// Whether the run has ended, in success or failure.
    pub fn is_finished(&self) -> (r: bool)
        ensures
            r == (self.phase is Done || self.phase is Failed),
    {
        match self.phase {
            Phase::Done | Phase::Failed(_) => true,
            _ => false,
        }
    }

    /// Takes the outcome of the last action and returns the next action.
    pub fn step(&mut self, e: Event) -> (r: Action)
        ensures
            (*final(self), r) == transition(*old(self), e),
    {
        let p = *self;
        let (q, a) = match (p.phase, e) {
            (Phase::Idle, Event::Start) => (Pipeline { phase: Phase::Packing, ..p }, Action::HashSourceAndPack),
            (Phase::Done, _) => (p, Action::Wait),
            (Phase::Failed(_), _) => (p, Action::Wait),
            (_, Event::SourceHashed(false)) => (
                Pipeline { phase: Phase::Failed(Stage::SourceHashing), ..p },
                Action::Fail(Stage::SourceHashing),
            ),
            (Phase::AwaitingSource, Event::SourceHashed(true)) => (
                Pipeline { phase: Phase::Comparing, source_ready: true, ..p },
                Action::Compare,
            ),
            (Phase::Idle, Event::SourceHashed(true)) => (p, Action::Wait),
            (_, Event::SourceHashed(true)) => (Pipeline { source_ready: true, ..p }, Action::Wait),
            (Phase::Packing, Event::Packed(ok)) => if ok {
                (Pipeline { phase: Phase::Unpacking, ..p }, Action::Unpack)
            } else {
                (Pipeline { phase: Phase::Failed(Stage::Packing), ..p }, Action::Fail(Stage::Packing))
            },
            (Phase::Unpacking, Event::Unpacked(ok)) => if ok {
                (Pipeline { phase: Phase::Rehashing, ..p }, Action::Rehash)
            } else {
                (Pipeline { phase: Phase::Failed(Stage::Unpacking), ..p }, Action::Fail(Stage::Unpacking))
            },
            (Phase::Rehashing, Event::Rehashed(ok)) => if !ok {
                (Pipeline { phase: Phase::Failed(Stage::Rehashing), ..p }, Action::Fail(Stage::Rehashing))
            } else if p.source_ready {
                (Pipeline { phase: Phase::Comparing, ..p }, Action::Compare)
            } else {
                (Pipeline { phase: Phase::AwaitingSource, ..p }, Action::Wait)
            },
            (Phase::Comparing, Event::Compared(matched)) => if matched {
                (Pipeline { phase: Phase::Renaming, ..p }, Action::Rename)
            } else {
                (Pipeline { phase: Phase::Failed(Stage::Comparing), ..p }, Action::Fail(Stage::Comparing))
            },
            (Phase::Renaming, Event::Renamed(ok)) => if !ok {
                (Pipeline { phase: Phase::Failed(Stage::Renaming), ..p }, Action::Fail(Stage::Renaming))
            } else if p.copy_requested {
                (Pipeline { phase: Phase::Copying, ..p }, Action::CopyAndVerify)
            } else {
                (Pipeline { phase: Phase::Done, ..p }, Action::Succeed)
            },
            (Phase::Copying, Event::CopyChecked(ok)) => if ok {
                (Pipeline { phase: Phase::Done, ..p }, Action::Succeed)
            } else {
                (Pipeline { phase: Phase::Failed(Stage::Copying), ..p }, Action::Fail(Stage::Copying))
            },
            _ => (p, Action::Wait),
        };
        *self = q;
        a
    }
}

/// The state after a sequence of events, and the action taken on each.
pub open spec fn run(p: Pipeline, events: Seq<Event>) -> (Pipeline, Seq<Action>)
    decreases events.len(),
{
    if events.len() == 0 {
        (p, Seq::empty())
    } else {
        let (q, acts) = run(p, events.drop_last());
        let (r, a) = transition(q, events.last());
        (r, acts.push(a))
    }
}

/// How many of the actions are renames.
pub open spec fn rename_count(acts: Seq<Action>) -> nat
    decreases acts.len(),
{
    if acts.len() == 0 {
        0
    } else {
        rename_count(acts.drop_last()) + if acts.last() is Rename {
            1nat
        } else {
            0nat
        }
    }
}

/// How far a run has come; no event takes it back.
pub open spec fn progress(ph: Phase) -> int {
    match ph {
        Phase::Idle => 0,
        Phase::Packing => 1,
        Phase::Unpacking => 2,
        Phase::Rehashing => 3,
        Phase::AwaitingSource => 4,
        Phase::Comparing => 5,
        Phase::Renaming => 6,
        Phase::Copying => 7,
        Phase::Done => 8,
        Phase::Failed(_) => 9,
    }
}

proof fn lemma_run_facts(p: Pipeline, events: Seq<Event>)
    requires
        p.phase is Idle,
    ensures
        run(p, events).1.len() == events.len(),
        run(p, events).0.copy_requested == p.copy_requested,
        rename_count(run(p, events).1) <= 1,
        rename_count(run(p, events).1) == 1 ==> progress(run(p, events).0.phase) >= 6,
        forall|i: int|
            0 <= i < events.len() && #[trigger] run(p, events).1[i] is Rename ==> events[i]
                == Event::Compared(true),
        forall|i: int|
            0 <= i < events.len() && #[trigger] run(p, events).1[i] is CopyAndVerify
                ==> p.copy_requested,
    decreases events.len(),
{
    if events.len() > 0 {
        let prev = events.drop_last();
        lemma_run_facts(p, prev);
        let (q, acts) = run(p, prev);
        let (r, a) = transition(q, events.last());
        let all = acts.push(a);
        assert(all.drop_last() =~= acts);
        assert(progress(r.phase) >= progress(q.phase));
        assert forall|i: int|
            0 <= i < events.len() && #[trigger] all[i] is Rename implies events[i]
                == Event::Compared(true) by {
            if i < prev.len() {
                assert(acts[i] is Rename);
                assert(prev[i] == events[i]);
            }
        }
        assert forall|i: int|
            0 <= i < events.len() && #[trigger] all[i] is CopyAndVerify implies p.copy_requested by {
            if i < prev.len() {
                assert(acts[i] is CopyAndVerify);
            }
        }
    }
}

/// Finalization happens at most once: over any sequence of events from a
/// fresh run, at most one action is a rename, and each rename answers a
/// successful comparison of the manifests.
pub proof fn lemma_rename_at_most_once(p: Pipeline, events: Seq<Event>)
    requires
        p.phase is Idle,
    ensures
        rename_count(run(p, events).1) <= 1,
        forall|i: int|
            0 <= i < events.len() && #[trigger] run(p, events).1[i] is Rename ==> events[i]
                == Event::Compared(true),
{
    lemma_run_facts(p, events);
}

/// A run that was not asked to move the artifact to the archive never copies it.
pub proof fn lemma_no_copy_unless_requested(p: Pipeline, events: Seq<Event>)
    requires
        p.phase is Idle,
        !p.copy_requested,
    ensures
        forall|i: int| 0 <= i < events.len() ==> !(#[trigger] run(p, events).1[i] is CopyAndVerify),
{
    lemma_run_facts(p, events);
}

} // verus!
