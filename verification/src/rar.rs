//! Decision logic of the header-by-header RAR walk.
//!
//! The RAR reader exposes no aggregate byte count or progress callback, and
//! it extracts into the process's current working directory. The host
//! therefore records the working directory, changes into the output
//! directory, and then walks the archive header by header; this module
//! decides, for each header event, what the host must do next, and
//! guarantees that every finished walk — clean or failed — ends with the
//! transition that restores the original working directory.

use vstd::prelude::*;

verus! {

/// What the host observed when it asked the reader for the next header.
#[derive(Clone, Copy, PartialEq, Eq, Structural, Debug)]
pub enum RarEvent {
    /// The next header describes a file entry.
    FileHeader,
    /// The next header describes a directory entry.
    DirectoryHeader,
    /// No header remains: the archive is exhausted.
    EndOfArchive,
    /// Reading the header or extracting the previous entry failed.
    Failure,
}

/// What the host must do in response to an event.
#[derive(Clone, Copy, PartialEq, Eq, Structural, Debug)]
pub enum RarAction {
    /// Extract the current file entry into the working directory.
    ExtractEntry,
    /// A directory entry has no content to write: advance past it.
    SkipEntry,
    /// The walk is over: change back to the original working directory.
    RestoreDir,
}

/// Whether the walk is still advancing or has finished, and how.
#[derive(Clone, Copy, PartialEq, Eq, Structural, Debug)]
pub enum RarPhase {
    Walking,
    Done { ok: bool },
}

/// The walk's state: its phase, and whether the process is still inside the
/// output directory. `start` models the host having just changed into the
/// output directory; the `RestoreDir` action models it changing back.
#[derive(Clone, Copy, PartialEq, Eq, Structural, Debug)]
pub struct RarWalk {
    pub phase: RarPhase,
    pub in_output_dir: bool,
}

/// The state of a walk that has just begun: advancing, inside the output
/// directory.
pub open spec fn rar_start() -> RarWalk {
    RarWalk { phase: RarPhase::Walking, in_output_dir: true }
}

/// The transition function: next state and required host action for one
/// event. A walk that is already done never re-enters the output
/// directory.
pub open spec fn rar_step(s: RarWalk, e: RarEvent) -> (RarWalk, RarAction) {
    match s.phase {
        RarPhase::Walking => match e {
            RarEvent::FileHeader => (s, RarAction::ExtractEntry),
            RarEvent::DirectoryHeader => (s, RarAction::SkipEntry),
            RarEvent::EndOfArchive => (
                RarWalk { phase: RarPhase::Done { ok: true }, in_output_dir: false },
                RarAction::RestoreDir,
            ),
            RarEvent::Failure => (
                RarWalk { phase: RarPhase::Done { ok: false }, in_output_dir: false },
                RarAction::RestoreDir,
            ),
        },
        RarPhase::Done { .. } => (s, RarAction::RestoreDir),
    }
}

/// The state after feeding a whole sequence of events, first to last.
pub open spec fn rar_run(s: RarWalk, events: Seq<RarEvent>) -> RarWalk
    decreases events.len(),
{
    if events.len() == 0 {
        s
    } else {
        rar_run(rar_step(s, events[0]).0, events.drop_first())
    }
}

impl RarWalk {
    /// Begins a walk: the host has recorded its working directory and
    /// changed into the output directory.
    pub fn start() -> (w: RarWalk)
        ensures
            w == rar_start(),
    {
        RarWalk { phase: RarPhase::Walking, in_output_dir: true }
    }

    /// Advances the walk by one event and tells the host what to do.
    pub fn step(&mut self, e: RarEvent) -> (a: RarAction)
        requires
            old(self).phase matches RarPhase::Walking,
        ensures
            (*final(self), a) == rar_step(*old(self), e),
    {
        match e {
            RarEvent::FileHeader => RarAction::ExtractEntry,
            RarEvent::DirectoryHeader => RarAction::SkipEntry,
            RarEvent::EndOfArchive => {
                self.phase = RarPhase::Done { ok: true };
                self.in_output_dir = false;
                RarAction::RestoreDir
            },
            RarEvent::Failure => {
                self.phase = RarPhase::Done { ok: false };
                self.in_output_dir = false;
                RarAction::RestoreDir
            },
        }
    }

    /// Whether the walk has finished, cleanly or not.
    pub fn is_done(&self) -> (r: bool)
        ensures
            r == (self.phase matches RarPhase::Done { .. }),
    {
        match self.phase {
            RarPhase::Walking => false,
            RarPhase::Done { .. } => true,
        }
    }

    /// Whether the walk finished cleanly: every header was consumed and the
    /// archive ended without a failure.
    pub fn succeeded(&self) -> (r: bool)
        ensures
            r == (self.phase matches RarPhase::Done { ok: true }),
    {
        match self.phase {
            RarPhase::Walking => false,
            RarPhase::Done { ok } => ok,
        }
    }
}

/// The only transition that finishes a walk is the one whose action
/// restores the original working directory: the host is never told the walk
/// is over without also being told to change back.
pub proof fn lemma_finish_emits_restore(s: RarWalk, e: RarEvent)
    requires
        s.phase matches RarPhase::Walking,
        rar_step(s, e).0.phase matches RarPhase::Done { .. },
    ensures
        rar_step(s, e).1 == RarAction::RestoreDir,
{
}

/// Once a walk is finished and out of the output directory, no further
/// events put it back: being done and restored is stable.
pub proof fn lemma_run_preserves_restored(s: RarWalk, events: Seq<RarEvent>)
    requires
        (s.phase matches RarPhase::Done { .. }) ==> !s.in_output_dir,
    ensures
        (rar_run(s, events).phase matches RarPhase::Done { .. }) ==> !rar_run(
            s,
            events,
        ).in_output_dir,
    decreases events.len(),
{
    if events.len() > 0 {
        lemma_run_preserves_restored(rar_step(s, events[0]).0, events.drop_first());
    }
}

/// A walk driven from its start by any sequence of events — ending in a
/// clean end-of-archive or in a mid-walk failure alike — is outside the
/// output directory whenever it has finished: the working directory is
/// restored on every exit path.
pub proof fn lemma_walk_restores_working_directory(events: Seq<RarEvent>)
    ensures
        (rar_run(rar_start(), events).phase matches RarPhase::Done { .. }) ==> !rar_run(
            rar_start(),
            events,
        ).in_output_dir,
{
    lemma_run_preserves_restored(rar_start(), events);
}

} // verus!
