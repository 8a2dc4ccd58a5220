//! The tracer's state machine. Each step takes what the tracing facility
//! reported and says what the tracer does next; the caller carries out the
//! action and reports the outcome as the next event.

use vstd::prelude::*;
use crate::regs::{invalidated, RegisterSnapshot, INVALID_SYSCALL};
use crate::syscall::{classify, kind_of, SyscallKind};

verus! {

#[derive(Clone, Copy, Debug, PartialEq, Eq, Structural)]
pub enum TracerState {
    /// The tracee has not yet stopped after exec.
    AwaitingInitialStop,
    /// The tracee has been resumed up to its next syscall entry.
    AwaitingSyscallEntry,
    /// A handled syscall was neutralised; the tracee is being stepped past it.
    SuppressingSyscall { entry: RegisterSnapshot, kind: SyscallKind },
    /// An unhandled syscall is being stepped through to the kernel.
    PassingThrough,
    /// The suppressed syscall is being decoded, resolved and its result
    /// injected.
    AwaitingSyscallExit { entry: RegisterSnapshot, kind: SyscallKind },
    /// The tracee has exited, or the protocol broke down.
    Terminated,
}

#[derive(Clone, Copy, Debug, PartialEq, Eq, Structural)]
pub enum TracerEvent {
    /// A wait on the tracee returned.
    Stopped,
    /// Resuming the tracee to its next syscall failed: it has exited.
    ResumeFailed,
    /// The tracee stopped at a syscall entry with these registers.
    EntryStop { regs: RegisterSnapshot },
    /// The syscall's result was injected.
    Resolved,
}

#[derive(Clone, Copy, Debug, PartialEq, Eq, Structural)]
pub enum TracerAction {
    /// Resume the tracee to its next syscall stop, wait, and read registers.
    ResumeToSyscall,
    /// Write these registers, then single-step the tracee and wait.
    WriteRegistersAndStep { regs: RegisterSnapshot },
    /// Single-step the tracee and wait.
    Step,
    /// Decode the syscall of this entry snapshot, resolve it, inject the result.
    Resolve { entry: RegisterSnapshot, kind: SyscallKind },
    /// Tracing is over: the tracee exited.
    Finish,
    /// Tracing is over: an event came that the protocol does not allow.
    Abort,
}

/// The tracer's protocol: the state and action that follow `state` on `event`.
pub open spec fn transition(state: TracerState, event: TracerEvent) -> (TracerState, TracerAction) {
    match (state, event) {
        (TracerState::AwaitingInitialStop, TracerEvent::Stopped) => (
            TracerState::AwaitingSyscallEntry,
            TracerAction::ResumeToSyscall,
        ),
        (TracerState::AwaitingSyscallEntry, TracerEvent::ResumeFailed) => (
            TracerState::Terminated,
            TracerAction::Finish,
        ),
        (TracerState::AwaitingSyscallEntry, TracerEvent::EntryStop { regs }) => match kind_of(
            regs.orig_rax,
        ) {
            Some(kind) => (
                TracerState::SuppressingSyscall { entry: regs, kind },
                TracerAction::WriteRegistersAndStep { regs: invalidated(regs) },
            ),
            None => (TracerState::PassingThrough, TracerAction::Step),
        },
        (TracerState::SuppressingSyscall { entry, kind }, TracerEvent::Stopped) => (
            TracerState::AwaitingSyscallExit { entry, kind },
            TracerAction::Resolve { entry, kind },
        ),
        (TracerState::PassingThrough, TracerEvent::Stopped) => (
            TracerState::AwaitingSyscallEntry,
            TracerAction::ResumeToSyscall,
        ),
        (TracerState::AwaitingSyscallExit { .. }, TracerEvent::Resolved) => (
            TracerState::AwaitingSyscallEntry,
            TracerAction::ResumeToSyscall,
        ),
        _ => (TracerState::Terminated, TracerAction::Abort),
    }
}

/// One step of the tracer.
pub fn next(state: TracerState, event: TracerEvent) -> (r: (TracerState, TracerAction))
    ensures
        r == transition(state, event),
{
    match (state, event) {
        (TracerState::AwaitingInitialStop, TracerEvent::Stopped) => (
            TracerState::AwaitingSyscallEntry,
            TracerAction::ResumeToSyscall,
        ),
        (TracerState::AwaitingSyscallEntry, TracerEvent::ResumeFailed) => (
            TracerState::Terminated,
            TracerAction::Finish,
        ),
        (TracerState::AwaitingSyscallEntry, TracerEvent::EntryStop { regs }) => match classify(
            regs.orig_rax,
        ) {
            Some(kind) => (
                TracerState::SuppressingSyscall { entry: regs, kind },
                TracerAction::WriteRegistersAndStep { regs: regs.suppressed() },
            ),
            None => (TracerState::PassingThrough, TracerAction::Step),
        },
        (TracerState::SuppressingSyscall { entry, kind }, TracerEvent::Stopped) => (
            TracerState::AwaitingSyscallExit { entry, kind },
            TracerAction::Resolve { entry, kind },
        ),
        (TracerState::PassingThrough, TracerEvent::Stopped) => (
            TracerState::AwaitingSyscallEntry,
            TracerAction::ResumeToSyscall,
        ),
        (TracerState::AwaitingSyscallExit { .. }, TracerEvent::Resolved) => (
            TracerState::AwaitingSyscallEntry,
            TracerAction::ResumeToSyscall,
        ),
        _ => (TracerState::Terminated, TracerAction::Abort),
    }
}

/// A syscall outside the handled set is neither rewritten nor resolved: the
/// tracer only steps the tracee through it, so the kernel carries it out,
/// and then resumes the tracee to its next syscall.
pub proof fn lemma_unhandled_syscall_passes_through(regs: RegisterSnapshot)
    requires
        kind_of(regs.orig_rax) is None,
    ensures
        transition(TracerState::AwaitingSyscallEntry, TracerEvent::EntryStop { regs }) == (
        TracerState::PassingThrough, TracerAction::Step),
        transition(TracerState::PassingThrough, TracerEvent::Stopped) == (
        TracerState::AwaitingSyscallEntry, TracerAction::ResumeToSyscall),
{
}

/// A handled syscall is neutralised before the kernel dispatches it (its
/// syscall number is replaced by the invalid sentinel, the other registers
/// are kept), then resolved exactly once from the entry snapshot as it was,
/// after which the tracee is resumed to its next syscall.
pub proof fn lemma_handled_syscall_suppressed_then_resolved(regs: RegisterSnapshot)
    requires
        kind_of(regs.orig_rax) is Some,
    ensures
        ({
            let kind = kind_of(regs.orig_rax).unwrap();
            let (s1, a1) = transition(
                TracerState::AwaitingSyscallEntry,
                TracerEvent::EntryStop { regs },
            );
            let (s2, a2) = transition(s1, TracerEvent::Stopped);
            let (s3, a3) = transition(s2, TracerEvent::Resolved);
            &&& a1 == TracerAction::WriteRegistersAndStep { regs: invalidated(regs) }
            &&& invalidated(regs).orig_rax == INVALID_SYSCALL
            &&& kind_of(invalidated(regs).orig_rax) is None
            &&& a2 == TracerAction::Resolve { entry: regs, kind }
            &&& s3 == TracerState::AwaitingSyscallEntry
            &&& a3 == TracerAction::ResumeToSyscall
        }),
{
}

} // verus!
