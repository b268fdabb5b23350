//! Event-driven state updates.
//!
//! The caller's event loop reads frames off each process's events channel
//! and hands them here; the functions below resolve the reporting thread
//! and drive the process/thread state machine before the event is given
//! back to the caller.  End-of-file on the events channel is the canonical
//! sign that the debuggee has torn down; it is folded into the same model
//! as a synthetic cleanup event.

use vstd::prelude::*;

use crate::errors::msg_bytes;
use crate::errors::Error;
use crate::protocol::event::EventData;
use crate::protocol::event::EventMessage;
use crate::same_identity;
use crate::threads_append_only;
use crate::Process;
use crate::Thread;

verus! {

/// One delivered event: the owning process, the reporting thread's slot in
/// `process.threads`, and the payload.
#[derive(Debug)]
pub struct Event {
    pub pid: u32,
    pub thread_index: usize,
    pub data: EventData,
}

/// Applies one decoded event frame to the process, before the event is
/// returned to the caller.
///
/// The process stops running.  The reporting thread must already be known
/// by its identifier — on any event, including thread creation, the
/// reporter is an existing thread — and resolves to the first slot bearing
/// it; an unknown reporter is a library error.  A thread-death event drops
/// the dead thread's endpoints but keeps its slot; a process-exit event
/// marks the process terminating.  Thread slots never move: the thread
/// list is untouched but for the one updated record.
pub fn handle_event_message(process: &mut Process, message: EventMessage) -> (r: Result<
    Event,
    Error,
>)
    ensures
        same_identity(*old(process), *final(process)),
        old(process).wf() ==> final(process).wf(),
        final(process).has_file_context == old(process).has_file_context,
        final(process).running == false,
        final(process).threads@.len() == old(process).threads@.len(),
        threads_append_only(old(process).threads@, final(process).threads@),
        final(process).terminating == (old(process).terminating || (r is Ok
            && message.data matches EventData::ProcessExit { .. })),
        r matches Ok(ev) ==> ev.pid == old(process).pid && ev.thread_index
            < old(process).threads@.len() && old(process).threads@[ev.thread_index as int].tid
            == message.tid && (forall|j: int|
            0 <= j < ev.thread_index ==> (#[trigger] old(process).threads@[j]).tid != message.tid)
            && ev.data == message.data,
        r matches Ok(ev) ==> (message.data matches EventData::ThreadDeath ==> final(process).threads@ == old(process).threads@.update(
            ev.thread_index as int,
            (Thread {
                has_file_context: false,
                ..old(process).threads@[ev.thread_index as int]
            }),
        )),
        r matches Ok(ev) ==> (!(message.data matches EventData::ThreadDeath) ==> final(process).threads@ == old(process).threads@),
        r matches Err(e) ==> final(process).threads@ == old(process).threads@ && (e matches
            Error::Library(_)),
        (exists|i: int|
            0 <= i < old(process).threads@.len() && (#[trigger] old(process).threads@[i]).tid
                == message.tid) <==> r is Ok,
{
    process.running = false;
    let mut i: usize = 0;
    let mut idx_opt: Option<usize> = None;
    while i < process.threads.len() && idx_opt.is_none()
        invariant
            i <= process.threads@.len(),
            idx_opt matches Some(k) ==> k < process.threads@.len()
                && process.threads@[k as int].tid == message.tid && (forall|j: int|
                0 <= j < k ==> (#[trigger] process.threads@[j]).tid != message.tid),
            idx_opt is None ==> forall|j: int|
                0 <= j < i ==> (#[trigger] process.threads@[j]).tid != message.tid,
        decreases process.threads@.len() - i,
    {
        if process.threads[i].tid == message.tid {
            idx_opt = Some(i);
        }
        i = i + 1;
    }
    let idx = match idx_opt {
        Some(k) => k,
        None => {
            return Err(Error::Library(msg_bytes("no thread bears the event's thread identifier")));
        },
    };
    match &message.data {
        EventData::ThreadDeath => {
            process.threads[idx].has_file_context = false;
        },
        EventData::ProcessExit { .. } => {
            process.terminating = true;
        },
        _ => {},
    }
    Ok(Event { pid: process.pid, thread_index: idx, data: message.data })
}

/// Folds end-of-file on the events channel into the model: the debuggee
/// has torn down, so the process's endpoints are dropped, and the caller
/// receives a synthetic cleanup event attributed to the initial thread.
pub fn handle_event_eof(process: &mut Process) -> (r: Event)
    requires
        old(process).initialized(),
    ensures
        *final(process) == (Process { has_file_context: false, ..*old(process) }),
        r.pid == old(process).pid && r.thread_index == 0 && r.data
            == EventData::ProcessCleanup,
{
    process.has_file_context = false;
    Event { pid: process.pid, thread_index: 0, data: EventData::ProcessCleanup }
}

} // verus!
