//! Host-side debugger control library.
//!
//! The library drives a debuggee process that carries a cooperating runtime
//! agent.  Debugger and agent exchange a compact binary protocol (CBOR items
//! concatenated on a byte stream) over per-process and per-thread IPC
//! endpoints.  This crate holds the verified core: the wire codec, the
//! process/thread model and its event-driven state transitions, and the
//! request dispatch logic, all stated over byte sequences and plain values.
//!
//! The library performs no I/O of its own.  Commands are prepared as exact
//! byte frames, replies and events are decoded from byte buffers, and the
//! caller moves the bytes over the operating system's pipes: spawning the
//! debuggee, opening the endpoints and polling them for readiness live
//! outside the library and hand bytes in and out.
//!
//! The contracts state, among others:
//! - the frame codecs are exact inverses: decoding succeeds precisely on
//!   the byte images that encoding produces, and then returns the encoded
//!   message (the decoders' postconditions in [`protocol`]);
//! - a response is accepted only when its echoed request-type tag names
//!   the request that was sent;
//! - the thread list is append-only: slots never move, so indices held
//!   across transitions keep naming the same thread ([`threads_append_only`]);
//! - a process whose cleanup has been observed, and a thread whose death
//!   has been observed, refuse every command with a request-kind error
//!   while their cached fields stay readable.

use vstd::prelude::*;

pub mod cbor;
pub mod create;
pub mod errors;
pub mod events;
mod process;
pub mod protocol;
mod thread;

pub use errors::Error;
pub use events::Event;
pub use protocol::event::EventData;
pub use protocol::Architecture;
pub use protocol::Register;

verus! {

/// Whether a thread is executing or halted, as last reported or commanded.
#[derive(Debug, Clone, Copy, PartialEq, Eq, Structural)]
pub enum ThreadState {
    Running,
    Suspended,
}

/// One thread of a debuggee.
///
/// A thread keeps its slot in the owning process for the process's whole
/// life; death only clears `has_file_context`, which stands for the
/// per-thread request/response endpoints held at the unverified edge.
#[derive(Debug)]
pub struct Thread {
    /// True for the single thread present immediately after the handshake.
    pub initial: bool,
    /// The debuggee-assigned thread identifier, stable for the lifetime.
    pub tid: u64,
    /// Whether the per-thread request/response endpoints are open.  A
    /// thread without them refuses commands.
    pub has_file_context: bool,
    /// Whether single-step delivery is on.
    pub single_step: bool,
    /// The run state as last reported or commanded.
    pub state: ThreadState,
    /// Inherited from the owning process.
    pub architecture: Architecture,
}

/// One debuggee under this library's control.
#[derive(Debug)]
pub struct Process {
    /// The operating-system process identifier, stable for the lifetime.
    pub pid: u32,
    /// Whether the process-level request/response/events endpoints are
    /// open.  A process without them refuses commands; it is then
    /// terminated.
    pub has_file_context: bool,
    /// Fixed at handshake.
    pub architecture: Architecture,
    /// The negotiated protocol revision; always the supported one.
    pub protocol_version: u32,
    /// From the handshake: whether the debuggee may create threads.
    pub multithread_capable: bool,
    /// True between a successful continue and the next event delivery.
    pub running: bool,
    /// Set once a process-exit event is observed; never cleared.
    pub terminating: bool,
    /// All threads ever seen, in order of appearance; the list only grows,
    /// and the first entry is the initial thread.
    pub threads: Vec<Thread>,
    /// The spawned child's identity and endpoint layout.
    pub child: create::UdiChild,
}

/// The fields of a process that never change after the handshake.
pub open spec fn same_identity(a: Process, b: Process) -> bool {
    &&& a.pid == b.pid
    &&& a.architecture == b.architecture
    &&& a.protocol_version == b.protocol_version
    &&& a.multithread_capable == b.multithread_capable
    &&& a.child == b.child
}

/// Thread slots only grow, and existing slots keep their thread: the list
/// of threads is append-only, so indices held across a transition stay
/// valid and keep naming the same thread.
pub open spec fn threads_append_only(a: Seq<Thread>, b: Seq<Thread>) -> bool {
    &&& a.len() <= b.len()
    &&& forall|i: int| 0 <= i < a.len() ==> (#[trigger] b[i]).tid == a[i].tid
}

/// Thread identifiers name at most one slot each.
pub open spec fn tids_unique(threads: Seq<Thread>) -> bool {
    forall|i: int, j: int|
        0 <= i < j < threads.len() ==> (#[trigger] threads[i]).tid != (#[trigger] threads[j]).tid
}

impl Process {
    /// The structural soundness of a process: the negotiated version is the
    /// supported one, thread identifiers are unique, every thread carries
    /// the process's architecture, and exactly the first slot holds the
    /// initial thread.
    pub open spec fn wf(self) -> bool {
        &&& self.protocol_version == protocol::UDI_PROTOCOL_VERSION_1
        &&& tids_unique(self.threads@)
        &&& forall|i: int|
            0 <= i < self.threads@.len() ==> (#[trigger] self.threads@[i]).architecture
                == self.architecture
        &&& forall|i: int|
            0 <= i < self.threads@.len() ==> ((#[trigger] self.threads@[i]).initial <==> i == 0)
    }

    /// Whether the handshake has completed: the initial thread is present.
    pub open spec fn initialized(self) -> bool {
        self.threads@.len() >= 1
    }
}

} // verus!
