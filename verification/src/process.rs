//! Process-level commands.
//!
//! Each command is prepared as the exact byte frame to put on the
//! process-level request channel; a command that a terminated process
//! would refuse is refused here, before any bytes exist.  Replies are
//! decoded from byte buffers with the response codec; the commands that
//! change model state on success have a `finish` step that takes the reply
//! and applies the change.

use vstd::prelude::*;

use crate::errors::msg_bytes;
use crate::errors::Error;
use crate::protocol::request;
use crate::protocol::response;
use crate::same_identity;
use crate::threads_append_only;
use crate::Process;
use crate::Thread;
use crate::ThreadState;

verus! {

/// The last state word a report assigns to `tid`, if any: a later entry
/// for the same thread overrides an earlier one.
pub open spec fn state_for(ss: Seq<response::State>, tid: u64) -> Option<u32>
    decreases ss.len(),
{
    if ss.len() == 0 {
        None
    } else if ss.last().tid == tid {
        Some(ss.last().state)
    } else {
        state_for(ss.drop_last(), tid)
    }
}

/// A thread's run state after a state report: zero is running, anything
/// else suspended; a thread the report does not name keeps its state.
pub open spec fn refreshed_state(t: Thread, ss: Seq<response::State>) -> ThreadState {
    match state_for(ss, t.tid) {
        None => t.state,
        Some(w) => if w == 0 {
            ThreadState::Running
        } else {
            ThreadState::Suspended
        },
    }
}

impl Process {
    /// From the handshake: whether the debuggee may create threads.
    pub fn is_multithread_capable(&self) -> (r: bool)
        ensures
            r == self.multithread_capable,
    {
        self.multithread_capable
    }

    /// The thread present since the handshake, always in the first slot.
    pub fn get_initial_thread(&self) -> (r: &Thread)
        requires
            self.initialized(),
        ensures
            *r == self.threads@[0],
    {
        &self.threads[0]
    }

    /// Every thread ever seen, in order of appearance.
    pub fn threads(&self) -> (r: &Vec<Thread>)
        ensures
            r@ == self.threads@,
    {
        &self.threads
    }

    /// The operating-system process identifier.
    pub fn get_pid(&self) -> (r: u32)
        ensures
            r == self.pid,
    {
        self.pid
    }

    /// The architecture fixed at handshake.
    pub fn get_architecture(&self) -> (r: crate::Architecture)
        ensures
            r == self.architecture,
    {
        self.architecture
    }

    /// Whether the debuggee is running (between a continue and the next
    /// event delivery).
    pub fn is_running(&self) -> (r: bool)
        ensures
            r == self.running,
    {
        self.running
    }

    /// Whether a process-exit event has been observed.
    pub fn is_terminating(&self) -> (r: bool)
        ensures
            r == self.terminating,
    {
        self.terminating
    }

    /// Whether the debuggee has torn down: its endpoints are gone and no
    /// command will be accepted any more.
    pub fn is_terminated(&self) -> (r: bool)
        ensures
            r == !self.has_file_context,
    {
        !self.has_file_context
    }

    /// Prepares a continue command.  A terminated process refuses it.
    /// Otherwise the exact frame to transmit is returned together with
    /// whether a response will follow: a terminating debuggee may tear
    /// down before answering, so no response is to be read from it, and
    /// the process counts as running as soon as the frame is on the wire;
    /// in the ordinary case the process counts as running only once
    /// `finish_continue` has accepted the acknowledgement.
    pub fn continue_process(&mut self) -> (r: Result<(Vec<u8>, bool), Error>)
        ensures
            same_identity(*old(self), *final(self)),
            final(self).threads@ == old(self).threads@,
            threads_append_only(old(self).threads@, final(self).threads@),
            final(self).has_file_context == old(self).has_file_context,
            final(self).terminating == old(self).terminating,
            !old(self).has_file_context ==> (r matches Err(e) && e matches Error::Request(_))
                && final(self).running == old(self).running,
            old(self).has_file_context ==> (r matches Ok(t) && t.0@ == request::frame_wire(
                (request::Continue { sig: 0u32 }),
            ) && t.1 == !old(self).terminating),
            old(self).has_file_context && old(self).terminating ==> final(self).running == true,
            old(self).has_file_context && !old(self).terminating ==> final(self).running == old(
                self,
            ).running,
    {
        if !self.has_file_context {
            return Err(
                Error::Request(msg_bytes("process terminated, cannot perform requested operation")),
            );
        }
        let frame = request::serialize(&request::Continue::new(0));
        if self.terminating {
            self.running = true;
            Ok((frame, false))
        } else {
            Ok((frame, true))
        }
    }

    /// Applies the reply to a continue command: on the agent's
    /// acknowledgement the process counts as running; on the agent's error
    /// response, carried through as a request-kind error, it does not.
    pub fn finish_continue(&mut self, buf: &[u8]) -> (r: Result<usize, Error>)
        ensures
            same_identity(*old(self), *final(self)),
            final(self).threads@ == old(self).threads@,
            threads_append_only(old(self).threads@, final(self).threads@),
            final(self).has_file_context == old(self).has_file_context,
            final(self).terminating == old(self).terminating,
            r matches Ok(n) ==> n <= buf@.len() && buf@.subrange(0, n as int) == response::ack_enc(
                request::Type::Continue,
            ) && final(self).running == true,
            response::ack_enc(request::Type::Continue).len() <= buf@.len() && buf@.subrange(
                0,
                response::ack_enc(request::Type::Continue).len() as int,
            ) == response::ack_enc(request::Type::Continue) ==> r is Ok,
            r matches Err(_) ==> final(self).running == old(self).running,
            forall|msg: Seq<u8>| #![trigger response::err_enc(request::Type::Continue, msg)]
                response::err_enc(request::Type::Continue, msg).len() <= buf@.len()
                    && buf@.subrange(
                    0,
                    response::err_enc(request::Type::Continue, msg).len() as int,
                ) == response::err_enc(request::Type::Continue, msg) ==> (r matches Err(e) && e
                    matches Error::Request(m) && m@ == msg),
    {
        match response::read_no_data(buf, request::Type::Continue) {
            Ok(n) => {
                self.running = true;
                Ok(n)
            },
            Err(e) => Err(e),
        }
    }

    /// Prepares a breakpoint-creation command for `addr`.  A terminated
    /// process refuses it; otherwise the exact frame to transmit is
    /// returned, and the acknowledgement is checked with
    /// `response::read_no_data`.
    pub fn create_breakpoint(&self, addr: u64) -> (r: Result<Vec<u8>, Error>)
        ensures
            !self.has_file_context ==> (r matches Err(e) && e matches Error::Request(_)),
            self.has_file_context ==> (r matches Ok(f) && f@ == request::frame_wire(
                (request::CreateBreakpoint { addr }),
            )),
    {
        if !self.has_file_context {
            return Err(
                Error::Request(msg_bytes("process terminated, cannot perform requested operation")),
            );
        }
        Ok(request::serialize(&request::CreateBreakpoint::new(addr)))
    }

    /// Prepares a breakpoint-arming command for `addr`; refused when
    /// terminated.
    pub fn install_breakpoint(&self, addr: u64) -> (r: Result<Vec<u8>, Error>)
        ensures
            !self.has_file_context ==> (r matches Err(e) && e matches Error::Request(_)),
            self.has_file_context ==> (r matches Ok(f) && f@ == request::frame_wire(
                (request::InstallBreakpoint { addr }),
            )),
    {
        if !self.has_file_context {
            return Err(
                Error::Request(msg_bytes("process terminated, cannot perform requested operation")),
            );
        }
        Ok(request::serialize(&request::InstallBreakpoint::new(addr)))
    }

    /// Prepares a breakpoint-disarming command for `addr`; refused when
    /// terminated.
    pub fn remove_breakpoint(&self, addr: u64) -> (r: Result<Vec<u8>, Error>)
        ensures
            !self.has_file_context ==> (r matches Err(e) && e matches Error::Request(_)),
            self.has_file_context ==> (r matches Ok(f) && f@ == request::frame_wire(
                (request::RemoveBreakpoint { addr }),
            )),
    {
        if !self.has_file_context {
            return Err(
                Error::Request(msg_bytes("process terminated, cannot perform requested operation")),
            );
        }
        Ok(request::serialize(&request::RemoveBreakpoint::new(addr)))
    }

    /// Prepares a breakpoint-removal command for `addr`; refused when
    /// terminated.
    pub fn delete_breakpoint(&self, addr: u64) -> (r: Result<Vec<u8>, Error>)
        ensures
            !self.has_file_context ==> (r matches Err(e) && e matches Error::Request(_)),
            self.has_file_context ==> (r matches Ok(f) && f@ == request::frame_wire(
                (request::DeleteBreakpoint { addr }),
            )),
    {
        if !self.has_file_context {
            return Err(
                Error::Request(msg_bytes("process terminated, cannot perform requested operation")),
            );
        }
        Ok(request::serialize(&request::DeleteBreakpoint::new(addr)))
    }

    /// Prepares a state-report request; refused when terminated.  The
    /// reply is applied with `finish_refresh_state`.
    pub fn refresh_state(&self) -> (r: Result<Vec<u8>, Error>)
        ensures
            !self.has_file_context ==> (r matches Err(e) && e matches Error::Request(_)),
            self.has_file_context ==> (r matches Ok(f) && f@ == request::frame_wire(
                (request::State {  }),
            )),
    {
        if !self.has_file_context {
            return Err(
                Error::Request(msg_bytes("process terminated, cannot perform requested operation")),
            );
        }
        Ok(request::serialize(&request::State::default()))
    }

    /// Applies a state report: every thread the report names takes the
    /// report's last word on it — zero running, anything else suspended —
    /// and every other thread keeps its state.  Nothing else changes.
    pub fn finish_refresh_state(&mut self, buf: &[u8]) -> (r: Result<usize, Error>)
        ensures
            same_identity(*old(self), *final(self)),
            old(self).wf() ==> final(self).wf(),
            final(self).has_file_context == old(self).has_file_context,
            final(self).running == old(self).running,
            final(self).terminating == old(self).terminating,
            final(self).threads@.len() == old(self).threads@.len(),
            threads_append_only(old(self).threads@, final(self).threads@),
            r matches Err(_) ==> final(self).threads@ == old(self).threads@,
            r matches Ok(n) ==> exists|ss: Seq<response::State>|
                n <= buf@.len() && buf@.subrange(0, n as int) == #[trigger] response::states_enc(
                    ss,
                ) && (forall|i: int|
                    0 <= i < old(self).threads@.len() ==> final(self).threads@[i] == (Thread {
                        state: refreshed_state(old(self).threads@[i], ss),
                        ..old(self).threads@[i]
                    })),
            forall|ss: Seq<response::State>| #![trigger response::states_enc(ss)]
                response::states_enc(ss).len() <= buf@.len() && buf@.subrange(
                    0,
                    response::states_enc(ss).len() as int,
                ) == response::states_enc(ss) ==> (r is Ok && (forall|i: int|
                    0 <= i < old(self).threads@.len() ==> final(self).threads@[i] == (Thread {
                        state: refreshed_state(old(self).threads@[i], ss),
                        ..old(self).threads@[i]
                    }))),
            forall|msg: Seq<u8>| #![trigger response::err_enc(request::Type::State, msg)]
                response::err_enc(request::Type::State, msg).len() <= buf@.len() && buf@.subrange(
                    0,
                    response::err_enc(request::Type::State, msg).len() as int,
                ) == response::err_enc(request::Type::State, msg) ==> (r matches Err(e) && e
                    matches Error::Request(m) && m@ == msg),
    {
        let (resp, n) = match response::read_states(buf) {
            Ok(t) => t,
            Err(e) => {
                return Err(e);
            },
        };
        let ghost ss = resp.states@;
        let mut i: usize = 0;
        while i < self.threads.len()
            invariant
                i <= self.threads@.len(),
                resp.states@ == ss,
                self.threads@.len() == old(self).threads@.len(),
                same_identity(*old(self), *self),
                self.has_file_context == old(self).has_file_context,
                self.running == old(self).running,
                self.terminating == old(self).terminating,
                forall|k: int|
                    0 <= k < i ==> self.threads@[k] == (Thread {
                        state: refreshed_state(old(self).threads@[k], ss),
                        ..old(self).threads@[k]
                    }),
                forall|k: int| i <= k < self.threads@.len() ==> self.threads@[k] == old(
                    self,
                ).threads@[k],
            decreases self.threads@.len() - i,
        {
            let tid = self.threads[i].tid;
            let mut ns: ThreadState = self.threads[i].state;
            let mut j: usize = 0;
            while j < resp.states.len()
                invariant
                    j <= resp.states@.len(),
                    resp.states@ == ss,
                    i < self.threads@.len(),
                    tid == self.threads@[i as int].tid,
                    ns == (match state_for(ss.take(j as int), tid) {
                        None => self.threads@[i as int].state,
                        Some(w) => if w == 0 {
                            ThreadState::Running
                        } else {
                            ThreadState::Suspended
                        },
                    }),
                decreases resp.states@.len() - j,
            {
                let entry = resp.states[j];
                if entry.tid == tid {
                    if entry.state == 0 {
                        ns = ThreadState::Running;
                    } else {
                        ns = ThreadState::Suspended;
                    }
                }
                proof {
                    assert(ss.take(j + 1).drop_last() =~= ss.take(j as int));
                    assert(ss.take(j + 1).last() == ss[j as int]);
                }
                j = j + 1;
            }
            proof {
                assert(ss.take(ss.len() as int) =~= ss);
            }
            self.threads[i].state = ns;
            i = i + 1;
        }
        Ok(n)
    }

    /// Prepares a memory write of `data` at `addr`; refused when
    /// terminated.  The acknowledgement is checked with
    /// `response::read_no_data`.
    pub fn write_mem(&self, data: &[u8], addr: u64) -> (r: Result<Vec<u8>, Error>)
        ensures
            !self.has_file_context ==> (r matches Err(e) && e matches Error::Request(_)),
            self.has_file_context ==> (r matches Ok(f) && f@ == request::write_memory_wire(
                addr,
                data@,
            )),
    {
        if !self.has_file_context {
            return Err(
                Error::Request(msg_bytes("process terminated, cannot perform requested operation")),
            );
        }
        Ok(request::serialize(&request::WriteMemory::new(addr, data)))
    }

    /// Prepares a memory read of `size` bytes at `addr`; refused when
    /// terminated.  The reply's bytes are decoded with
    /// `response::read_read_memory`.
    pub fn read_mem(&self, size: u32, addr: u64) -> (r: Result<Vec<u8>, Error>)
        ensures
            !self.has_file_context ==> (r matches Err(e) && e matches Error::Request(_)),
            self.has_file_context ==> (r matches Ok(f) && f@ == request::frame_wire(
                (request::ReadMemory { addr, len: size }),
            )),
    {
        if !self.has_file_context {
            return Err(
                Error::Request(msg_bytes("process terminated, cannot perform requested operation")),
            );
        }
        Ok(request::serialize(&request::ReadMemory::new(addr, size)))
    }
}

impl PartialEq for Process {
    /// Two process records name the same debuggee exactly when their
    /// process identifiers agree.
    fn eq(&self, other: &Process) -> (r: bool) {
        self.pid == other.pid
    }
}

impl vstd::std_specs::cmp::PartialEqSpecImpl for Process {
    open spec fn obeys_eq_spec() -> bool {
        true
    }

    open spec fn eq_spec(&self, other: &Process) -> bool {
        self.pid == other.pid
    }
}

} // verus!
