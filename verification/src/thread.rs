//! Per-thread commands.
//!
//! As with the process-level commands, each command is prepared as the
//! exact byte frame for the thread's request channel, and a dead thread —
//! one whose endpoints were dropped on its death event — refuses every
//! command before any bytes exist.  The commands that change model state
//! have a `finish` step that takes the reply and applies the change.

use vstd::prelude::*;

use crate::errors::msg_bytes;
use crate::errors::Error;
use crate::protocol::register_tag;
use crate::protocol::request;
use crate::protocol::response;
use crate::Architecture;
use crate::Register;
use crate::Thread;
use crate::ThreadState;

verus! {

/// The architecture's program-counter register.
pub open spec fn pc_register(a: Architecture) -> Register {
    match a {
        Architecture::X86 => Register::X86_EIP,
        Architecture::X86_64 => Register::X86_64_RIP,
    }
}

impl Thread {
    /// The debuggee-assigned thread identifier.
    pub fn get_tid(&self) -> (r: u64)
        ensures
            r == self.tid,
    {
        self.tid
    }

    /// The run state as last reported or commanded.
    pub fn get_state(&self) -> (r: ThreadState)
        ensures
            r == self.state,
    {
        self.state
    }

    /// Whether single-step delivery is on.
    pub fn get_single_step(&self) -> (r: bool)
        ensures
            r == self.single_step,
    {
        self.single_step
    }

    /// Prepares a read of the program counter: the architecture-appropriate
    /// register.  A dead thread refuses it.  The value arrives through
    /// `response::read_read_register`.
    pub fn get_pc(&self) -> (r: Result<Vec<u8>, Error>)
        ensures
            !self.has_file_context ==> (r matches Err(e) && e matches Error::Request(_)),
            self.has_file_context ==> (r matches Ok(f) && f@ == request::frame_wire(
                (request::ReadRegister {
                    reg: register_tag(pc_register(self.architecture)) as u32,
                }),
            )),
    {
        let reg = match self.architecture {
            Architecture::X86 => Register::X86_EIP,
            Architecture::X86_64 => Register::X86_64_RIP,
        };
        self.read_register(reg)
    }

    /// Prepares a single-step toggle; refused for a dead thread.  The
    /// reply is applied with `finish_set_single_step`.
    pub fn set_single_step(&self, setting: bool) -> (r: Result<Vec<u8>, Error>)
        ensures
            !self.has_file_context ==> (r matches Err(e) && e matches Error::Request(_)),
            self.has_file_context ==> (r matches Ok(f) && f@ == request::frame_wire(
                (request::SingleStep { value: setting }),
            )),
    {
        if !self.has_file_context {
            return Err(
                Error::Request(msg_bytes("thread terminated, cannot perform requested operation")),
            );
        }
        Ok(request::serialize(&request::SingleStep::new(setting)))
    }

    /// Applies the reply to a single-step toggle: on the agent's answer
    /// the thread records the commanded setting; on the agent's error
    /// response, carried through as a request-kind error, nothing changes.
    pub fn finish_set_single_step(&mut self, setting: bool, buf: &[u8]) -> (r: Result<usize, Error>)
        ensures
            final(self).tid == old(self).tid,
            final(self).initial == old(self).initial,
            final(self).has_file_context == old(self).has_file_context,
            final(self).state == old(self).state,
            final(self).architecture == old(self).architecture,
            r matches Ok(n) ==> n <= buf@.len() && (exists|b: bool|
                buf@.subrange(0, n as int) == #[trigger] response::single_step_enc(b)),
            r is Ok ==> final(self).single_step == setting,
            r matches Err(_) ==> final(self).single_step == old(self).single_step,
            forall|b: bool| #![trigger response::single_step_enc(b)]
                response::single_step_enc(b).len() <= buf@.len() && buf@.subrange(
                    0,
                    response::single_step_enc(b).len() as int,
                ) == response::single_step_enc(b) ==> r is Ok,
            forall|msg: Seq<u8>| #![trigger response::err_enc(request::Type::SingleStep, msg)]
                response::err_enc(request::Type::SingleStep, msg).len() <= buf@.len()
                    && buf@.subrange(
                    0,
                    response::err_enc(request::Type::SingleStep, msg).len() as int,
                ) == response::err_enc(request::Type::SingleStep, msg) ==> (r matches Err(e) && e
                    matches Error::Request(m) && m@ == msg),
    {
        match response::read_single_step(buf) {
            Ok((_, n)) => {
                self.single_step = setting;
                Ok(n)
            },
            Err(e) => Err(e),
        }
    }

    /// Prepares a next-instruction query; refused for a dead thread.  The
    /// address arrives through `response::read_next_instruction`.
    pub fn get_next_instruction(&self) -> (r: Result<Vec<u8>, Error>)
        ensures
            !self.has_file_context ==> (r matches Err(e) && e matches Error::Request(_)),
            self.has_file_context ==> (r matches Ok(f) && f@ == request::frame_wire(
                (request::NextInstruction {  }),
            )),
    {
        if !self.has_file_context {
            return Err(
                Error::Request(msg_bytes("thread terminated, cannot perform requested operation")),
            );
        }
        Ok(request::serialize(&request::NextInstruction::default()))
    }

    /// Prepares a suspend command; refused for a dead thread.  The reply
    /// is applied with `finish_suspend`.
    pub fn suspend(&self) -> (r: Result<Vec<u8>, Error>)
        ensures
            !self.has_file_context ==> (r matches Err(e) && e matches Error::Request(_)),
            self.has_file_context ==> (r matches Ok(f) && f@ == request::frame_wire(
                (request::ThreadSuspend {  }),
            )),
    {
        if !self.has_file_context {
            return Err(
                Error::Request(msg_bytes("thread terminated, cannot perform requested operation")),
            );
        }
        Ok(request::serialize(&request::ThreadSuspend::default()))
    }

    /// Applies the reply to a suspend command: on the acknowledgement the
    /// thread counts as suspended.
    pub fn finish_suspend(&mut self, buf: &[u8]) -> (r: Result<usize, Error>)
        ensures
            final(self).tid == old(self).tid,
            final(self).initial == old(self).initial,
            final(self).has_file_context == old(self).has_file_context,
            final(self).single_step == old(self).single_step,
            final(self).architecture == old(self).architecture,
            r matches Ok(n) ==> n <= buf@.len() && buf@.subrange(0, n as int) == response::ack_enc(
                request::Type::ThreadSuspend,
            ) && final(self).state == ThreadState::Suspended,
            response::ack_enc(request::Type::ThreadSuspend).len() <= buf@.len() && buf@.subrange(
                0,
                response::ack_enc(request::Type::ThreadSuspend).len() as int,
            ) == response::ack_enc(request::Type::ThreadSuspend) ==> r is Ok,
            r matches Err(_) ==> final(self).state == old(self).state,
            forall|msg: Seq<u8>| #![trigger response::err_enc(request::Type::ThreadSuspend, msg)]
                response::err_enc(request::Type::ThreadSuspend, msg).len() <= buf@.len()
                    && buf@.subrange(
                    0,
                    response::err_enc(request::Type::ThreadSuspend, msg).len() as int,
                ) == response::err_enc(request::Type::ThreadSuspend, msg) ==> (r matches Err(e)
                    && e matches Error::Request(m) && m@ == msg),
    {
        match response::read_no_data(buf, request::Type::ThreadSuspend) {
            Ok(n) => {
                self.state = ThreadState::Suspended;
                Ok(n)
            },
            Err(e) => Err(e),
        }
    }

    /// Prepares a resume command; refused for a dead thread.  The reply is
    /// applied with `finish_resume`.
    pub fn resume(&self) -> (r: Result<Vec<u8>, Error>)
        ensures
            !self.has_file_context ==> (r matches Err(e) && e matches Error::Request(_)),
            self.has_file_context ==> (r matches Ok(f) && f@ == request::frame_wire(
                (request::ThreadResume {  }),
            )),
    {
        if !self.has_file_context {
            return Err(
                Error::Request(msg_bytes("thread terminated, cannot perform requested operation")),
            );
        }
        Ok(request::serialize(&request::ThreadResume::default()))
    }

    /// Applies the reply to a resume command: on the acknowledgement the
    /// thread counts as running.
    pub fn finish_resume(&mut self, buf: &[u8]) -> (r: Result<usize, Error>)
        ensures
            final(self).tid == old(self).tid,
            final(self).initial == old(self).initial,
            final(self).has_file_context == old(self).has_file_context,
            final(self).single_step == old(self).single_step,
            final(self).architecture == old(self).architecture,
            r matches Ok(n) ==> n <= buf@.len() && buf@.subrange(0, n as int) == response::ack_enc(
                request::Type::ThreadResume,
            ) && final(self).state == ThreadState::Running,
            response::ack_enc(request::Type::ThreadResume).len() <= buf@.len() && buf@.subrange(
                0,
                response::ack_enc(request::Type::ThreadResume).len() as int,
            ) == response::ack_enc(request::Type::ThreadResume) ==> r is Ok,
            r matches Err(_) ==> final(self).state == old(self).state,
            forall|msg: Seq<u8>| #![trigger response::err_enc(request::Type::ThreadResume, msg)]
                response::err_enc(request::Type::ThreadResume, msg).len() <= buf@.len()
                    && buf@.subrange(
                    0,
                    response::err_enc(request::Type::ThreadResume, msg).len() as int,
                ) == response::err_enc(request::Type::ThreadResume, msg) ==> (r matches Err(e) && e
                    matches Error::Request(m) && m@ == msg),
    {
        match response::read_no_data(buf, request::Type::ThreadResume) {
            Ok(n) => {
                self.state = ThreadState::Running;
                Ok(n)
            },
            Err(e) => Err(e),
        }
    }

    /// Prepares a register read; refused for a dead thread.  The value
    /// arrives through `response::read_read_register`.
    pub fn read_register(&self, reg: Register) -> (r: Result<Vec<u8>, Error>)
        ensures
            !self.has_file_context ==> (r matches Err(e) && e matches Error::Request(_)),
            self.has_file_context ==> (r matches Ok(f) && f@ == request::frame_wire(
                (request::ReadRegister { reg: register_tag(reg) as u32 }),
            )),
    {
        if !self.has_file_context {
            return Err(
                Error::Request(msg_bytes("thread terminated, cannot perform requested operation")),
            );
        }
        Ok(request::serialize(&request::ReadRegister::new(crate::protocol::register_code(reg))))
    }

    /// Prepares a register write; refused for a dead thread.  The
    /// acknowledgement is checked with `response::read_no_data`.
    pub fn write_register(&self, reg: Register, value: u64) -> (r: Result<Vec<u8>, Error>)
        ensures
            !self.has_file_context ==> (r matches Err(e) && e matches Error::Request(_)),
            self.has_file_context ==> (r matches Ok(f) && f@ == request::frame_wire(
                (request::WriteRegister { reg: register_tag(reg) as u32, value }),
            )),
    {
        if !self.has_file_context {
            return Err(
                Error::Request(msg_bytes("thread terminated, cannot perform requested operation")),
            );
        }
        Ok(
            request::serialize(
                &request::WriteRegister::new(crate::protocol::register_code(reg), value),
            ),
        )
    }
}

impl PartialEq for Thread {
    /// Two thread records name the same thread exactly when their thread
    /// identifiers agree.
    fn eq(&self, other: &Thread) -> (r: bool) {
        self.tid == other.tid
    }
}

impl vstd::std_specs::cmp::PartialEqSpecImpl for Thread {
    open spec fn obeys_eq_spec() -> bool {
        true
    }

    open spec fn eq_spec(&self, other: &Thread) -> bool {
        self.tid == other.tid
    }
}

} // verus!
