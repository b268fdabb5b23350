//! Request frames: a type tag, then a body for the types that carry one.

use vstd::prelude::*;
use vstd::string::StringSliceAdditionalSpecFns;

use crate::cbor::map1_bool_enc;
use crate::cbor::map1_u64_enc;
use crate::cbor::map2_u64_bytes_enc;
use crate::cbor::map2_u64_u64_enc;
use crate::cbor::parse_map1_bool;
use crate::cbor::parse_map1_u64;
use crate::cbor::parse_map2_u64_bytes;
use crate::cbor::parse_map2_u64_u64;
use crate::cbor::parse_uint;
use crate::cbor::push_map1_bool;
use crate::cbor::push_map1_u64;
use crate::cbor::push_map2_u64_bytes;
use crate::cbor::push_map2_u64_u64;
use crate::cbor::push_uint;
use crate::cbor::lemma_prefix_match;
use crate::cbor::uenc;
use crate::cbor::DecodeError;
use crate::errors::msg_bytes;
use crate::errors::Error;

verus! {

/// The request types, numbered on the wire in this order.
#[derive(Debug, Clone, Copy, PartialEq, Eq, Structural)]
pub enum Type {
    Invalid,
    Continue,
    ReadMemory,
    WriteMemory,
    ReadRegister,
    WriteRegister,
    State,
    Init,
    CreateBreakpoint,
    InstallBreakpoint,
    RemoveBreakpoint,
    DeleteBreakpoint,
    ThreadSuspend,
    ThreadResume,
    NextInstruction,
    SingleStep,
}

/// The wire tag of a request type.
pub open spec fn type_tag(t: Type) -> u64 {
    match t {
        Type::Invalid => 0,
        Type::Continue => 1,
        Type::ReadMemory => 2,
        Type::WriteMemory => 3,
        Type::ReadRegister => 4,
        Type::WriteRegister => 5,
        Type::State => 6,
        Type::Init => 7,
        Type::CreateBreakpoint => 8,
        Type::InstallBreakpoint => 9,
        Type::RemoveBreakpoint => 10,
        Type::DeleteBreakpoint => 11,
        Type::ThreadSuspend => 12,
        Type::ThreadResume => 13,
        Type::NextInstruction => 14,
        Type::SingleStep => 15,
    }
}

/// The wire tag of a request type, as transmitted.
pub fn type_code(t: Type) -> (c: u16)
    ensures
        c as u64 == type_tag(t),
{
    match t {
        Type::Invalid => 0,
        Type::Continue => 1,
        Type::ReadMemory => 2,
        Type::WriteMemory => 3,
        Type::ReadRegister => 4,
        Type::WriteRegister => 5,
        Type::State => 6,
        Type::Init => 7,
        Type::CreateBreakpoint => 8,
        Type::InstallBreakpoint => 9,
        Type::RemoveBreakpoint => 10,
        Type::DeleteBreakpoint => 11,
        Type::ThreadSuspend => 12,
        Type::ThreadResume => 13,
        Type::NextInstruction => 14,
        Type::SingleStep => 15,
    }
}

/// The request type a wire tag names, if any.
pub open spec fn spec_type_from_tag(v: u64) -> Option<Type> {
    if v == 0 {
        Some(Type::Invalid)
    } else if v == 1 {
        Some(Type::Continue)
    } else if v == 2 {
        Some(Type::ReadMemory)
    } else if v == 3 {
        Some(Type::WriteMemory)
    } else if v == 4 {
        Some(Type::ReadRegister)
    } else if v == 5 {
        Some(Type::WriteRegister)
    } else if v == 6 {
        Some(Type::State)
    } else if v == 7 {
        Some(Type::Init)
    } else if v == 8 {
        Some(Type::CreateBreakpoint)
    } else if v == 9 {
        Some(Type::InstallBreakpoint)
    } else if v == 10 {
        Some(Type::RemoveBreakpoint)
    } else if v == 11 {
        Some(Type::DeleteBreakpoint)
    } else if v == 12 {
        Some(Type::ThreadSuspend)
    } else if v == 13 {
        Some(Type::ThreadResume)
    } else if v == 14 {
        Some(Type::NextInstruction)
    } else if v == 15 {
        Some(Type::SingleStep)
    } else {
        None
    }
}

/// The request type a wire tag names, if any.
pub fn type_from_tag(v: u64) -> (r: Option<Type>)
    ensures
        r == spec_type_from_tag(v),
{
    if v == 0 {
        Some(Type::Invalid)
    } else if v == 1 {
        Some(Type::Continue)
    } else if v == 2 {
        Some(Type::ReadMemory)
    } else if v == 3 {
        Some(Type::WriteMemory)
    } else if v == 4 {
        Some(Type::ReadRegister)
    } else if v == 5 {
        Some(Type::WriteRegister)
    } else if v == 6 {
        Some(Type::State)
    } else if v == 7 {
        Some(Type::Init)
    } else if v == 8 {
        Some(Type::CreateBreakpoint)
    } else if v == 9 {
        Some(Type::InstallBreakpoint)
    } else if v == 10 {
        Some(Type::RemoveBreakpoint)
    } else if v == 11 {
        Some(Type::DeleteBreakpoint)
    } else if v == 12 {
        Some(Type::ThreadSuspend)
    } else if v == 13 {
        Some(Type::ThreadResume)
    } else if v == 14 {
        Some(Type::NextInstruction)
    } else if v == 15 {
        Some(Type::SingleStep)
    } else {
        None
    }
}

/// The printable name of a request type.
pub open spec fn name_of(t: Type) -> Seq<char> {
    match t {
        Type::Invalid => ("Invalid")@,
        Type::Continue => ("Continue")@,
        Type::ReadMemory => ("ReadMemory")@,
        Type::WriteMemory => ("WriteMemory")@,
        Type::ReadRegister => ("ReadRegister")@,
        Type::WriteRegister => ("WriteRegister")@,
        Type::State => ("State")@,
        Type::Init => ("Init")@,
        Type::CreateBreakpoint => ("CreateBreakpoint")@,
        Type::InstallBreakpoint => ("InstallBreakpoint")@,
        Type::RemoveBreakpoint => ("RemoveBreakpoint")@,
        Type::DeleteBreakpoint => ("DeleteBreakpoint")@,
        Type::ThreadSuspend => ("ThreadSuspend")@,
        Type::ThreadResume => ("ThreadResume")@,
        Type::NextInstruction => ("NextInstruction")@,
        Type::SingleStep => ("SingleStep")@,
    }
}

impl Type {
    /// The printable name of this request type.
    pub fn name(&self) -> (s: &'static str)
        ensures
            s@ == name_of(*self),
    {
        match *self {
            Type::Invalid => "Invalid",
            Type::Continue => "Continue",
            Type::ReadMemory => "ReadMemory",
            Type::WriteMemory => "WriteMemory",
            Type::ReadRegister => "ReadRegister",
            Type::WriteRegister => "WriteRegister",
            Type::State => "State",
            Type::Init => "Init",
            Type::CreateBreakpoint => "CreateBreakpoint",
            Type::InstallBreakpoint => "InstallBreakpoint",
            Type::RemoveBreakpoint => "RemoveBreakpoint",
            Type::DeleteBreakpoint => "DeleteBreakpoint",
            Type::ThreadSuspend => "ThreadSuspend",
            Type::ThreadResume => "ThreadResume",
            Type::NextInstruction => "NextInstruction",
            Type::SingleStep => "SingleStep",
        }
    }
}

/// What every request can do: name its type, say whether its body is empty,
/// and write its body's exact wire image.
pub trait RequestType {
    /// The type of this request.
    spec fn spec_typ(&self) -> Type;

    /// The wire image of this request's body; empty for the body-less types.
    spec fn wire_body(&self) -> Seq<u8>;

    /// The type of this request.
    fn typ(&self) -> (t: Type)
        ensures
            t == self.spec_typ(),
    ;

    /// Whether this request's frame carries no body.
    fn empty(&self) -> (e: bool)
        ensures
            e == (self.wire_body().len() == 0),
    ;

    /// Appends this request's body to `out`.
    fn push_body(&self, out: &mut Vec<u8>)
        ensures
            final(out)@ == old(out)@ + self.wire_body(),
    ;
}

/// The handshake request; its body is empty.
#[derive(Debug, PartialEq)]
pub struct Init {}

impl Default for Init {
    fn default() -> (r: Self)
        ensures
            r == (Init {  }),
    {
        Init {  }
    }
}

impl RequestType for Init {
    open spec fn spec_typ(&self) -> Type {
        Type::Init
    }

    open spec fn wire_body(&self) -> Seq<u8> {
        Seq::empty()
    }

    fn typ(&self) -> Type {
        Type::Init
    }

    fn empty(&self) -> bool {
        true
    }

    fn push_body(&self, out: &mut Vec<u8>) {
        assert(out@ =~= old(out)@ + self.wire_body());
    }
}

/// Resume execution, optionally delivering a signal to the debuggee.
#[derive(Debug, PartialEq)]
pub struct Continue {
    pub sig: u32,
}

impl Continue {
    pub fn new(sig: u32) -> (r: Continue)
        ensures
            r.sig == sig,
    {
        Continue { sig }
    }
}

impl RequestType for Continue {
    open spec fn spec_typ(&self) -> Type {
        Type::Continue
    }

    open spec fn wire_body(&self) -> Seq<u8> {
        map1_u64_enc(("sig").spec_bytes(), self.sig as u64)
    }

    fn typ(&self) -> Type {
        Type::Continue
    }

    fn empty(&self) -> bool {
        false
    }

    fn push_body(&self, out: &mut Vec<u8>) {
        push_map1_u64(out, "sig".as_bytes(), self.sig as u64);
    }
}

/// Read a run of bytes out of the debuggee's address space.
#[derive(Debug, PartialEq)]
pub struct ReadMemory {
    pub addr: u64,
    pub len: u32,
}

impl ReadMemory {
    pub fn new(addr: u64, len: u32) -> (r: ReadMemory)
        ensures
            r.addr == addr && r.len == len,
    {
        ReadMemory { addr, len }
    }
}

impl RequestType for ReadMemory {
    open spec fn spec_typ(&self) -> Type {
        Type::ReadMemory
    }

    open spec fn wire_body(&self) -> Seq<u8> {
        map2_u64_u64_enc(("addr").spec_bytes(), self.addr, ("len").spec_bytes(), self.len as u64)
    }

    fn typ(&self) -> Type {
        Type::ReadMemory
    }

    fn empty(&self) -> bool {
        false
    }

    fn push_body(&self, out: &mut Vec<u8>) {
        push_map2_u64_u64(out, "addr".as_bytes(), self.addr, "len".as_bytes(), self.len as u64);
    }
}

/// Write a run of bytes into the debuggee's address space.
#[derive(Debug, PartialEq)]
pub struct WriteMemory {
    pub addr: u64,
    pub data: Vec<u8>,
}

impl WriteMemory {
    pub fn new(addr: u64, data: &[u8]) -> (r: WriteMemory)
        ensures
            r.addr == addr && r.data@ == data@,
    {
        WriteMemory { addr, data: vstd::slice::slice_to_vec(data) }
    }
}

impl RequestType for WriteMemory {
    open spec fn spec_typ(&self) -> Type {
        Type::WriteMemory
    }

    open spec fn wire_body(&self) -> Seq<u8> {
        map2_u64_bytes_enc(("addr").spec_bytes(), self.addr, ("data").spec_bytes(), self.data@)
    }

    fn typ(&self) -> Type {
        Type::WriteMemory
    }

    fn empty(&self) -> bool {
        false
    }

    fn push_body(&self, out: &mut Vec<u8>) {
        push_map2_u64_bytes(
            out,
            "addr".as_bytes(),
            self.addr,
            "data".as_bytes(),
            self.data.as_slice(),
        );
    }
}

/// Read one register of the reporting thread.
#[derive(Debug, PartialEq)]
pub struct ReadRegister {
    pub reg: u32,
}

impl ReadRegister {
    pub fn new(reg: u32) -> (r: ReadRegister)
        ensures
            r.reg == reg,
    {
        ReadRegister { reg }
    }
}

impl RequestType for ReadRegister {
    open spec fn spec_typ(&self) -> Type {
        Type::ReadRegister
    }

    open spec fn wire_body(&self) -> Seq<u8> {
        map1_u64_enc(("reg").spec_bytes(), self.reg as u64)
    }

    fn typ(&self) -> Type {
        Type::ReadRegister
    }

    fn empty(&self) -> bool {
        false
    }

    fn push_body(&self, out: &mut Vec<u8>) {
        push_map1_u64(out, "reg".as_bytes(), self.reg as u64);
    }
}

/// Write one register of the reporting thread.
#[derive(Debug, PartialEq)]
pub struct WriteRegister {
    pub reg: u32,
    pub value: u64,
}

impl WriteRegister {
    pub fn new(reg: u32, value: u64) -> (r: WriteRegister)
        ensures
            r.reg == reg && r.value == value,
    {
        WriteRegister { reg, value }
    }
}

impl RequestType for WriteRegister {
    open spec fn spec_typ(&self) -> Type {
        Type::WriteRegister
    }

    open spec fn wire_body(&self) -> Seq<u8> {
        map2_u64_u64_enc(("reg").spec_bytes(), self.reg as u64, ("value").spec_bytes(), self.value)
    }

    fn typ(&self) -> Type {
        Type::WriteRegister
    }

    fn empty(&self) -> bool {
        false
    }

    fn push_body(&self, out: &mut Vec<u8>) {
        push_map2_u64_u64(out, "reg".as_bytes(), self.reg as u64, "value".as_bytes(), self.value);
    }
}

/// Ask for every thread's run state; the body is empty.
#[derive(Debug, PartialEq)]
pub struct State {}

impl Default for State {
    fn default() -> (r: Self)
        ensures
            r == (State {  }),
    {
        State {  }
    }
}

impl RequestType for State {
    open spec fn spec_typ(&self) -> Type {
        Type::State
    }

    open spec fn wire_body(&self) -> Seq<u8> {
        Seq::empty()
    }

    fn typ(&self) -> Type {
        Type::State
    }

    fn empty(&self) -> bool {
        true
    }

    fn push_body(&self, out: &mut Vec<u8>) {
        assert(out@ =~= old(out)@ + self.wire_body());
    }
}

/// Register a breakpoint address with the agent.
#[derive(Debug, PartialEq)]
pub struct CreateBreakpoint {
    pub addr: u64,
}

impl CreateBreakpoint {
    pub fn new(addr: u64) -> (r: CreateBreakpoint)
        ensures
            r.addr == addr,
    {
        CreateBreakpoint { addr }
    }
}

impl RequestType for CreateBreakpoint {
    open spec fn spec_typ(&self) -> Type {
        Type::CreateBreakpoint
    }

    open spec fn wire_body(&self) -> Seq<u8> {
        map1_u64_enc(("addr").spec_bytes(), self.addr)
    }

    fn typ(&self) -> Type {
        Type::CreateBreakpoint
    }

    fn empty(&self) -> bool {
        false
    }

    fn push_body(&self, out: &mut Vec<u8>) {
        push_map1_u64(out, "addr".as_bytes(), self.addr);
    }
}

/// Arm a registered breakpoint.
#[derive(Debug, PartialEq)]
pub struct InstallBreakpoint {
    pub addr: u64,
}

impl InstallBreakpoint {
    pub fn new(addr: u64) -> (r: InstallBreakpoint)
        ensures
            r.addr == addr,
    {
        InstallBreakpoint { addr }
    }
}

impl RequestType for InstallBreakpoint {
    open spec fn spec_typ(&self) -> Type {
        Type::InstallBreakpoint
    }

    open spec fn wire_body(&self) -> Seq<u8> {
        map1_u64_enc(("addr").spec_bytes(), self.addr)
    }

    fn typ(&self) -> Type {
        Type::InstallBreakpoint
    }

    fn empty(&self) -> bool {
        false
    }

    fn push_body(&self, out: &mut Vec<u8>) {
        push_map1_u64(out, "addr".as_bytes(), self.addr);
    }
}

/// Disarm a registered breakpoint.
#[derive(Debug, PartialEq)]
pub struct RemoveBreakpoint {
    pub addr: u64,
}

impl RemoveBreakpoint {
    pub fn new(addr: u64) -> (r: RemoveBreakpoint)
        ensures
            r.addr == addr,
    {
        RemoveBreakpoint { addr }
    }
}

impl RequestType for RemoveBreakpoint {
    open spec fn spec_typ(&self) -> Type {
        Type::RemoveBreakpoint
    }

    open spec fn wire_body(&self) -> Seq<u8> {
        map1_u64_enc(("addr").spec_bytes(), self.addr)
    }

    fn typ(&self) -> Type {
        Type::RemoveBreakpoint
    }

    fn empty(&self) -> bool {
        false
    }

    fn push_body(&self, out: &mut Vec<u8>) {
        push_map1_u64(out, "addr".as_bytes(), self.addr);
    }
}

/// Forget a registered breakpoint.
#[derive(Debug, PartialEq)]
pub struct DeleteBreakpoint {
    pub addr: u64,
}

impl DeleteBreakpoint {
    pub fn new(addr: u64) -> (r: DeleteBreakpoint)
        ensures
            r.addr == addr,
    {
        DeleteBreakpoint { addr }
    }
}

impl RequestType for DeleteBreakpoint {
    open spec fn spec_typ(&self) -> Type {
        Type::DeleteBreakpoint
    }

    open spec fn wire_body(&self) -> Seq<u8> {
        map1_u64_enc(("addr").spec_bytes(), self.addr)
    }

    fn typ(&self) -> Type {
        Type::DeleteBreakpoint
    }

    fn empty(&self) -> bool {
        false
    }

    fn push_body(&self, out: &mut Vec<u8>) {
        push_map1_u64(out, "addr".as_bytes(), self.addr);
    }
}

/// Halt one thread; the body is empty.
#[derive(Debug, PartialEq)]
pub struct ThreadSuspend {}

impl Default for ThreadSuspend {
    fn default() -> (r: Self)
        ensures
            r == (ThreadSuspend {  }),
    {
        ThreadSuspend {  }
    }
}

impl RequestType for ThreadSuspend {
    open spec fn spec_typ(&self) -> Type {
        Type::ThreadSuspend
    }

    open spec fn wire_body(&self) -> Seq<u8> {
        Seq::empty()
    }

    fn typ(&self) -> Type {
        Type::ThreadSuspend
    }

    fn empty(&self) -> bool {
        true
    }

    fn push_body(&self, out: &mut Vec<u8>) {
        assert(out@ =~= old(out)@ + self.wire_body());
    }
}

/// Let one halted thread run again; the body is empty.
#[derive(Debug, PartialEq)]
pub struct ThreadResume {}

impl Default for ThreadResume {
    fn default() -> (r: Self)
        ensures
            r == (ThreadResume {  }),
    {
        ThreadResume {  }
    }
}

impl RequestType for ThreadResume {
    open spec fn spec_typ(&self) -> Type {
        Type::ThreadResume
    }

    open spec fn wire_body(&self) -> Seq<u8> {
        Seq::empty()
    }

    fn typ(&self) -> Type {
        Type::ThreadResume
    }

    fn empty(&self) -> bool {
        true
    }

    fn push_body(&self, out: &mut Vec<u8>) {
        assert(out@ =~= old(out)@ + self.wire_body());
    }
}

/// Ask for the address of the next instruction; the body is empty.
#[derive(Debug, PartialEq)]
pub struct NextInstruction {}

impl Default for NextInstruction {
    fn default() -> (r: Self)
        ensures
            r == (NextInstruction {  }),
    {
        NextInstruction {  }
    }
}

impl RequestType for NextInstruction {
    open spec fn spec_typ(&self) -> Type {
        Type::NextInstruction
    }

    open spec fn wire_body(&self) -> Seq<u8> {
        Seq::empty()
    }

    fn typ(&self) -> Type {
        Type::NextInstruction
    }

    fn empty(&self) -> bool {
        true
    }

    fn push_body(&self, out: &mut Vec<u8>) {
        assert(out@ =~= old(out)@ + self.wire_body());
    }
}

/// Switch single-step delivery for one thread on or off.
#[derive(Debug, PartialEq)]
pub struct SingleStep {
    pub value: bool,
}

impl SingleStep {
    pub fn new(setting: bool) -> (r: SingleStep)
        ensures
            r.value == setting,
    {
        SingleStep { value: setting }
    }
}

impl RequestType for SingleStep {
    open spec fn spec_typ(&self) -> Type {
        Type::SingleStep
    }

    open spec fn wire_body(&self) -> Seq<u8> {
        map1_bool_enc(("value").spec_bytes(), self.value)
    }

    fn typ(&self) -> Type {
        Type::SingleStep
    }

    fn empty(&self) -> bool {
        false
    }

    fn push_body(&self, out: &mut Vec<u8>) {
        push_map1_bool(out, "value".as_bytes(), self.value);
    }
}

/// The wire image of a memory-write request over its plain parts.
pub open spec fn write_memory_wire(addr: u64, data: Seq<u8>) -> Seq<u8> {
    uenc(type_tag(Type::WriteMemory)) + map2_u64_bytes_enc(
        ("addr").spec_bytes(),
        addr,
        ("data").spec_bytes(),
        data,
    )
}

/// The full wire image of a request: its type tag, then its body.
pub open spec fn frame_wire<T: RequestType>(req: T) -> Seq<u8> {
    uenc(type_tag(req.spec_typ())) + req.wire_body()
}

/// Encodes one request frame.
pub fn serialize<T: RequestType>(req: &T) -> (out: Vec<u8>)
    ensures
        out@ == frame_wire(*req),
{
    let mut out: Vec<u8> = Vec::new();
    let c = type_code(req.typ());
    push_uint(&mut out, c as u64);
    req.push_body(&mut out);
    proof {
        assert(out@ =~= frame_wire(*req));
    }
    out
}

/// A decoded request frame.
#[derive(Debug, PartialEq)]
pub enum Request {
    Init(Init),
    Continue(Continue),
    ReadMemory(ReadMemory),
    WriteMemory(WriteMemory),
    ReadRegister(ReadRegister),
    WriteRegister(WriteRegister),
    State(State),
    CreateBreakpoint(CreateBreakpoint),
    InstallBreakpoint(InstallBreakpoint),
    RemoveBreakpoint(RemoveBreakpoint),
    DeleteBreakpoint(DeleteBreakpoint),
    ThreadSuspend(ThreadSuspend),
    ThreadResume(ThreadResume),
    NextInstruction(NextInstruction),
    SingleStep(SingleStep),
}

/// The type of a decoded request.
pub open spec fn request_typ(m: Request) -> Type {
    match m {
        Request::Init(_) => Type::Init,
        Request::Continue(_) => Type::Continue,
        Request::ReadMemory(_) => Type::ReadMemory,
        Request::WriteMemory(_) => Type::WriteMemory,
        Request::ReadRegister(_) => Type::ReadRegister,
        Request::WriteRegister(_) => Type::WriteRegister,
        Request::State(_) => Type::State,
        Request::CreateBreakpoint(_) => Type::CreateBreakpoint,
        Request::InstallBreakpoint(_) => Type::InstallBreakpoint,
        Request::RemoveBreakpoint(_) => Type::RemoveBreakpoint,
        Request::DeleteBreakpoint(_) => Type::DeleteBreakpoint,
        Request::ThreadSuspend(_) => Type::ThreadSuspend,
        Request::ThreadResume(_) => Type::ThreadResume,
        Request::NextInstruction(_) => Type::NextInstruction,
        Request::SingleStep(_) => Type::SingleStep,
    }
}

/// The body image of a decoded request.
pub open spec fn request_body(m: Request) -> Seq<u8> {
    match m {
        Request::Init(x) => x.wire_body(),
        Request::Continue(x) => x.wire_body(),
        Request::ReadMemory(x) => x.wire_body(),
        Request::WriteMemory(x) => x.wire_body(),
        Request::ReadRegister(x) => x.wire_body(),
        Request::WriteRegister(x) => x.wire_body(),
        Request::State(x) => x.wire_body(),
        Request::CreateBreakpoint(x) => x.wire_body(),
        Request::InstallBreakpoint(x) => x.wire_body(),
        Request::RemoveBreakpoint(x) => x.wire_body(),
        Request::DeleteBreakpoint(x) => x.wire_body(),
        Request::ThreadSuspend(x) => x.wire_body(),
        Request::ThreadResume(x) => x.wire_body(),
        Request::NextInstruction(x) => x.wire_body(),
        Request::SingleStep(x) => x.wire_body(),
    }
}

/// The full wire image of a decoded request.
pub open spec fn request_wire(m: Request) -> Seq<u8> {
    uenc(type_tag(request_typ(m))) + request_body(m)
}

/// Equality of requests up to buffer contents: two requests are the same
/// message when their fields agree, comparing carried byte buffers by their
/// contents.
pub open spec fn request_eq(a: Request, b: Request) -> bool {
    match (a, b) {
        (Request::WriteMemory(x), Request::WriteMemory(y)) => x.addr == y.addr && x.data@
            == y.data@,
        _ => a == b,
    }
}

/// Maps a raw decode failure onto the library's failure kinds: a frame cut
/// short is an I/O condition, a contradicted byte a protocol violation.
fn decode_err(e: DecodeError) -> (r: Error)
    ensures
        e == DecodeError::Truncated ==> r == Error::Io,
        e == DecodeError::Malformed ==> r matches Error::Library(_),
{
    match e {
        DecodeError::Truncated => Error::Io,
        DecodeError::Malformed => Error::Library(msg_bytes("malformed frame")),
    }
}

/// Decodes one request frame from the start of `buf`, returning the request
/// and the frame's length.  Succeeds exactly on the byte images that
/// `serialize` produces, and then returns the encoded request: for every
/// request `m`, a buffer beginning with `request_wire(m)` decodes to `m`.
pub fn read_request(buf: &[u8]) -> (r: Result<(Request, usize), Error>)
    ensures
        r matches Ok(t) ==> t.1 <= buf@.len() && buf@.subrange(0, t.1 as int) == request_wire(t.0),
        forall|m: Request| #![trigger request_wire(m)]
            request_wire(m).len() <= buf@.len() && buf@.subrange(0, request_wire(m).len() as int)
                == request_wire(m) ==> (r matches Ok(t) && request_eq(t.0, m) && t.1
                == request_wire(m).len()),
{
    proof {
        assert forall|m: Request| #![trigger request_typ(m)]
            request_typ(m) != Type::Invalid && (request_typ(m) == Type::Init ==> m matches
                Request::Init(_)) && (request_typ(m) == Type::Continue ==> m matches
                Request::Continue(_)) && (request_typ(m) == Type::ReadMemory ==> m matches
                Request::ReadMemory(_)) && (request_typ(m) == Type::WriteMemory ==> m matches
                Request::WriteMemory(_)) && (request_typ(m) == Type::ReadRegister ==> m matches
                Request::ReadRegister(_)) && (request_typ(m) == Type::WriteRegister ==> m matches
                Request::WriteRegister(_)) && (request_typ(m) == Type::State ==> m matches
                Request::State(_)) && (request_typ(m) == Type::CreateBreakpoint ==> m matches
                Request::CreateBreakpoint(_)) && (request_typ(m) == Type::InstallBreakpoint ==> m
                matches Request::InstallBreakpoint(_)) && (request_typ(m)
                == Type::RemoveBreakpoint ==> m matches Request::RemoveBreakpoint(_)) && (
            request_typ(m) == Type::DeleteBreakpoint ==> m matches Request::DeleteBreakpoint(_))
                && (request_typ(m) == Type::ThreadSuspend ==> m matches Request::ThreadSuspend(_))
                && (request_typ(m) == Type::ThreadResume ==> m matches Request::ThreadResume(_))
                && (request_typ(m) == Type::NextInstruction ==> m matches
                Request::NextInstruction(_)) && (request_typ(m) == Type::SingleStep ==> m matches
                Request::SingleStep(_)) by {
            match m {
                Request::Init(_) => {},
                Request::Continue(_) => {},
                Request::ReadMemory(_) => {},
                Request::WriteMemory(_) => {},
                Request::ReadRegister(_) => {},
                Request::WriteRegister(_) => {},
                Request::State(_) => {},
                Request::CreateBreakpoint(_) => {},
                Request::InstallBreakpoint(_) => {},
                Request::RemoveBreakpoint(_) => {},
                Request::DeleteBreakpoint(_) => {},
                Request::ThreadSuspend(_) => {},
                Request::ThreadResume(_) => {},
                Request::NextInstruction(_) => {},
                Request::SingleStep(_) => {},
            }
        }
        assert forall|m: Request| #![trigger request_wire(m)]
            request_wire(m).len() <= buf@.len() && buf@.subrange(0, request_wire(m).len() as int)
                == request_wire(m) implies buf@.subrange(
            0,
            uenc(type_tag(request_typ(m))).len() as int,
        ) == uenc(type_tag(request_typ(m))) && buf@.subrange(
            uenc(type_tag(request_typ(m))).len() as int,
            request_wire(m).len() as int,
        ) == request_body(m) by {
            lemma_prefix_match(buf@, 0, uenc(type_tag(request_typ(m))), request_body(m));
        }
    }
    let (tag, p1) = match parse_uint(buf, 0) {
        Ok(t) => t,
        Err(e) => {
            return Err(decode_err(e));
        },
    };
    let t = match type_from_tag(tag) {
        Some(t) => t,
        None => {
            return Err(Error::Library(msg_bytes("unknown request type tag")));
        },
    };
    match t {
        Type::Invalid => Err(Error::Library(msg_bytes("invalid request type tag"))),
        Type::Init => Ok((Request::Init(Init {  }), p1)),
        Type::State => Ok((Request::State(State {  }), p1)),
        Type::ThreadSuspend => Ok((Request::ThreadSuspend(ThreadSuspend {  }), p1)),
        Type::ThreadResume => Ok((Request::ThreadResume(ThreadResume {  }), p1)),
        Type::NextInstruction => Ok((Request::NextInstruction(NextInstruction {  }), p1)),
        Type::Continue => {
            match parse_map1_u64(buf, p1, "sig".as_bytes()) {
                Ok((v, p2)) => {
                    if v > 0xffffffff {
                        Err(Error::Library(msg_bytes("request field out of range")))
                    } else {
                        proof {
                            assert(buf@.subrange(0, p2 as int) =~= buf@.subrange(0, p1 as int)
                                + buf@.subrange(p1 as int, p2 as int));
                        }
                        Ok((Request::Continue(Continue { sig: v as u32 }), p2))
                    }
                },
                Err(e) => Err(decode_err(e)),
            }
        },
        Type::ReadMemory => {
            match parse_map2_u64_u64(buf, p1, "addr".as_bytes(), "len".as_bytes()) {
                Ok((a, l, p2)) => {
                    if l > 0xffffffff {
                        Err(Error::Library(msg_bytes("request field out of range")))
                    } else {
                        proof {
                            assert(buf@.subrange(0, p2 as int) =~= buf@.subrange(0, p1 as int)
                                + buf@.subrange(p1 as int, p2 as int));
                        }
                        Ok((Request::ReadMemory(ReadMemory { addr: a, len: l as u32 }), p2))
                    }
                },
                Err(e) => Err(decode_err(e)),
            }
        },
        Type::WriteMemory => {
            match parse_map2_u64_bytes(buf, p1, "addr".as_bytes(), "data".as_bytes()) {
                Ok((a, d, p2)) => {
                    proof {
                        assert(buf@.subrange(0, p2 as int) =~= buf@.subrange(0, p1 as int)
                            + buf@.subrange(p1 as int, p2 as int));
                    }
                    Ok((Request::WriteMemory(WriteMemory { addr: a, data: d }), p2))
                },
                Err(e) => Err(decode_err(e)),
            }
        },
        Type::ReadRegister => {
            match parse_map1_u64(buf, p1, "reg".as_bytes()) {
                Ok((v, p2)) => {
                    if v > 0xffffffff {
                        Err(Error::Library(msg_bytes("request field out of range")))
                    } else {
                        proof {
                            assert(buf@.subrange(0, p2 as int) =~= buf@.subrange(0, p1 as int)
                                + buf@.subrange(p1 as int, p2 as int));
                        }
                        Ok((Request::ReadRegister(ReadRegister { reg: v as u32 }), p2))
                    }
                },
                Err(e) => Err(decode_err(e)),
            }
        },
        Type::WriteRegister => {
            match parse_map2_u64_u64(buf, p1, "reg".as_bytes(), "value".as_bytes()) {
                Ok((g, v, p2)) => {
                    if g > 0xffffffff {
                        Err(Error::Library(msg_bytes("request field out of range")))
                    } else {
                        proof {
                            assert(buf@.subrange(0, p2 as int) =~= buf@.subrange(0, p1 as int)
                                + buf@.subrange(p1 as int, p2 as int));
                        }
                        Ok((Request::WriteRegister(WriteRegister { reg: g as u32, value: v }), p2))
                    }
                },
                Err(e) => Err(decode_err(e)),
            }
        },
        Type::CreateBreakpoint => {
            match parse_map1_u64(buf, p1, "addr".as_bytes()) {
                Ok((a, p2)) => {
                    proof {
                        assert(buf@.subrange(0, p2 as int) =~= buf@.subrange(0, p1 as int)
                            + buf@.subrange(p1 as int, p2 as int));
                    }
                    Ok((Request::CreateBreakpoint(CreateBreakpoint { addr: a }), p2))
                },
                Err(e) => Err(decode_err(e)),
            }
        },
        Type::InstallBreakpoint => {
            match parse_map1_u64(buf, p1, "addr".as_bytes()) {
                Ok((a, p2)) => {
                    proof {
                        assert(buf@.subrange(0, p2 as int) =~= buf@.subrange(0, p1 as int)
                            + buf@.subrange(p1 as int, p2 as int));
                    }
                    Ok((Request::InstallBreakpoint(InstallBreakpoint { addr: a }), p2))
                },
                Err(e) => Err(decode_err(e)),
            }
        },
        Type::RemoveBreakpoint => {
            match parse_map1_u64(buf, p1, "addr".as_bytes()) {
                Ok((a, p2)) => {
                    proof {
                        assert(buf@.subrange(0, p2 as int) =~= buf@.subrange(0, p1 as int)
                            + buf@.subrange(p1 as int, p2 as int));
                    }
                    Ok((Request::RemoveBreakpoint(RemoveBreakpoint { addr: a }), p2))
                },
                Err(e) => Err(decode_err(e)),
            }
        },
        Type::DeleteBreakpoint => {
            match parse_map1_u64(buf, p1, "addr".as_bytes()) {
                Ok((a, p2)) => {
                    proof {
                        assert(buf@.subrange(0, p2 as int) =~= buf@.subrange(0, p1 as int)
                            + buf@.subrange(p1 as int, p2 as int));
                    }
                    Ok((Request::DeleteBreakpoint(DeleteBreakpoint { addr: a }), p2))
                },
                Err(e) => Err(decode_err(e)),
            }
        },
        Type::SingleStep => {
            match parse_map1_bool(buf, p1, "value".as_bytes()) {
                Ok((b, p2)) => {
                    proof {
                        assert(buf@.subrange(0, p2 as int) =~= buf@.subrange(0, p1 as int)
                            + buf@.subrange(p1 as int, p2 as int));
                    }
                    Ok((Request::SingleStep(SingleStep { value: b }), p2))
                },
                Err(e) => Err(decode_err(e)),
            }
        },
    }
}

} // verus!
