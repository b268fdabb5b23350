//! Response frames: a validity tag, the echoed request-type tag, then the
//! typed body for a valid answer or the peer's message for an error.

use vstd::prelude::*;
use vstd::string::StringSliceAdditionalSpecFns;

use crate::cbor::bool_enc;
use crate::cbor::head_enc;
use crate::cbor::lemma_prefix_match;
use crate::cbor::lemma_split3;
use crate::cbor::map1_bool_enc;
use crate::cbor::map1_bytes_enc;
use crate::cbor::map1_tstr_enc;
use crate::cbor::map1_u64_enc;
use crate::cbor::pairs_arr_enc;
use crate::cbor::parse_bool;
use crate::cbor::parse_expect_head;
use crate::cbor::parse_key;
use crate::cbor::parse_map1_bool;
use crate::cbor::parse_map1_bytes;
use crate::cbor::parse_map1_tstr;
use crate::cbor::parse_map1_u64;
use crate::cbor::parse_pairs_arr;
use crate::cbor::parse_uint;
use crate::cbor::push_bool;
use crate::cbor::push_head;
use crate::cbor::push_map1_bool;
use crate::cbor::push_map1_bytes;
use crate::cbor::push_map1_tstr;
use crate::cbor::push_map1_u64;
use crate::cbor::push_pairs_arr;
use crate::cbor::push_tstr;
use crate::cbor::push_uint;
use crate::cbor::tstr_enc;
use crate::cbor::uenc;
use crate::cbor::DecodeError;
use crate::errors::msg_bytes;
use crate::errors::Error;
use crate::protocol::request;
use crate::protocol::request::type_tag;
use crate::protocol::Architecture;
use crate::protocol::arch_code;
use crate::protocol::arch_from_tag;
use crate::protocol::arch_tag;

verus! {

/// The two response kinds on the wire.
#[derive(Debug, Clone, Copy, PartialEq, Eq, Structural)]
pub enum Type {
    Valid,
    Error,
}

/// The wire tag of a response kind.
pub open spec fn response_tag(t: Type) -> u64 {
    match t {
        Type::Valid => 0,
        Type::Error => 1,
    }
}

/// The handshake answer: protocol version, architecture, whether the
/// debuggee can be multithreaded, and the initial thread's identifier.
#[derive(Debug, Clone, Copy, PartialEq, Eq, Structural)]
pub struct Init {
    pub v: u32,
    pub arch: Architecture,
    pub mt: bool,
    pub tid: u64,
}

/// The bytes read out of the debuggee.
#[derive(Debug, PartialEq)]
pub struct ReadMemory {
    pub data: Vec<u8>,
}

/// The value of the register that was read.
#[derive(Debug, Clone, Copy, PartialEq, Eq, Structural)]
pub struct ReadRegister {
    pub value: u64,
}

/// The address of the next instruction.
#[derive(Debug, Clone, Copy, PartialEq, Eq, Structural)]
pub struct NextInstruction {
    pub addr: u64,
}

/// The single-step setting the agent acknowledges.
#[derive(Debug, Clone, Copy, PartialEq, Eq, Structural)]
pub struct SingleStep {
    pub value: bool,
}

/// One thread's run state as the agent reports it.
#[derive(Debug, Clone, Copy, PartialEq, Eq, Structural)]
pub struct State {
    pub tid: u64,
    pub state: u32,
}

/// Every thread's run state.
#[derive(Debug, PartialEq)]
pub struct States {
    pub states: Vec<State>,
}

/// The peer's message on an error response.
#[derive(Debug, PartialEq)]
pub struct ResponseError {
    pub msg: Vec<u8>,
}

/// The two leading tags of a valid response to `req`.
pub open spec fn valid_hdr(req: request::Type) -> Seq<u8> {
    uenc(response_tag(Type::Valid)) + uenc(type_tag(req))
}

/// A bodyless acknowledgement of `req`.
pub open spec fn ack_enc(req: request::Type) -> Seq<u8> {
    valid_hdr(req)
}

/// An error response to `req` carrying the peer's message.
pub open spec fn err_enc(req: request::Type, msg: Seq<u8>) -> Seq<u8> {
    uenc(response_tag(Type::Error)) + uenc(type_tag(req)) + map1_tstr_enc(
        ("msg").spec_bytes(),
        msg,
    )
}

/// The body of a handshake answer.
pub open spec fn init_body_enc(i: Init) -> Seq<u8> {
    init_body_a(i.v, i.arch) + init_body_b(i.mt, i.tid)
}

/// A full handshake answer frame.
pub open spec fn init_enc(i: Init) -> Seq<u8> {
    valid_hdr(request::Type::Init) + init_body_enc(i)
}

/// A full memory-read answer frame.
pub open spec fn read_memory_enc(data: Seq<u8>) -> Seq<u8> {
    valid_hdr(request::Type::ReadMemory) + map1_bytes_enc(("data").spec_bytes(), data)
}

/// A full register-read answer frame.
pub open spec fn read_register_enc(value: u64) -> Seq<u8> {
    valid_hdr(request::Type::ReadRegister) + map1_u64_enc(("value").spec_bytes(), value)
}

/// A full next-instruction answer frame.
pub open spec fn next_instruction_enc(addr: u64) -> Seq<u8> {
    valid_hdr(request::Type::NextInstruction) + map1_u64_enc(("addr").spec_bytes(), addr)
}

/// A full single-step answer frame.
pub open spec fn single_step_enc(value: bool) -> Seq<u8> {
    valid_hdr(request::Type::SingleStep) + map1_bool_enc(("value").spec_bytes(), value)
}

/// The (tid, state) pairs of a state report, as they cross the wire.
pub open spec fn states_pairs(states: Seq<State>) -> Seq<(u64, u64)> {
    states.map_values(|st: State| (st.tid, st.state as u64))
}

/// A full state-report answer frame.
pub open spec fn states_enc(states: Seq<State>) -> Seq<u8> {
    valid_hdr(request::Type::State) + head_enc(5, 1) + tstr_enc(("states").spec_bytes())
        + pairs_arr_enc(("tid").spec_bytes(), ("state").spec_bytes(), states_pairs(states))
}

/// Encodes a bodyless acknowledgement of `req`.
pub fn encode_ack(req: request::Type) -> (out: Vec<u8>)
    ensures
        out@ == ack_enc(req),
{
    let mut out: Vec<u8> = Vec::new();
    push_uint(&mut out, 0);
    push_uint(&mut out, request::type_code(req) as u64);
    proof {
        assert(out@ =~= ack_enc(req));
    }
    out
}

/// Encodes an error response to `req` carrying `msg`.
pub fn encode_error(req: request::Type, msg: &[u8]) -> (out: Vec<u8>)
    ensures
        out@ == err_enc(req, msg@),
{
    let mut out: Vec<u8> = Vec::new();
    push_uint(&mut out, 1);
    push_uint(&mut out, request::type_code(req) as u64);
    push_map1_tstr(&mut out, "msg".as_bytes(), msg);
    proof {
        assert(out@ =~= err_enc(req, msg@));
    }
    out
}

/// Encodes a handshake answer frame.
#[verifier::rlimit(100)]
pub fn encode_init(i: &Init) -> (out: Vec<u8>)
    ensures
        out@ == init_enc(*i),
{
    let mut out: Vec<u8> = Vec::new();
    push_uint(&mut out, 0);
    push_uint(&mut out, request::type_code(request::Type::Init) as u64);
    push_head(&mut out, 5, 4);
    push_tstr(&mut out, "v".as_bytes());
    push_uint(&mut out, i.v as u64);
    push_tstr(&mut out, "arch".as_bytes());
    push_uint(&mut out, arch_code(i.arch) as u64);
    proof {
        assert(out@ =~= valid_hdr(request::Type::Init) + init_body_a(i.v, i.arch));
    }
    let ghost mid = out@;
    push_tstr(&mut out, "mt".as_bytes());
    push_bool(&mut out, i.mt);
    push_tstr(&mut out, "tid".as_bytes());
    push_uint(&mut out, i.tid);
    proof {
        assert(out@ =~= mid + init_body_b(i.mt, i.tid));
        assert(out@ =~= init_enc(*i));
    }
    out
}

/// Encodes a memory-read answer frame.
pub fn encode_read_memory(data: &[u8]) -> (out: Vec<u8>)
    ensures
        out@ == read_memory_enc(data@),
{
    let mut out: Vec<u8> = Vec::new();
    push_uint(&mut out, 0);
    push_uint(&mut out, request::type_code(request::Type::ReadMemory) as u64);
    push_map1_bytes(&mut out, "data".as_bytes(), data);
    proof {
        assert(out@ =~= read_memory_enc(data@));
    }
    out
}

/// Encodes a register-read answer frame.
pub fn encode_read_register(value: u64) -> (out: Vec<u8>)
    ensures
        out@ == read_register_enc(value),
{
    let mut out: Vec<u8> = Vec::new();
    push_uint(&mut out, 0);
    push_uint(&mut out, request::type_code(request::Type::ReadRegister) as u64);
    push_map1_u64(&mut out, "value".as_bytes(), value);
    proof {
        assert(out@ =~= read_register_enc(value));
    }
    out
}

/// Encodes a next-instruction answer frame.
pub fn encode_next_instruction(addr: u64) -> (out: Vec<u8>)
    ensures
        out@ == next_instruction_enc(addr),
{
    let mut out: Vec<u8> = Vec::new();
    push_uint(&mut out, 0);
    push_uint(&mut out, request::type_code(request::Type::NextInstruction) as u64);
    push_map1_u64(&mut out, "addr".as_bytes(), addr);
    proof {
        assert(out@ =~= next_instruction_enc(addr));
    }
    out
}

/// Encodes a single-step answer frame.
pub fn encode_single_step(value: bool) -> (out: Vec<u8>)
    ensures
        out@ == single_step_enc(value),
{
    let mut out: Vec<u8> = Vec::new();
    push_uint(&mut out, 0);
    push_uint(&mut out, request::type_code(request::Type::SingleStep) as u64);
    push_map1_bool(&mut out, "value".as_bytes(), value);
    proof {
        assert(out@ =~= single_step_enc(value));
    }
    out
}

/// Encodes a state-report answer frame.
pub fn encode_states(states: &Vec<State>) -> (out: Vec<u8>)
    ensures
        out@ == states_enc(states@),
{
    let mut out: Vec<u8> = Vec::new();
    push_uint(&mut out, 0);
    push_uint(&mut out, request::type_code(request::Type::State) as u64);
    push_head(&mut out, 5, 1);
    push_tstr(&mut out, "states".as_bytes());
    let mut pairs: Vec<(u64, u64)> = Vec::new();
    let mut i: usize = 0;
    while i < states.len()
        invariant
            i <= states@.len(),
            pairs@.len() == i,
            forall|k: int| 0 <= k < i ==> pairs@[k] == (states@[k].tid, states@[k].state as u64),
        decreases states@.len() - i,
    {
        let st = states[i];
        pairs.push((st.tid, st.state as u64));
        i = i + 1;
    }
    proof {
        assert(pairs@ =~= states_pairs(states@));
    }
    push_pairs_arr(&mut out, "tid".as_bytes(), "state".as_bytes(), &pairs);
    proof {
        assert(out@ =~= states_enc(states@));
    }
    out
}

/// Maps a raw decode failure onto the library's failure kinds.
fn decode_err(e: DecodeError) -> (r: Error)
    ensures
        e == DecodeError::Truncated ==> r == Error::Io,
        e == DecodeError::Malformed ==> r matches Error::Library(_),
{
    match e {
        DecodeError::Truncated => Error::Io,
        DecodeError::Malformed => Error::Library(msg_bytes("malformed frame")),
    }
}

/// Reads the two leading tags of a response to `req` from the start of
/// `buf`.  On a valid answer it hands back the body position; on an error
/// answer it decodes the peer's message and hands back a request-kind error.
/// The echoed request-type tag must equal `req`'s tag, on both paths:
/// decoding succeeds only on frames that answer the request that was sent.
fn read_header(buf: &[u8], req: request::Type) -> (r: Result<usize, Error>)
    ensures
        r matches Ok(p) ==> p <= buf@.len() && buf@.subrange(0, p as int) == valid_hdr(req),
        valid_hdr(req).len() <= buf@.len() && buf@.subrange(0, valid_hdr(req).len() as int)
            == valid_hdr(req) ==> r == Ok::<usize, Error>(valid_hdr(req).len() as usize),
        r matches Err(e) ==> e matches Error::Request(m) ==> err_enc(req, m@).len() <= buf@.len()
            && buf@.subrange(0, err_enc(req, m@).len() as int) == err_enc(req, m@),
        forall|msg: Seq<u8>| #![trigger err_enc(req, msg)]
            err_enc(req, msg).len() <= buf@.len() && buf@.subrange(
                0,
                err_enc(req, msg).len() as int,
            ) == err_enc(req, msg) ==> (r matches Err(e) && e matches Error::Request(m) && m@
                == msg),
{
    proof {
        assert(valid_hdr(req) =~= uenc(0) + uenc(type_tag(req)));
        if valid_hdr(req).len() <= buf@.len() && buf@.subrange(0, valid_hdr(req).len() as int)
            == valid_hdr(req) {
            lemma_prefix_match(buf@, 0, uenc(0), uenc(type_tag(req)));
        }
        assert forall|msg: Seq<u8>| #![trigger err_enc(req, msg)]
            err_enc(req, msg).len() <= buf@.len() && buf@.subrange(
                0,
                err_enc(req, msg).len() as int,
            ) == err_enc(req, msg) implies buf@.subrange(0, uenc(1).len() as int) == uenc(1)
            && buf@.subrange(uenc(1).len() as int, (uenc(1).len() + uenc(type_tag(req)).len()) as int)
            == uenc(type_tag(req)) && buf@.subrange(
            (uenc(1).len() + uenc(type_tag(req)).len()) as int,
            err_enc(req, msg).len() as int,
        ) == map1_tstr_enc(("msg").spec_bytes(), msg) by {
            lemma_split3(
                buf@,
                0,
                uenc(1),
                uenc(type_tag(req)),
                map1_tstr_enc(("msg").spec_bytes(), msg),
            );
        }
    }
    let (rt, p1) = match parse_uint(buf, 0) {
        Ok(t) => t,
        Err(e) => {
            return Err(decode_err(e));
        },
    };
    if rt == 0 {
        let (echo, p2) = match parse_uint(buf, p1) {
            Ok(t) => t,
            Err(e) => {
                return Err(decode_err(e));
            },
        };
        if echo != request::type_code(req) as u64 {
            return Err(Error::Library(msg_bytes("response echoes a different request type")));
        }
        proof {
            assert(buf@.subrange(0, p2 as int) =~= buf@.subrange(0, p1 as int) + buf@.subrange(
                p1 as int,
                p2 as int,
            ));
        }
        Ok(p2)
    } else if rt == 1 {
        let (echo, p2) = match parse_uint(buf, p1) {
            Ok(t) => t,
            Err(e) => {
                return Err(decode_err(e));
            },
        };
        if echo != request::type_code(req) as u64 {
            return Err(Error::Library(msg_bytes("response echoes a different request type")));
        }
        match parse_map1_tstr(buf, p2, "msg".as_bytes()) {
            Ok((m, p3)) => {
                proof {
                    assert(buf@.subrange(0, p3 as int) =~= buf@.subrange(0, p1 as int)
                        + buf@.subrange(p1 as int, p2 as int) + buf@.subrange(
                        p2 as int,
                        p3 as int,
                    ));
                }
                assert(buf@.subrange(0, p3 as int) =~= err_enc(req, m@));
                Err(Error::Request(m))
            },
            Err(e) => Err(decode_err(e)),
        }
    } else {
        Err(Error::Library(msg_bytes("unknown response kind tag")))
    }
}

/// Reads a bodyless acknowledgement of `req`: succeeds exactly on
/// `ack_enc(req)`, and surfaces the peer's error response as a
/// request-kind error carrying the peer's message.
pub fn read_no_data(buf: &[u8], req: request::Type) -> (r: Result<usize, Error>)
    ensures
        r matches Ok(p) ==> p <= buf@.len() && buf@.subrange(0, p as int) == ack_enc(req),
        ack_enc(req).len() <= buf@.len() && buf@.subrange(0, ack_enc(req).len() as int) == ack_enc(
            req,
        ) ==> r == Ok::<usize, Error>(ack_enc(req).len() as usize),
        r matches Err(e) ==> e matches Error::Request(m) ==> err_enc(req, m@).len() <= buf@.len()
            && buf@.subrange(0, err_enc(req, m@).len() as int) == err_enc(req, m@),
        forall|msg: Seq<u8>| #![trigger err_enc(req, msg)]
            err_enc(req, msg).len() <= buf@.len() && buf@.subrange(
                0,
                err_enc(req, msg).len() as int,
            ) == err_enc(req, msg) ==> (r matches Err(e) && e matches Error::Request(m) && m@
                == msg),
{
    match read_header(buf, req) {
        Ok(p) => Ok(p),
        Err(e) => Err(e),
    }
}

/// The leading half of a handshake answer body: the map header, the
/// protocol version, and the architecture.
pub open spec fn init_body_a(v: u32, arch: Architecture) -> Seq<u8> {
    head_enc(5, 4) + tstr_enc(("v").spec_bytes()) + uenc(v as u64) + tstr_enc(
        ("arch").spec_bytes(),
    ) + uenc(arch_tag(arch))
}

/// The trailing half of a handshake answer body: the multithread flag and
/// the initial thread.
pub open spec fn init_body_b(mt: bool, tid: u64) -> Seq<u8> {
    tstr_enc(("mt").spec_bytes()) + bool_enc(mt) + tstr_enc(("tid").spec_bytes()) + uenc(tid)
}

/// Decodes the leading half of a handshake answer body.
#[verifier::rlimit(100)]
fn parse_init_a(buf: &[u8], pos: usize) -> (r: Result<(u32, Architecture, usize), DecodeError>)
    ensures
        r matches Ok(t) ==> pos + init_body_a(t.0, t.1).len() == t.2 && t.2 <= buf@.len()
            && buf@.subrange(pos as int, t.2 as int) == init_body_a(t.0, t.1),
        forall|v: u32, arch: Architecture| #![trigger init_body_a(v, arch)]
            pos + init_body_a(v, arch).len() <= buf@.len() && buf@.subrange(
                pos as int,
                pos + init_body_a(v, arch).len(),
            ) == init_body_a(v, arch) ==> (r matches Ok(t) && t.0 == v && t.1 == arch && t.2 == pos
                + init_body_a(v, arch).len()),
{
    proof {
        assert forall|v: u32, arch: Architecture| #![trigger init_body_a(v, arch)]
            pos + init_body_a(v, arch).len() <= buf@.len() && buf@.subrange(
                pos as int,
                pos + init_body_a(v, arch).len(),
            ) == init_body_a(v, arch) implies ({
            let a1 = head_enc(5, 4);
            let a2 = tstr_enc(("v").spec_bytes());
            let a3 = uenc(v as u64);
            let a4 = tstr_enc(("arch").spec_bytes());
            let a5 = uenc(arch_tag(arch));
            &&& buf@.subrange(pos as int, pos + a1.len()) == a1
            &&& buf@.subrange(pos + a1.len(), pos + a1.len() + a2.len()) == a2
            &&& buf@.subrange(pos + a1.len() + a2.len(), pos + a1.len() + a2.len() + a3.len())
                == a3
            &&& buf@.subrange(
                pos + a1.len() + a2.len() + a3.len(),
                pos + a1.len() + a2.len() + a3.len() + a4.len(),
            ) == a4
            &&& buf@.subrange(
                pos + a1.len() + a2.len() + a3.len() + a4.len(),
                pos + init_body_a(v, arch).len(),
            ) == a5
        }) by {
            let a1 = head_enc(5, 4);
            let a2 = tstr_enc(("v").spec_bytes());
            let a3 = uenc(v as u64);
            let a4 = tstr_enc(("arch").spec_bytes());
            let a5 = uenc(arch_tag(arch));
            assert(init_body_a(v, arch) =~= a1 + (a2 + (a3 + (a4 + a5))));
            lemma_prefix_match(buf@, pos as int, a1, a2 + (a3 + (a4 + a5)));
            lemma_prefix_match(buf@, pos + a1.len(), a2, a3 + (a4 + a5));
            lemma_prefix_match(buf@, pos + a1.len() + a2.len(), a3, a4 + a5);
            lemma_prefix_match(buf@, pos + a1.len() + a2.len() + a3.len(), a4, a5);
        }
    }
    let p1 = match parse_expect_head(buf, pos, 5, 4) {
        Ok(p) => p,
        Err(e) => {
            return Err(e);
        },
    };
    let p2 = match parse_key(buf, p1, "v".as_bytes()) {
        Ok(p) => p,
        Err(e) => {
            return Err(e);
        },
    };
    let (v, p3) = match parse_uint(buf, p2) {
        Ok(t) => t,
        Err(e) => {
            return Err(e);
        },
    };
    if v > 0xffffffff {
        return Err(DecodeError::Malformed);
    }
    let p4 = match parse_key(buf, p3, "arch".as_bytes()) {
        Ok(p) => p,
        Err(e) => {
            return Err(e);
        },
    };
    let (at, p5) = match parse_uint(buf, p4) {
        Ok(t) => t,
        Err(e) => {
            return Err(e);
        },
    };
    let arch = match arch_from_tag(at) {
        Some(a) => a,
        None => {
            return Err(DecodeError::Malformed);
        },
    };
    proof {
        assert(buf@.subrange(pos as int, p5 as int) =~= buf@.subrange(pos as int, p1 as int)
            + buf@.subrange(p1 as int, p2 as int) + buf@.subrange(p2 as int, p3 as int)
            + buf@.subrange(p3 as int, p4 as int) + buf@.subrange(p4 as int, p5 as int));
        assert(buf@.subrange(pos as int, p5 as int) =~= init_body_a(v as u32, arch));
    }
    Ok((v as u32, arch, p5))
}

/// Decodes the trailing half of a handshake answer body.
#[verifier::rlimit(100)]
fn parse_init_b(buf: &[u8], pos: usize) -> (r: Result<(bool, u64, usize), DecodeError>)
    ensures
        r matches Ok(t) ==> pos + init_body_b(t.0, t.1).len() == t.2 && t.2 <= buf@.len()
            && buf@.subrange(pos as int, t.2 as int) == init_body_b(t.0, t.1),
        forall|mt: bool, tid: u64| #![trigger init_body_b(mt, tid)]
            pos + init_body_b(mt, tid).len() <= buf@.len() && buf@.subrange(
                pos as int,
                pos + init_body_b(mt, tid).len(),
            ) == init_body_b(mt, tid) ==> (r matches Ok(t) && t.0 == mt && t.1 == tid && t.2 == pos
                + init_body_b(mt, tid).len()),
{
    proof {
        assert forall|mt: bool, tid: u64| #![trigger init_body_b(mt, tid)]
            pos + init_body_b(mt, tid).len() <= buf@.len() && buf@.subrange(
                pos as int,
                pos + init_body_b(mt, tid).len(),
            ) == init_body_b(mt, tid) implies ({
            let a1 = tstr_enc(("mt").spec_bytes());
            let a2 = bool_enc(mt);
            let a3 = tstr_enc(("tid").spec_bytes());
            let a4 = uenc(tid);
            &&& buf@.subrange(pos as int, pos + a1.len()) == a1
            &&& buf@.subrange(pos + a1.len(), pos + a1.len() + a2.len()) == a2
            &&& buf@.subrange(pos + a1.len() + a2.len(), pos + a1.len() + a2.len() + a3.len())
                == a3
            &&& buf@.subrange(
                pos + a1.len() + a2.len() + a3.len(),
                pos + init_body_b(mt, tid).len(),
            ) == a4
        }) by {
            let a1 = tstr_enc(("mt").spec_bytes());
            let a2 = bool_enc(mt);
            let a3 = tstr_enc(("tid").spec_bytes());
            let a4 = uenc(tid);
            assert(init_body_b(mt, tid) =~= a1 + (a2 + (a3 + a4)));
            lemma_prefix_match(buf@, pos as int, a1, a2 + (a3 + a4));
            lemma_prefix_match(buf@, pos + a1.len(), a2, a3 + a4);
            lemma_prefix_match(buf@, pos + a1.len() + a2.len(), a3, a4);
        }
    }
    let p1 = match parse_key(buf, pos, "mt".as_bytes()) {
        Ok(p) => p,
        Err(e) => {
            return Err(e);
        },
    };
    let (mt, p2) = match parse_bool(buf, p1) {
        Ok(t) => t,
        Err(e) => {
            return Err(e);
        },
    };
    let p3 = match parse_key(buf, p2, "tid".as_bytes()) {
        Ok(p) => p,
        Err(e) => {
            return Err(e);
        },
    };
    let (tid, p4) = match parse_uint(buf, p3) {
        Ok(t) => t,
        Err(e) => {
            return Err(e);
        },
    };
    proof {
        assert(buf@.subrange(pos as int, p4 as int) =~= buf@.subrange(pos as int, p1 as int)
            + buf@.subrange(p1 as int, p2 as int) + buf@.subrange(p2 as int, p3 as int)
            + buf@.subrange(p3 as int, p4 as int));
        assert(buf@.subrange(pos as int, p4 as int) =~= init_body_b(mt, tid));
    }
    Ok((mt, tid, p4))
}

/// Decodes a handshake answer body at `pos`: succeeds exactly on the byte
/// images `init_body_enc` produces.
fn parse_init_body(buf: &[u8], pos: usize) -> (r: Result<(Init, usize), DecodeError>)
    ensures
        r matches Ok(t) ==> pos + init_body_enc(t.0).len() == t.1 && t.1 <= buf@.len()
            && buf@.subrange(pos as int, t.1 as int) == init_body_enc(t.0),
        forall|i: Init| #![trigger init_body_enc(i)]
            pos + init_body_enc(i).len() <= buf@.len() && buf@.subrange(
                pos as int,
                pos + init_body_enc(i).len(),
            ) == init_body_enc(i) ==> (r matches Ok(t) && t.0 == i && t.1 == pos + init_body_enc(
                i,
            ).len()),
{
    proof {
        assert forall|i: Init| #![trigger init_body_enc(i)]
            pos + init_body_enc(i).len() <= buf@.len() && buf@.subrange(
                pos as int,
                pos + init_body_enc(i).len(),
            ) == init_body_enc(i) implies buf@.subrange(
            pos as int,
            pos + init_body_a(i.v, i.arch).len(),
        ) == init_body_a(i.v, i.arch) && buf@.subrange(
            pos + init_body_a(i.v, i.arch).len(),
            pos + init_body_enc(i).len(),
        ) == init_body_b(i.mt, i.tid) by {
            lemma_prefix_match(
                buf@,
                pos as int,
                init_body_a(i.v, i.arch),
                init_body_b(i.mt, i.tid),
            );
        }
    }
    let (v, arch, p1) = match parse_init_a(buf, pos) {
        Ok(t) => t,
        Err(e) => {
            return Err(e);
        },
    };
    let (mt, tid, p2) = match parse_init_b(buf, p1) {
        Ok(t) => t,
        Err(e) => {
            return Err(e);
        },
    };
    let i = Init { v, arch, mt, tid };
    proof {
        assert(buf@.subrange(pos as int, p2 as int) =~= buf@.subrange(pos as int, p1 as int)
            + buf@.subrange(p1 as int, p2 as int));
        assert(buf@.subrange(pos as int, p2 as int) =~= init_body_enc(i));
    }
    Ok((i, p2))
}


/// Reads a handshake answer: succeeds exactly on `init_enc` frames and
/// returns the decoded answer; surfaces a peer error as a request-kind
/// error.
pub fn read_init(buf: &[u8]) -> (r: Result<(Init, usize), Error>)
    ensures
        r matches Ok(t) ==> t.1 <= buf@.len() && buf@.subrange(0, t.1 as int) == init_enc(t.0),
        forall|i: Init| #![trigger init_enc(i)]
            init_enc(i).len() <= buf@.len() && buf@.subrange(0, init_enc(i).len() as int)
                == init_enc(i) ==> (r matches Ok(t) && t.0 == i && t.1 == init_enc(i).len()),
        r matches Err(e) ==> e matches Error::Request(m) ==> err_enc(
            request::Type::Init,
            m@,
        ).len() <= buf@.len() && buf@.subrange(0, err_enc(request::Type::Init, m@).len() as int)
            == err_enc(request::Type::Init, m@),
        forall|msg: Seq<u8>| #![trigger err_enc(request::Type::Init, msg)]
            err_enc(request::Type::Init, msg).len() <= buf@.len() && buf@.subrange(
                0,
                err_enc(request::Type::Init, msg).len() as int,
            ) == err_enc(request::Type::Init, msg) ==> (r matches Err(e) && e matches
                Error::Request(m) && m@ == msg),
{
    proof {
        assert forall|i: Init| #![trigger init_enc(i)]
            init_enc(i).len() <= buf@.len() && buf@.subrange(0, init_enc(i).len() as int)
                == init_enc(i) implies buf@.subrange(0, valid_hdr(request::Type::Init).len() as int)
            == valid_hdr(request::Type::Init) && buf@.subrange(
            valid_hdr(request::Type::Init).len() as int,
            init_enc(i).len() as int,
        ) == init_body_enc(i) by {
            lemma_prefix_match(buf@, 0, valid_hdr(request::Type::Init), init_body_enc(i));
        }
    }
    let p0 = match read_header(buf, request::Type::Init) {
        Ok(p) => p,
        Err(e) => {
            return Err(e);
        },
    };
    match parse_init_body(buf, p0) {
        Ok((i, p1)) => {
            proof {
                assert(buf@.subrange(0, p1 as int) =~= buf@.subrange(0, p0 as int) + buf@.subrange(
                    p0 as int,
                    p1 as int,
                ));
            }
            Ok((i, p1))
        },
        Err(e) => Err(decode_err(e)),
    }
}


/// Reads a memory-read answer: succeeds exactly on `read_memory_enc`
/// frames; surfaces a peer error as a request-kind error.
pub fn read_read_memory(buf: &[u8]) -> (r: Result<(ReadMemory, usize), Error>)
    ensures
        r matches Ok(t) ==> t.1 <= buf@.len() && buf@.subrange(0, t.1 as int) == read_memory_enc(
            t.0.data@,
        ),
        forall|d: Seq<u8>| #![trigger read_memory_enc(d)]
            read_memory_enc(d).len() <= buf@.len() && buf@.subrange(
                0,
                read_memory_enc(d).len() as int,
            ) == read_memory_enc(d) ==> (r matches Ok(t) && t.0.data@ == d && t.1
                == read_memory_enc(d).len()),
        r matches Err(e) ==> e matches Error::Request(m) ==> err_enc(
            request::Type::ReadMemory,
            m@,
        ).len() <= buf@.len() && buf@.subrange(
            0,
            err_enc(request::Type::ReadMemory, m@).len() as int,
        ) == err_enc(request::Type::ReadMemory, m@),
        forall|msg: Seq<u8>| #![trigger err_enc(request::Type::ReadMemory, msg)]
            err_enc(request::Type::ReadMemory, msg).len() <= buf@.len() && buf@.subrange(
                0,
                err_enc(request::Type::ReadMemory, msg).len() as int,
            ) == err_enc(request::Type::ReadMemory, msg) ==> (r matches Err(e) && e matches
                Error::Request(m) && m@ == msg),
{
    proof {
        assert forall|d: Seq<u8>| #![trigger read_memory_enc(d)]
            read_memory_enc(d).len() <= buf@.len() && buf@.subrange(
                0,
                read_memory_enc(d).len() as int,
            ) == read_memory_enc(d) implies buf@.subrange(
            0,
            valid_hdr(request::Type::ReadMemory).len() as int,
        ) == valid_hdr(request::Type::ReadMemory) && buf@.subrange(
            valid_hdr(request::Type::ReadMemory).len() as int,
            read_memory_enc(d).len() as int,
        ) == map1_bytes_enc(("data").spec_bytes(), d) by {
            lemma_prefix_match(
                buf@,
                0,
                valid_hdr(request::Type::ReadMemory),
                map1_bytes_enc(("data").spec_bytes(), d),
            );
        }
    }
    let p0 = match read_header(buf, request::Type::ReadMemory) {
        Ok(p) => p,
        Err(e) => {
            return Err(e);
        },
    };
    match parse_map1_bytes(buf, p0, "data".as_bytes()) {
        Ok((d, p1)) => {
            proof {
                assert(buf@.subrange(0, p1 as int) =~= buf@.subrange(0, p0 as int) + buf@.subrange(
                    p0 as int,
                    p1 as int,
                ));
            }
            Ok((ReadMemory { data: d }, p1))
        },
        Err(e) => Err(decode_err(e)),
    }
}

/// Reads a register-read answer: succeeds exactly on `read_register_enc`
/// frames; surfaces a peer error as a request-kind error.
pub fn read_read_register(buf: &[u8]) -> (r: Result<(ReadRegister, usize), Error>)
    ensures
        r matches Ok(t) ==> t.1 <= buf@.len() && buf@.subrange(0, t.1 as int) == read_register_enc(
            t.0.value,
        ),
        forall|v: u64| #![trigger read_register_enc(v)]
            read_register_enc(v).len() <= buf@.len() && buf@.subrange(
                0,
                read_register_enc(v).len() as int,
            ) == read_register_enc(v) ==> (r matches Ok(t) && t.0.value == v && t.1
                == read_register_enc(v).len()),
        r matches Err(e) ==> e matches Error::Request(m) ==> err_enc(
            request::Type::ReadRegister,
            m@,
        ).len() <= buf@.len() && buf@.subrange(
            0,
            err_enc(request::Type::ReadRegister, m@).len() as int,
        ) == err_enc(request::Type::ReadRegister, m@),
        forall|msg: Seq<u8>| #![trigger err_enc(request::Type::ReadRegister, msg)]
            err_enc(request::Type::ReadRegister, msg).len() <= buf@.len() && buf@.subrange(
                0,
                err_enc(request::Type::ReadRegister, msg).len() as int,
            ) == err_enc(request::Type::ReadRegister, msg) ==> (r matches Err(e) && e matches
                Error::Request(m) && m@ == msg),
{
    proof {
        assert forall|v: u64| #![trigger read_register_enc(v)]
            read_register_enc(v).len() <= buf@.len() && buf@.subrange(
                0,
                read_register_enc(v).len() as int,
            ) == read_register_enc(v) implies buf@.subrange(
            0,
            valid_hdr(request::Type::ReadRegister).len() as int,
        ) == valid_hdr(request::Type::ReadRegister) && buf@.subrange(
            valid_hdr(request::Type::ReadRegister).len() as int,
            read_register_enc(v).len() as int,
        ) == map1_u64_enc(("value").spec_bytes(), v) by {
            lemma_prefix_match(
                buf@,
                0,
                valid_hdr(request::Type::ReadRegister),
                map1_u64_enc(("value").spec_bytes(), v),
            );
        }
    }
    let p0 = match read_header(buf, request::Type::ReadRegister) {
        Ok(p) => p,
        Err(e) => {
            return Err(e);
        },
    };
    match parse_map1_u64(buf, p0, "value".as_bytes()) {
        Ok((v, p1)) => {
            proof {
                assert(buf@.subrange(0, p1 as int) =~= buf@.subrange(0, p0 as int) + buf@.subrange(
                    p0 as int,
                    p1 as int,
                ));
            }
            Ok((ReadRegister { value: v }, p1))
        },
        Err(e) => Err(decode_err(e)),
    }
}

/// Reads a next-instruction answer: succeeds exactly on
/// `next_instruction_enc` frames; surfaces a peer error as a request-kind
/// error.
pub fn read_next_instruction(buf: &[u8]) -> (r: Result<(NextInstruction, usize), Error>)
    ensures
        r matches Ok(t) ==> t.1 <= buf@.len() && buf@.subrange(0, t.1 as int)
            == next_instruction_enc(t.0.addr),
        forall|v: u64| #![trigger next_instruction_enc(v)]
            next_instruction_enc(v).len() <= buf@.len() && buf@.subrange(
                0,
                next_instruction_enc(v).len() as int,
            ) == next_instruction_enc(v) ==> (r matches Ok(t) && t.0.addr == v && t.1
                == next_instruction_enc(v).len()),
        r matches Err(e) ==> e matches Error::Request(m) ==> err_enc(
            request::Type::NextInstruction,
            m@,
        ).len() <= buf@.len() && buf@.subrange(
            0,
            err_enc(request::Type::NextInstruction, m@).len() as int,
        ) == err_enc(request::Type::NextInstruction, m@),
        forall|msg: Seq<u8>| #![trigger err_enc(request::Type::NextInstruction, msg)]
            err_enc(request::Type::NextInstruction, msg).len() <= buf@.len() && buf@.subrange(
                0,
                err_enc(request::Type::NextInstruction, msg).len() as int,
            ) == err_enc(request::Type::NextInstruction, msg) ==> (r matches Err(e) && e matches
                Error::Request(m) && m@ == msg),
{
    proof {
        assert forall|v: u64| #![trigger next_instruction_enc(v)]
            next_instruction_enc(v).len() <= buf@.len() && buf@.subrange(
                0,
                next_instruction_enc(v).len() as int,
            ) == next_instruction_enc(v) implies buf@.subrange(
            0,
            valid_hdr(request::Type::NextInstruction).len() as int,
        ) == valid_hdr(request::Type::NextInstruction) && buf@.subrange(
            valid_hdr(request::Type::NextInstruction).len() as int,
            next_instruction_enc(v).len() as int,
        ) == map1_u64_enc(("addr").spec_bytes(), v) by {
            lemma_prefix_match(
                buf@,
                0,
                valid_hdr(request::Type::NextInstruction),
                map1_u64_enc(("addr").spec_bytes(), v),
            );
        }
    }
    let p0 = match read_header(buf, request::Type::NextInstruction) {
        Ok(p) => p,
        Err(e) => {
            return Err(e);
        },
    };
    match parse_map1_u64(buf, p0, "addr".as_bytes()) {
        Ok((v, p1)) => {
            proof {
                assert(buf@.subrange(0, p1 as int) =~= buf@.subrange(0, p0 as int) + buf@.subrange(
                    p0 as int,
                    p1 as int,
                ));
            }
            Ok((NextInstruction { addr: v }, p1))
        },
        Err(e) => Err(decode_err(e)),
    }
}

/// Reads a single-step answer: succeeds exactly on `single_step_enc`
/// frames; surfaces a peer error as a request-kind error.
pub fn read_single_step(buf: &[u8]) -> (r: Result<(SingleStep, usize), Error>)
    ensures
        r matches Ok(t) ==> t.1 <= buf@.len() && buf@.subrange(0, t.1 as int) == single_step_enc(
            t.0.value,
        ),
        forall|b: bool| #![trigger single_step_enc(b)]
            single_step_enc(b).len() <= buf@.len() && buf@.subrange(
                0,
                single_step_enc(b).len() as int,
            ) == single_step_enc(b) ==> (r matches Ok(t) && t.0.value == b && t.1
                == single_step_enc(b).len()),
        r matches Err(e) ==> e matches Error::Request(m) ==> err_enc(
            request::Type::SingleStep,
            m@,
        ).len() <= buf@.len() && buf@.subrange(
            0,
            err_enc(request::Type::SingleStep, m@).len() as int,
        ) == err_enc(request::Type::SingleStep, m@),
        forall|msg: Seq<u8>| #![trigger err_enc(request::Type::SingleStep, msg)]
            err_enc(request::Type::SingleStep, msg).len() <= buf@.len() && buf@.subrange(
                0,
                err_enc(request::Type::SingleStep, msg).len() as int,
            ) == err_enc(request::Type::SingleStep, msg) ==> (r matches Err(e) && e matches
                Error::Request(m) && m@ == msg),
{
    proof {
        assert forall|b: bool| #![trigger single_step_enc(b)]
            single_step_enc(b).len() <= buf@.len() && buf@.subrange(
                0,
                single_step_enc(b).len() as int,
            ) == single_step_enc(b) implies buf@.subrange(
            0,
            valid_hdr(request::Type::SingleStep).len() as int,
        ) == valid_hdr(request::Type::SingleStep) && buf@.subrange(
            valid_hdr(request::Type::SingleStep).len() as int,
            single_step_enc(b).len() as int,
        ) == map1_bool_enc(("value").spec_bytes(), b) by {
            lemma_prefix_match(
                buf@,
                0,
                valid_hdr(request::Type::SingleStep),
                map1_bool_enc(("value").spec_bytes(), b),
            );
        }
    }
    let p0 = match read_header(buf, request::Type::SingleStep) {
        Ok(p) => p,
        Err(e) => {
            return Err(e);
        },
    };
    match parse_map1_bool(buf, p0, "value".as_bytes()) {
        Ok((b, p1)) => {
            proof {
                assert(buf@.subrange(0, p1 as int) =~= buf@.subrange(0, p0 as int) + buf@.subrange(
                    p0 as int,
                    p1 as int,
                ));
            }
            Ok((SingleStep { value: b }, p1))
        },
        Err(e) => Err(decode_err(e)),
    }
}

/// Narrows the wire pairs of a state report to tid/state records, failing
/// on a state word too wide for its field.
fn pairs_to_states(pairs: &Vec<(u64, u64)>) -> (r: Result<Vec<State>, DecodeError>)
    ensures
        r matches Ok(states) ==> states_pairs(states@) == pairs@,
        (forall|k: int| 0 <= k < pairs@.len() ==> (#[trigger] pairs@[k]).1 <= 0xffffffff) ==> r
            is Ok,
        r is Err ==> exists|k: int| 0 <= k < pairs@.len() && (#[trigger] pairs@[k]).1 > 0xffffffff,
{
    let mut states: Vec<State> = Vec::new();
    let mut i: usize = 0;
    while i < pairs.len()
        invariant
            i <= pairs@.len(),
            states@.len() == i,
            forall|k: int|
                0 <= k < i ==> (#[trigger] pairs@[k]).1 <= 0xffffffff && states@[k] == (State {
                    tid: pairs@[k].0,
                    state: pairs@[k].1 as u32,
                }),
        decreases pairs@.len() - i,
    {
        let (tid, st) = pairs[i];
        if st > 0xffffffff {
            return Err(DecodeError::Malformed);
        }
        states.push(State { tid, state: st as u32 });
        i = i + 1;
    }
    proof {
        assert(states_pairs(states@) =~= pairs@);
    }
    Ok(states)
}

/// Reads a state-report answer: succeeds exactly on `states_enc` frames
/// whose state words fit the wire's width, and returns every thread's
/// reported state in order; surfaces a peer error as a request-kind error.
pub fn read_states(buf: &[u8]) -> (r: Result<(States, usize), Error>)
    ensures
        r matches Ok(t) ==> t.1 <= buf@.len() && buf@.subrange(0, t.1 as int) == states_enc(
            t.0.states@,
        ),
        forall|ss: Seq<State>| #![trigger states_enc(ss)]
            states_enc(ss).len() <= buf@.len() && buf@.subrange(0, states_enc(ss).len() as int)
                == states_enc(ss) ==> (r matches Ok(t) && t.0.states@ == ss && t.1 == states_enc(
                ss,
            ).len()),
        r matches Err(e) ==> e matches Error::Request(m) ==> err_enc(
            request::Type::State,
            m@,
        ).len() <= buf@.len() && buf@.subrange(0, err_enc(request::Type::State, m@).len() as int)
            == err_enc(request::Type::State, m@),
        forall|msg: Seq<u8>| #![trigger err_enc(request::Type::State, msg)]
            err_enc(request::Type::State, msg).len() <= buf@.len() && buf@.subrange(
                0,
                err_enc(request::Type::State, msg).len() as int,
            ) == err_enc(request::Type::State, msg) ==> (r matches Err(e) && e matches
                Error::Request(m) && m@ == msg),
{
    proof {
        assert forall|ss: Seq<State>| #![trigger states_enc(ss)]
            states_enc(ss).len() <= buf@.len() && buf@.subrange(0, states_enc(ss).len() as int)
                == states_enc(ss) implies buf@.subrange(
            0,
            valid_hdr(request::Type::State).len() as int,
        ) == valid_hdr(request::Type::State) && ({
            let h: int = valid_hdr(request::Type::State).len() as int;
            let a1 = head_enc(5, 1);
            let a2 = tstr_enc(("states").spec_bytes());
            let a3 = pairs_arr_enc(("tid").spec_bytes(), ("state").spec_bytes(), states_pairs(ss));
            &&& buf@.subrange(h, h + a1.len()) == a1
            &&& buf@.subrange(h + a1.len(), h + a1.len() + a2.len()) == a2
            &&& buf@.subrange(h + a1.len() + a2.len(), states_enc(ss).len() as int) == a3
        }) by {
            let h: int = valid_hdr(request::Type::State).len() as int;
            let a1 = head_enc(5, 1);
            let a2 = tstr_enc(("states").spec_bytes());
            let a3 = pairs_arr_enc(("tid").spec_bytes(), ("state").spec_bytes(), states_pairs(ss));
            assert(states_enc(ss) =~= valid_hdr(request::Type::State) + (a1 + (a2 + a3)));
            lemma_prefix_match(buf@, 0, valid_hdr(request::Type::State), a1 + (a2 + a3));
            lemma_prefix_match(buf@, h, a1, a2 + a3);
            lemma_prefix_match(buf@, h + a1.len(), a2, a3);
        }
    }
    let p0 = match read_header(buf, request::Type::State) {
        Ok(p) => p,
        Err(e) => {
            return Err(e);
        },
    };
    let p1 = match parse_expect_head(buf, p0, 5, 1) {
        Ok(p) => p,
        Err(e) => {
            return Err(decode_err(e));
        },
    };
    let p2 = match parse_key(buf, p1, "states".as_bytes()) {
        Ok(p) => p,
        Err(e) => {
            return Err(decode_err(e));
        },
    };
    let (pairs, p3) = match parse_pairs_arr(buf, p2, "tid".as_bytes(), "state".as_bytes()) {
        Ok(t) => t,
        Err(e) => {
            return Err(decode_err(e));
        },
    };
    let states = match pairs_to_states(&pairs) {
        Ok(s) => s,
        Err(_) => {
            proof {
                assert forall|ss: Seq<State>| #![trigger states_enc(ss)]
                    states_enc(ss).len() <= buf@.len() && buf@.subrange(
                        0,
                        states_enc(ss).len() as int,
                    ) == states_enc(ss) implies false by {
                    assert(pairs@ == states_pairs(ss));
                    let k = choose|k: int|
                        0 <= k < pairs@.len() && (#[trigger] pairs@[k]).1 > 0xffffffff;
                    assert(states_pairs(ss)[k].1 == ss[k].state as u64);
                }
            }
            return Err(Error::Library(msg_bytes("response field out of range")));
        },
    };
    proof {
        assert(buf@.subrange(0, p3 as int) =~= buf@.subrange(0, p0 as int) + buf@.subrange(
            p0 as int,
            p1 as int,
        ) + buf@.subrange(p1 as int, p2 as int) + buf@.subrange(p2 as int, p3 as int));
        assert(buf@.subrange(0, p3 as int) =~= states_enc(states@));
        assert forall|ss: Seq<State>| #![trigger states_enc(ss)]
            states_enc(ss).len() <= buf@.len() && buf@.subrange(0, states_enc(ss).len() as int)
                == states_enc(ss) implies ss == states@ && states_enc(ss).len() == p3 by {
            assert(states_pairs(ss) == pairs@);
            assert(ss.len() == states_pairs(ss).len());
            assert forall|k: int| 0 <= k < ss.len() implies ss[k] == states@[k] by {
                assert(states_pairs(ss)[k] == (ss[k].tid, ss[k].state as u64));
            }
            assert(ss =~= states@);
        }
    }
    Ok((States { states }, p3))
}

} // verus!