//! Event frames: an event tag, the reporting thread, then a typed body.

use vstd::prelude::*;
use vstd::string::StringSliceAdditionalSpecFns;

use crate::cbor::head_enc;
use crate::cbor::lemma_prefix_match;
use crate::cbor::lemma_split3;
use crate::cbor::map1_i32_enc;
use crate::cbor::map1_tstr_enc;
use crate::cbor::map1_u64_enc;
use crate::cbor::map2_u64_u64_enc;
use crate::cbor::parse_expect_head;
use crate::cbor::parse_key;
use crate::cbor::parse_map1_i32;
use crate::cbor::parse_map1_tstr;
use crate::cbor::parse_map1_u64;
use crate::cbor::parse_map2_u64_u64;
use crate::cbor::parse_tstr;
use crate::cbor::parse_tstr_arr;
use crate::cbor::parse_uint;
use crate::cbor::push_head;
use crate::cbor::push_map1_i32;
use crate::cbor::push_map1_tstr;
use crate::cbor::push_map1_u64;
use crate::cbor::push_map2_u64_u64;
use crate::cbor::push_tstr;
use crate::cbor::push_tstr_arr;
use crate::cbor::push_uint;
use crate::cbor::tstr_arr_enc;
use crate::cbor::tstr_enc;
use crate::cbor::uenc;
use crate::cbor::DecodeError;

verus! {

/// The event types, numbered on the wire in this order.
#[derive(Debug, Clone, Copy, PartialEq, Eq, Structural)]
pub enum Type {
    Unknown,
    Error,
    Signal,
    Breakpoint,
    ThreadCreate,
    ThreadDeath,
    ProcessExit,
    ProcessFork,
    ProcessExec,
    SingleStep,
    ProcessCleanup,
}

/// The wire tag of an event type.
pub open spec fn event_tag(t: Type) -> u64 {
    match t {
        Type::Unknown => 0,
        Type::Error => 1,
        Type::Signal => 2,
        Type::Breakpoint => 3,
        Type::ThreadCreate => 4,
        Type::ThreadDeath => 5,
        Type::ProcessExit => 6,
        Type::ProcessFork => 7,
        Type::ProcessExec => 8,
        Type::SingleStep => 9,
        Type::ProcessCleanup => 10,
    }
}

/// The wire tag of an event type, as transmitted.
pub fn event_code(t: Type) -> (c: u16)
    ensures
        c as u64 == event_tag(t),
{
    match t {
        Type::Unknown => 0,
        Type::Error => 1,
        Type::Signal => 2,
        Type::Breakpoint => 3,
        Type::ThreadCreate => 4,
        Type::ThreadDeath => 5,
        Type::ProcessExit => 6,
        Type::ProcessFork => 7,
        Type::ProcessExec => 8,
        Type::SingleStep => 9,
        Type::ProcessCleanup => 10,
    }
}

/// The event type a wire tag names, if any.
pub open spec fn spec_event_from_tag(v: u64) -> Option<Type> {
    if v == 0 {
        Some(Type::Unknown)
    } else if v == 1 {
        Some(Type::Error)
    } else if v == 2 {
        Some(Type::Signal)
    } else if v == 3 {
        Some(Type::Breakpoint)
    } else if v == 4 {
        Some(Type::ThreadCreate)
    } else if v == 5 {
        Some(Type::ThreadDeath)
    } else if v == 6 {
        Some(Type::ProcessExit)
    } else if v == 7 {
        Some(Type::ProcessFork)
    } else if v == 8 {
        Some(Type::ProcessExec)
    } else if v == 9 {
        Some(Type::SingleStep)
    } else if v == 10 {
        Some(Type::ProcessCleanup)
    } else {
        None
    }
}

/// The event type a wire tag names, if any.
pub fn event_from_tag(v: u64) -> (r: Option<Type>)
    ensures
        r == spec_event_from_tag(v),
{
    if v == 0 {
        Some(Type::Unknown)
    } else if v == 1 {
        Some(Type::Error)
    } else if v == 2 {
        Some(Type::Signal)
    } else if v == 3 {
        Some(Type::Breakpoint)
    } else if v == 4 {
        Some(Type::ThreadCreate)
    } else if v == 5 {
        Some(Type::ThreadDeath)
    } else if v == 6 {
        Some(Type::ProcessExit)
    } else if v == 7 {
        Some(Type::ProcessFork)
    } else if v == 8 {
        Some(Type::ProcessExec)
    } else if v == 9 {
        Some(Type::SingleStep)
    } else if v == 10 {
        Some(Type::ProcessCleanup)
    } else {
        None
    }
}

/// The body of an agent-reported fault.
#[derive(Debug, PartialEq)]
pub struct EventError {
    pub msg: Vec<u8>,
}

/// The body of a signal event.
#[derive(Debug, Clone, Copy, PartialEq, Eq, Structural)]
pub struct Signal {
    pub addr: u64,
    pub sig: u32,
}

/// The body of a breakpoint event.
#[derive(Debug, Clone, Copy, PartialEq, Eq, Structural)]
pub struct Breakpoint {
    pub addr: u64,
}

/// The body of a thread-creation event; the payload is the new thread.
#[derive(Debug, Clone, Copy, PartialEq, Eq, Structural)]
pub struct ThreadCreate {
    pub tid: u64,
}

/// The body of a process-exit event.
#[derive(Debug, Clone, Copy, PartialEq, Eq, Structural)]
pub struct ProcessExit {
    pub code: i32,
}

/// The body of a fork event; the payload is the child process.
#[derive(Debug, Clone, Copy, PartialEq, Eq, Structural)]
pub struct ProcessFork {
    pub pid: u32,
}

/// The body of an exec event: the image and its arguments and environment.
#[derive(Debug, PartialEq)]
pub struct ProcessExec {
    pub path: Vec<u8>,
    pub argv: Vec<Vec<u8>>,
    pub envp: Vec<Vec<u8>>,
}

/// A decoded event's payload.
#[derive(Debug, PartialEq)]
pub enum EventData {
    Error { msg: Vec<u8> },
    Signal { addr: u64, sig: u32 },
    Breakpoint { addr: u64 },
    ThreadCreate { tid: u64 },
    ThreadDeath,
    ProcessExit { code: i32 },
    ProcessFork { pid: u32 },
    ProcessExec { path: Vec<u8>, argv: Vec<Vec<u8>>, envp: Vec<Vec<u8>> },
    SingleStep,
    ProcessCleanup,
}

/// A decoded event frame: the reporting thread and the payload.
#[derive(Debug, PartialEq)]
pub struct EventMessage {
    pub tid: u64,
    pub data: EventData,
}

/// The event type of a payload.
pub open spec fn event_typ(d: EventData) -> Type {
    match d {
        EventData::Error { .. } => Type::Error,
        EventData::Signal { .. } => Type::Signal,
        EventData::Breakpoint { .. } => Type::Breakpoint,
        EventData::ThreadCreate { .. } => Type::ThreadCreate,
        EventData::ThreadDeath => Type::ThreadDeath,
        EventData::ProcessExit { .. } => Type::ProcessExit,
        EventData::ProcessFork { .. } => Type::ProcessFork,
        EventData::ProcessExec { .. } => Type::ProcessExec,
        EventData::SingleStep => Type::SingleStep,
        EventData::ProcessCleanup => Type::ProcessCleanup,
    }
}

/// The wire image of an exec event's body.
pub open spec fn exec_body_enc(path: Seq<u8>, argv: Seq<Seq<u8>>, envp: Seq<Seq<u8>>) -> Seq<u8> {
    head_enc(5, 3) + tstr_enc(("path").spec_bytes()) + tstr_enc(path) + tstr_enc(
        ("argv").spec_bytes(),
    ) + tstr_arr_enc(argv) + tstr_enc(("envp").spec_bytes()) + tstr_arr_enc(envp)
}

/// The wire image of a payload; empty for the body-less event types.
pub open spec fn event_body(d: EventData) -> Seq<u8> {
    match d {
        EventData::Error { msg } => map1_tstr_enc(("msg").spec_bytes(), msg@),
        EventData::Signal { addr, sig } => map2_u64_u64_enc(
            ("addr").spec_bytes(),
            addr,
            ("sig").spec_bytes(),
            sig as u64,
        ),
        EventData::Breakpoint { addr } => map1_u64_enc(("addr").spec_bytes(), addr),
        EventData::ThreadCreate { tid } => map1_u64_enc(("tid").spec_bytes(), tid),
        EventData::ThreadDeath => Seq::empty(),
        EventData::ProcessExit { code } => map1_i32_enc(("code").spec_bytes(), code),
        EventData::ProcessFork { pid } => map1_u64_enc(("pid").spec_bytes(), pid as u64),
        EventData::ProcessExec { path, argv, envp } => exec_body_enc(
            path@,
            argv.deep_view(),
            envp.deep_view(),
        ),
        EventData::SingleStep => Seq::empty(),
        EventData::ProcessCleanup => Seq::empty(),
    }
}

/// The full wire image of an event frame.
pub open spec fn event_wire(m: EventMessage) -> Seq<u8> {
    uenc(event_tag(event_typ(m.data))) + uenc(m.tid) + event_body(m.data)
}

/// Equality of payloads up to buffer contents: carried byte buffers are
/// compared by their contents.
pub open spec fn event_eq(a: EventData, b: EventData) -> bool {
    match (a, b) {
        (EventData::Error { msg: m1 }, EventData::Error { msg: m2 }) => m1@ == m2@,
        (
            EventData::ProcessExec { path: p1, argv: a1, envp: e1 },
            EventData::ProcessExec { path: p2, argv: a2, envp: e2 },
        ) => p1@ == p2@ && a1.deep_view() == a2.deep_view() && e1.deep_view() == e2.deep_view(),
        _ => a == b,
    }
}

/// Equality of event frames up to buffer contents.
pub open spec fn message_eq(a: EventMessage, b: EventMessage) -> bool {
    a.tid == b.tid && event_eq(a.data, b.data)
}

/// Encodes one event frame.
pub fn encode_event(m: &EventMessage) -> (out: Vec<u8>)
    ensures
        out@ == event_wire(*m),
{
    let mut out: Vec<u8> = Vec::new();
    match &m.data {
        EventData::Error { msg } => {
            push_uint(&mut out, 1);
            push_uint(&mut out, m.tid);
            push_map1_tstr(&mut out, "msg".as_bytes(), msg.as_slice());
        },
        EventData::Signal { addr, sig } => {
            push_uint(&mut out, 2);
            push_uint(&mut out, m.tid);
            push_map2_u64_u64(&mut out, "addr".as_bytes(), *addr, "sig".as_bytes(), *sig as u64);
        },
        EventData::Breakpoint { addr } => {
            push_uint(&mut out, 3);
            push_uint(&mut out, m.tid);
            push_map1_u64(&mut out, "addr".as_bytes(), *addr);
        },
        EventData::ThreadCreate { tid } => {
            push_uint(&mut out, 4);
            push_uint(&mut out, m.tid);
            push_map1_u64(&mut out, "tid".as_bytes(), *tid);
        },
        EventData::ThreadDeath => {
            push_uint(&mut out, 5);
            push_uint(&mut out, m.tid);
        },
        EventData::ProcessExit { code } => {
            push_uint(&mut out, 6);
            push_uint(&mut out, m.tid);
            push_map1_i32(&mut out, "code".as_bytes(), *code);
        },
        EventData::ProcessFork { pid } => {
            push_uint(&mut out, 7);
            push_uint(&mut out, m.tid);
            push_map1_u64(&mut out, "pid".as_bytes(), *pid as u64);
        },
        EventData::ProcessExec { path, argv, envp } => {
            push_uint(&mut out, 8);
            push_uint(&mut out, m.tid);
            push_head(&mut out, 5, 3);
            push_tstr(&mut out, "path".as_bytes());
            push_tstr(&mut out, path.as_slice());
            push_tstr(&mut out, "argv".as_bytes());
            push_tstr_arr(&mut out, argv);
            push_tstr(&mut out, "envp".as_bytes());
            push_tstr_arr(&mut out, envp);
        },
        EventData::SingleStep => {
            push_uint(&mut out, 9);
            push_uint(&mut out, m.tid);
        },
        EventData::ProcessCleanup => {
            push_uint(&mut out, 10);
            push_uint(&mut out, m.tid);
        },
    }
    proof {
        assert(out@ =~= event_wire(*m));
    }
    out
}

/// Decodes an exec event's body at `pos`: succeeds exactly on the byte
/// images `exec_body_enc` produces.
#[verifier::rlimit(100)]
fn parse_exec_body(buf: &[u8], pos: usize) -> (r: Result<
    (Vec<u8>, Vec<Vec<u8>>, Vec<Vec<u8>>, usize),
    DecodeError,
>)
    ensures
        r matches Ok(t) ==> pos + exec_body_enc(t.0@, t.1.deep_view(), t.2.deep_view()).len() == t.3
            && t.3 <= buf@.len() && buf@.subrange(pos as int, t.3 as int) == exec_body_enc(
            t.0@,
            t.1.deep_view(),
            t.2.deep_view(),
        ),
        forall|path: Seq<u8>, argv: Seq<Seq<u8>>, envp: Seq<Seq<u8>>|
            #![trigger exec_body_enc(path, argv, envp)]
            pos + exec_body_enc(path, argv, envp).len() <= buf@.len() && buf@.subrange(
                pos as int,
                pos + exec_body_enc(path, argv, envp).len(),
            ) == exec_body_enc(path, argv, envp) ==> (r matches Ok(t) && t.0@ == path
                && t.1.deep_view() == argv && t.2.deep_view() == envp && t.3 == pos
                + exec_body_enc(path, argv, envp).len()),
{
    proof {
        assert forall|path: Seq<u8>, argv: Seq<Seq<u8>>, envp: Seq<Seq<u8>>|
            #![trigger exec_body_enc(path, argv, envp)]
            pos + exec_body_enc(path, argv, envp).len() <= buf@.len() && buf@.subrange(
                pos as int,
                pos + exec_body_enc(path, argv, envp).len(),
            ) == exec_body_enc(path, argv, envp) implies ({
            let a1 = head_enc(5, 3);
            let a2 = tstr_enc(("path").spec_bytes());
            let a3 = tstr_enc(path);
            let a4 = tstr_enc(("argv").spec_bytes());
            let a5 = tstr_arr_enc(argv);
            let a6 = tstr_enc(("envp").spec_bytes());
            let a7 = tstr_arr_enc(envp);
            &&& buf@.subrange(pos as int, pos + a1.len()) == a1
            &&& buf@.subrange(pos + a1.len(), pos + a1.len() + a2.len()) == a2
            &&& buf@.subrange(pos + a1.len() + a2.len(), pos + a1.len() + a2.len() + a3.len())
                == a3
            &&& buf@.subrange(
                pos + a1.len() + a2.len() + a3.len(),
                pos + a1.len() + a2.len() + a3.len() + a4.len(),
            ) == a4
            &&& buf@.subrange(
                pos + a1.len() + a2.len() + a3.len() + a4.len(),
                pos + a1.len() + a2.len() + a3.len() + a4.len() + a5.len(),
            ) == a5
            &&& buf@.subrange(
                pos + a1.len() + a2.len() + a3.len() + a4.len() + a5.len(),
                pos + a1.len() + a2.len() + a3.len() + a4.len() + a5.len() + a6.len(),
            ) == a6
            &&& buf@.subrange(
                pos + a1.len() + a2.len() + a3.len() + a4.len() + a5.len() + a6.len(),
                pos + exec_body_enc(path, argv, envp).len(),
            ) == a7
        }) by {
            let a1 = head_enc(5, 3);
            let a2 = tstr_enc(("path").spec_bytes());
            let a3 = tstr_enc(path);
            let a4 = tstr_enc(("argv").spec_bytes());
            let a5 = tstr_arr_enc(argv);
            let a6 = tstr_enc(("envp").spec_bytes());
            let a7 = tstr_arr_enc(envp);
            assert(exec_body_enc(path, argv, envp) =~= a1 + (a2 + (a3 + (a4 + (a5 + (a6
                + a7))))));
            lemma_prefix_match(buf@, pos as int, a1, a2 + (a3 + (a4 + (a5 + (a6 + a7)))));
            lemma_prefix_match(buf@, pos + a1.len(), a2, a3 + (a4 + (a5 + (a6 + a7))));
            lemma_prefix_match(buf@, pos + a1.len() + a2.len(), a3, a4 + (a5 + (a6 + a7)));
            lemma_prefix_match(buf@, pos + a1.len() + a2.len() + a3.len(), a4, a5 + (a6 + a7));
            lemma_prefix_match(
                buf@,
                pos + a1.len() + a2.len() + a3.len() + a4.len(),
                a5,
                a6 + a7,
            );
            lemma_prefix_match(
                buf@,
                pos + a1.len() + a2.len() + a3.len() + a4.len() + a5.len(),
                a6,
                a7,
            );
        }
    }
    let p1 = match parse_expect_head(buf, pos, 5, 3) {
        Ok(p) => p,
        Err(e) => {
            return Err(e);
        },
    };
    let p2 = match parse_key(buf, p1, "path".as_bytes()) {
        Ok(p) => p,
        Err(e) => {
            return Err(e);
        },
    };
    let (path, p3) = match parse_tstr(buf, p2) {
        Ok(t) => t,
        Err(e) => {
            return Err(e);
        },
    };
    let p4 = match parse_key(buf, p3, "argv".as_bytes()) {
        Ok(p) => p,
        Err(e) => {
            return Err(e);
        },
    };
    let (argv, p5) = match parse_tstr_arr(buf, p4) {
        Ok(t) => t,
        Err(e) => {
            return Err(e);
        },
    };
    let p6 = match parse_key(buf, p5, "envp".as_bytes()) {
        Ok(p) => p,
        Err(e) => {
            return Err(e);
        },
    };
    let (envp, p7) = match parse_tstr_arr(buf, p6) {
        Ok(t) => t,
        Err(e) => {
            return Err(e);
        },
    };
    proof {
        assert(buf@.subrange(pos as int, p7 as int) =~= buf@.subrange(pos as int, p1 as int)
            + buf@.subrange(p1 as int, p2 as int) + buf@.subrange(p2 as int, p3 as int)
            + buf@.subrange(p3 as int, p4 as int) + buf@.subrange(p4 as int, p5 as int)
            + buf@.subrange(p5 as int, p6 as int) + buf@.subrange(p6 as int, p7 as int));
        assert(buf@.subrange(pos as int, p7 as int) =~= exec_body_enc(
            path@,
            argv.deep_view(),
            envp.deep_view(),
        ));
    }
    Ok((path, argv, envp, p7))
}

/// Decodes one event frame from the start of `buf`, returning the frame
/// and its length.  Succeeds exactly on the byte images that `encode_event`
/// produces: for every event frame `m`, a buffer beginning with
/// `event_wire(m)` decodes to `m`, up to buffer contents.
#[verifier::rlimit(100)]
pub fn parse_event(buf: &[u8]) -> (r: Result<(EventMessage, usize), DecodeError>)
    ensures
        r matches Ok(t) ==> t.1 <= buf@.len() && buf@.subrange(0, t.1 as int) == event_wire(t.0),
        forall|m: EventMessage| #![trigger event_wire(m)]
            event_wire(m).len() <= buf@.len() && buf@.subrange(0, event_wire(m).len() as int)
                == event_wire(m) ==> (r matches Ok(t) && message_eq(t.0, m) && t.1 == event_wire(
                m,
            ).len()),
{
    proof {
        assert forall|d: EventData| #![trigger event_typ(d)]
            event_typ(d) != Type::Unknown && (event_typ(d) == Type::Error ==> d matches
                EventData::Error { .. }) && (event_typ(d) == Type::Signal ==> d matches
                EventData::Signal { .. }) && (event_typ(d) == Type::Breakpoint ==> d matches
                EventData::Breakpoint { .. }) && (event_typ(d) == Type::ThreadCreate ==> d matches
                EventData::ThreadCreate { .. }) && (event_typ(d) == Type::ThreadDeath ==> d matches
                EventData::ThreadDeath) && (event_typ(d) == Type::ProcessExit ==> d matches
                EventData::ProcessExit { .. }) && (event_typ(d) == Type::ProcessFork ==> d matches
                EventData::ProcessFork { .. }) && (event_typ(d) == Type::ProcessExec ==> d matches
                EventData::ProcessExec { .. }) && (event_typ(d) == Type::SingleStep ==> d matches
                EventData::SingleStep) && (event_typ(d) == Type::ProcessCleanup ==> d matches
                EventData::ProcessCleanup) by {
            match d {
                EventData::Error { .. } => {},
                EventData::Signal { .. } => {},
                EventData::Breakpoint { .. } => {},
                EventData::ThreadCreate { .. } => {},
                EventData::ThreadDeath => {},
                EventData::ProcessExit { .. } => {},
                EventData::ProcessFork { .. } => {},
                EventData::ProcessExec { .. } => {},
                EventData::SingleStep => {},
                EventData::ProcessCleanup => {},
            }
        }
        assert forall|m: EventMessage| #![trigger event_wire(m)]
            event_wire(m).len() <= buf@.len() && buf@.subrange(0, event_wire(m).len() as int)
                == event_wire(m) implies buf@.subrange(
            0,
            uenc(event_tag(event_typ(m.data))).len() as int,
        ) == uenc(event_tag(event_typ(m.data))) && buf@.subrange(
            uenc(event_tag(event_typ(m.data))).len() as int,
            (uenc(event_tag(event_typ(m.data))).len() + uenc(m.tid).len()) as int,
        ) == uenc(m.tid) && buf@.subrange(
            (uenc(event_tag(event_typ(m.data))).len() + uenc(m.tid).len()) as int,
            event_wire(m).len() as int,
        ) == event_body(m.data) by {
            lemma_split3(
                buf@,
                0,
                uenc(event_tag(event_typ(m.data))),
                uenc(m.tid),
                event_body(m.data),
            );
        }
    }
    let (tag, p1) = match parse_uint(buf, 0) {
        Ok(t) => t,
        Err(e) => {
            return Err(e);
        },
    };
    let (tid, p2) = match parse_uint(buf, p1) {
        Ok(t) => t,
        Err(e) => {
            return Err(e);
        },
    };
    let t = match event_from_tag(tag) {
        Some(t) => t,
        None => {
            return Err(DecodeError::Malformed);
        },
    };
    match t {
        Type::Unknown => Err(DecodeError::Malformed),
        Type::ThreadDeath => {
            proof {
                assert(buf@.subrange(0, p2 as int) =~= buf@.subrange(0, p1 as int) + buf@.subrange(
                    p1 as int,
                    p2 as int,
                ));
            }
            Ok((EventMessage { tid, data: EventData::ThreadDeath }, p2))
        },
        Type::SingleStep => {
            proof {
                assert(buf@.subrange(0, p2 as int) =~= buf@.subrange(0, p1 as int) + buf@.subrange(
                    p1 as int,
                    p2 as int,
                ));
            }
            Ok((EventMessage { tid, data: EventData::SingleStep }, p2))
        },
        Type::ProcessCleanup => {
            proof {
                assert(buf@.subrange(0, p2 as int) =~= buf@.subrange(0, p1 as int) + buf@.subrange(
                    p1 as int,
                    p2 as int,
                ));
            }
            Ok((EventMessage { tid, data: EventData::ProcessCleanup }, p2))
        },
        Type::Error => {
            match parse_map1_tstr(buf, p2, "msg".as_bytes()) {
                Ok((msg, p3)) => {
                    proof {
                        assert(buf@.subrange(0, p3 as int) =~= buf@.subrange(0, p2 as int)
                            + buf@.subrange(p2 as int, p3 as int));
                        assert(buf@.subrange(0, p2 as int) =~= buf@.subrange(0, p1 as int)
                            + buf@.subrange(p1 as int, p2 as int));
                    }
                    Ok((EventMessage { tid, data: EventData::Error { msg } }, p3))
                },
                Err(e) => Err(e),
            }
        },
        Type::Signal => {
            match parse_map2_u64_u64(buf, p2, "addr".as_bytes(), "sig".as_bytes()) {
                Ok((addr, sig, p3)) => {
                    if sig > 0xffffffff {
                        Err(DecodeError::Malformed)
                    } else {
                        proof {
                            assert(buf@.subrange(0, p3 as int) =~= buf@.subrange(0, p2 as int)
                                + buf@.subrange(p2 as int, p3 as int));
                            assert(buf@.subrange(0, p2 as int) =~= buf@.subrange(0, p1 as int)
                                + buf@.subrange(p1 as int, p2 as int));
                        }
                        Ok(
                            (
                                EventMessage {
                                    tid,
                                    data: EventData::Signal { addr, sig: sig as u32 },
                                },
                                p3,
                            ),
                        )
                    }
                },
                Err(e) => Err(e),
            }
        },
        Type::Breakpoint => {
            match parse_map1_u64(buf, p2, "addr".as_bytes()) {
                Ok((addr, p3)) => {
                    proof {
                        assert(buf@.subrange(0, p3 as int) =~= buf@.subrange(0, p2 as int)
                            + buf@.subrange(p2 as int, p3 as int));
                        assert(buf@.subrange(0, p2 as int) =~= buf@.subrange(0, p1 as int)
                            + buf@.subrange(p1 as int, p2 as int));
                    }
                    Ok((EventMessage { tid, data: EventData::Breakpoint { addr } }, p3))
                },
                Err(e) => Err(e),
            }
        },
        Type::ThreadCreate => {
            match parse_map1_u64(buf, p2, "tid".as_bytes()) {
                Ok((new_tid, p3)) => {
                    proof {
                        assert(buf@.subrange(0, p3 as int) =~= buf@.subrange(0, p2 as int)
                            + buf@.subrange(p2 as int, p3 as int));
                        assert(buf@.subrange(0, p2 as int) =~= buf@.subrange(0, p1 as int)
                            + buf@.subrange(p1 as int, p2 as int));
                    }
                    Ok((EventMessage { tid, data: EventData::ThreadCreate { tid: new_tid } }, p3))
                },
                Err(e) => Err(e),
            }
        },
        Type::ProcessExit => {
            match parse_map1_i32(buf, p2, "code".as_bytes()) {
                Ok((code, p3)) => {
                    proof {
                        assert(buf@.subrange(0, p3 as int) =~= buf@.subrange(0, p2 as int)
                            + buf@.subrange(p2 as int, p3 as int));
                        assert(buf@.subrange(0, p2 as int) =~= buf@.subrange(0, p1 as int)
                            + buf@.subrange(p1 as int, p2 as int));
                    }
                    Ok((EventMessage { tid, data: EventData::ProcessExit { code } }, p3))
                },
                Err(e) => Err(e),
            }
        },
        Type::ProcessFork => {
            match parse_map1_u64(buf, p2, "pid".as_bytes()) {
                Ok((pid, p3)) => {
                    if pid > 0xffffffff {
                        Err(DecodeError::Malformed)
                    } else {
                        proof {
                            assert(buf@.subrange(0, p3 as int) =~= buf@.subrange(0, p2 as int)
                                + buf@.subrange(p2 as int, p3 as int));
                            assert(buf@.subrange(0, p2 as int) =~= buf@.subrange(0, p1 as int)
                                + buf@.subrange(p1 as int, p2 as int));
                        }
                        Ok(
                            (
                                EventMessage { tid, data: EventData::ProcessFork { pid: pid as u32 } },
                                p3,
                            ),
                        )
                    }
                },
                Err(e) => Err(e),
            }
        },
        Type::ProcessExec => {
            match parse_exec_body(buf, p2) {
                Ok((path, argv, envp, p3)) => {
                    proof {
                        assert(buf@.subrange(0, p3 as int) =~= buf@.subrange(0, p2 as int)
                            + buf@.subrange(p2 as int, p3 as int));
                        assert(buf@.subrange(0, p2 as int) =~= buf@.subrange(0, p1 as int)
                            + buf@.subrange(p1 as int, p2 as int));
                    }
                    Ok(
                        (
                            EventMessage { tid, data: EventData::ProcessExec { path, argv, envp } },
                            p3,
                        ),
                    )
                },
                Err(e) => Err(e),
            }
        },
    }
}

} // verus!
