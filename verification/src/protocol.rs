//! The wire protocol: message types, tag sets, and frame codecs.
//!
//! Every frame is a run of CBOR items.  A request frame is a type tag
//! followed by an optional body; a response frame echoes the request's tag;
//! an event frame carries an event tag, the reporting thread, and a typed
//! body.  The codecs in the submodules are exact: decoding succeeds
//! precisely on the byte images that encoding produces.

use vstd::prelude::*;

use crate::cbor::DecodeError;
use crate::errors::msg_bytes;
use crate::errors::Error;

pub mod event;
pub mod request;
pub mod response;

verus! {

/// The protocol revision this library speaks.
pub const UDI_PROTOCOL_VERSION_1: u32 = 1;

/// The debuggee's instruction-set architecture, fixed at handshake.
#[derive(Debug, Clone, Copy, PartialEq, Eq, Structural)]
pub enum Architecture {
    X86,
    X86_64,
}

/// The wire tag of an architecture.
pub open spec fn arch_tag(a: Architecture) -> u64 {
    match a {
        Architecture::X86 => 0,
        Architecture::X86_64 => 1,
    }
}

/// The wire tag of an architecture, as transmitted.
pub fn arch_code(a: Architecture) -> (c: u16)
    ensures
        c as u64 == arch_tag(a),
{
    match a {
        Architecture::X86 => 0,
        Architecture::X86_64 => 1,
    }
}

/// The architecture a wire tag names, if any.
pub fn arch_from_tag(v: u64) -> (r: Option<Architecture>)
    ensures
        r matches Some(a) ==> arch_tag(a) == v,
        v == 0 ==> r == Some(Architecture::X86),
        v == 1 ==> r == Some(Architecture::X86_64),
        v > 1 ==> r is None,
{
    if v == 0 {
        Some(Architecture::X86)
    } else if v == 1 {
        Some(Architecture::X86_64)
    } else {
        None
    }
}

/// A machine register, spanning both supported architectures.  Register
/// identifiers are numbered densely on the wire.
#[allow(non_camel_case_types)]
#[derive(Debug, Clone, Copy, PartialEq, Eq, Structural)]
pub enum Register {
    X86_MIN,
    X86_GS,
    X86_FS,
    X86_ES,
    X86_DS,
    X86_EDI,
    X86_ESI,
    X86_EBP,
    X86_ESP,
    X86_EBX,
    X86_EDX,
    X86_ECX,
    X86_EAX,
    X86_CS,
    X86_SS,
    X86_EIP,
    X86_FLAGS,
    X86_ST0,
    X86_ST1,
    X86_ST2,
    X86_ST3,
    X86_ST4,
    X86_ST5,
    X86_ST6,
    X86_ST7,
    X86_MAX,
    X86_64_MIN,
    X86_64_R8,
    X86_64_R9,
    X86_64_R10,
    X86_64_R11,
    X86_64_R12,
    X86_64_R13,
    X86_64_R14,
    X86_64_R15,
    X86_64_RDI,
    X86_64_RSI,
    X86_64_RBP,
    X86_64_RBX,
    X86_64_RDX,
    X86_64_RAX,
    X86_64_RCX,
    X86_64_RSP,
    X86_64_RIP,
    X86_64_CSGSFS,
    X86_64_FLAGS,
    X86_64_ST0,
    X86_64_ST1,
    X86_64_ST2,
    X86_64_ST3,
    X86_64_ST4,
    X86_64_ST5,
    X86_64_ST6,
    X86_64_ST7,
    X86_64_XMM0,
    X86_64_XMM1,
    X86_64_XMM2,
    X86_64_XMM3,
    X86_64_XMM4,
    X86_64_XMM5,
    X86_64_XMM6,
    X86_64_XMM7,
    X86_64_XMM8,
    X86_64_XMM9,
    X86_64_XMM10,
    X86_64_XMM11,
    X86_64_XMM12,
    X86_64_XMM13,
    X86_64_XMM14,
    X86_64_XMM15,
    X86_64_MAX,
}

/// The wire identifier of a register.
pub open spec fn register_tag(r: Register) -> u64 {
    match r {
        Register::X86_MIN => 0,
        Register::X86_GS => 1,
        Register::X86_FS => 2,
        Register::X86_ES => 3,
        Register::X86_DS => 4,
        Register::X86_EDI => 5,
        Register::X86_ESI => 6,
        Register::X86_EBP => 7,
        Register::X86_ESP => 8,
        Register::X86_EBX => 9,
        Register::X86_EDX => 10,
        Register::X86_ECX => 11,
        Register::X86_EAX => 12,
        Register::X86_CS => 13,
        Register::X86_SS => 14,
        Register::X86_EIP => 15,
        Register::X86_FLAGS => 16,
        Register::X86_ST0 => 17,
        Register::X86_ST1 => 18,
        Register::X86_ST2 => 19,
        Register::X86_ST3 => 20,
        Register::X86_ST4 => 21,
        Register::X86_ST5 => 22,
        Register::X86_ST6 => 23,
        Register::X86_ST7 => 24,
        Register::X86_MAX => 25,
        Register::X86_64_MIN => 26,
        Register::X86_64_R8 => 27,
        Register::X86_64_R9 => 28,
        Register::X86_64_R10 => 29,
        Register::X86_64_R11 => 30,
        Register::X86_64_R12 => 31,
        Register::X86_64_R13 => 32,
        Register::X86_64_R14 => 33,
        Register::X86_64_R15 => 34,
        Register::X86_64_RDI => 35,
        Register::X86_64_RSI => 36,
        Register::X86_64_RBP => 37,
        Register::X86_64_RBX => 38,
        Register::X86_64_RDX => 39,
        Register::X86_64_RAX => 40,
        Register::X86_64_RCX => 41,
        Register::X86_64_RSP => 42,
        Register::X86_64_RIP => 43,
        Register::X86_64_CSGSFS => 44,
        Register::X86_64_FLAGS => 45,
        Register::X86_64_ST0 => 46,
        Register::X86_64_ST1 => 47,
        Register::X86_64_ST2 => 48,
        Register::X86_64_ST3 => 49,
        Register::X86_64_ST4 => 50,
        Register::X86_64_ST5 => 51,
        Register::X86_64_ST6 => 52,
        Register::X86_64_ST7 => 53,
        Register::X86_64_XMM0 => 54,
        Register::X86_64_XMM1 => 55,
        Register::X86_64_XMM2 => 56,
        Register::X86_64_XMM3 => 57,
        Register::X86_64_XMM4 => 58,
        Register::X86_64_XMM5 => 59,
        Register::X86_64_XMM6 => 60,
        Register::X86_64_XMM7 => 61,
        Register::X86_64_XMM8 => 62,
        Register::X86_64_XMM9 => 63,
        Register::X86_64_XMM10 => 64,
        Register::X86_64_XMM11 => 65,
        Register::X86_64_XMM12 => 66,
        Register::X86_64_XMM13 => 67,
        Register::X86_64_XMM14 => 68,
        Register::X86_64_XMM15 => 69,
        Register::X86_64_MAX => 70,
    }
}

/// The wire identifier of a register, as transmitted.
pub fn register_code(r: Register) -> (c: u32)
    ensures
        c as u64 == register_tag(r),
{
    match r {
        Register::X86_MIN => 0,
        Register::X86_GS => 1,
        Register::X86_FS => 2,
        Register::X86_ES => 3,
        Register::X86_DS => 4,
        Register::X86_EDI => 5,
        Register::X86_ESI => 6,
        Register::X86_EBP => 7,
        Register::X86_ESP => 8,
        Register::X86_EBX => 9,
        Register::X86_EDX => 10,
        Register::X86_ECX => 11,
        Register::X86_EAX => 12,
        Register::X86_CS => 13,
        Register::X86_SS => 14,
        Register::X86_EIP => 15,
        Register::X86_FLAGS => 16,
        Register::X86_ST0 => 17,
        Register::X86_ST1 => 18,
        Register::X86_ST2 => 19,
        Register::X86_ST3 => 20,
        Register::X86_ST4 => 21,
        Register::X86_ST5 => 22,
        Register::X86_ST6 => 23,
        Register::X86_ST7 => 24,
        Register::X86_MAX => 25,
        Register::X86_64_MIN => 26,
        Register::X86_64_R8 => 27,
        Register::X86_64_R9 => 28,
        Register::X86_64_R10 => 29,
        Register::X86_64_R11 => 30,
        Register::X86_64_R12 => 31,
        Register::X86_64_R13 => 32,
        Register::X86_64_R14 => 33,
        Register::X86_64_R15 => 34,
        Register::X86_64_RDI => 35,
        Register::X86_64_RSI => 36,
        Register::X86_64_RBP => 37,
        Register::X86_64_RBX => 38,
        Register::X86_64_RDX => 39,
        Register::X86_64_RAX => 40,
        Register::X86_64_RCX => 41,
        Register::X86_64_RSP => 42,
        Register::X86_64_RIP => 43,
        Register::X86_64_CSGSFS => 44,
        Register::X86_64_FLAGS => 45,
        Register::X86_64_ST0 => 46,
        Register::X86_64_ST1 => 47,
        Register::X86_64_ST2 => 48,
        Register::X86_64_ST3 => 49,
        Register::X86_64_ST4 => 50,
        Register::X86_64_ST5 => 51,
        Register::X86_64_ST6 => 52,
        Register::X86_64_ST7 => 53,
        Register::X86_64_XMM0 => 54,
        Register::X86_64_XMM1 => 55,
        Register::X86_64_XMM2 => 56,
        Register::X86_64_XMM3 => 57,
        Register::X86_64_XMM4 => 58,
        Register::X86_64_XMM5 => 59,
        Register::X86_64_XMM6 => 60,
        Register::X86_64_XMM7 => 61,
        Register::X86_64_XMM8 => 62,
        Register::X86_64_XMM9 => 63,
        Register::X86_64_XMM10 => 64,
        Register::X86_64_XMM11 => 65,
        Register::X86_64_XMM12 => 66,
        Register::X86_64_XMM13 => 67,
        Register::X86_64_XMM14 => 68,
        Register::X86_64_XMM15 => 69,
        Register::X86_64_MAX => 70,
    }
}

/// The register a wire identifier names; identifiers outside the dense
/// range are unknown and must fail decoding.
pub fn register_from_tag(v: u32) -> (r: Option<Register>)
    ensures
        r matches Some(reg) ==> register_tag(reg) == v as u64,
        r is Some <==> v <= 70,
{
    match v {
        0 => Some(Register::X86_MIN),
        1 => Some(Register::X86_GS),
        2 => Some(Register::X86_FS),
        3 => Some(Register::X86_ES),
        4 => Some(Register::X86_DS),
        5 => Some(Register::X86_EDI),
        6 => Some(Register::X86_ESI),
        7 => Some(Register::X86_EBP),
        8 => Some(Register::X86_ESP),
        9 => Some(Register::X86_EBX),
        10 => Some(Register::X86_EDX),
        11 => Some(Register::X86_ECX),
        12 => Some(Register::X86_EAX),
        13 => Some(Register::X86_CS),
        14 => Some(Register::X86_SS),
        15 => Some(Register::X86_EIP),
        16 => Some(Register::X86_FLAGS),
        17 => Some(Register::X86_ST0),
        18 => Some(Register::X86_ST1),
        19 => Some(Register::X86_ST2),
        20 => Some(Register::X86_ST3),
        21 => Some(Register::X86_ST4),
        22 => Some(Register::X86_ST5),
        23 => Some(Register::X86_ST6),
        24 => Some(Register::X86_ST7),
        25 => Some(Register::X86_MAX),
        26 => Some(Register::X86_64_MIN),
        27 => Some(Register::X86_64_R8),
        28 => Some(Register::X86_64_R9),
        29 => Some(Register::X86_64_R10),
        30 => Some(Register::X86_64_R11),
        31 => Some(Register::X86_64_R12),
        32 => Some(Register::X86_64_R13),
        33 => Some(Register::X86_64_R14),
        34 => Some(Register::X86_64_R15),
        35 => Some(Register::X86_64_RDI),
        36 => Some(Register::X86_64_RSI),
        37 => Some(Register::X86_64_RBP),
        38 => Some(Register::X86_64_RBX),
        39 => Some(Register::X86_64_RDX),
        40 => Some(Register::X86_64_RAX),
        41 => Some(Register::X86_64_RCX),
        42 => Some(Register::X86_64_RSP),
        43 => Some(Register::X86_64_RIP),
        44 => Some(Register::X86_64_CSGSFS),
        45 => Some(Register::X86_64_FLAGS),
        46 => Some(Register::X86_64_ST0),
        47 => Some(Register::X86_64_ST1),
        48 => Some(Register::X86_64_ST2),
        49 => Some(Register::X86_64_ST3),
        50 => Some(Register::X86_64_ST4),
        51 => Some(Register::X86_64_ST5),
        52 => Some(Register::X86_64_ST6),
        53 => Some(Register::X86_64_ST7),
        54 => Some(Register::X86_64_XMM0),
        55 => Some(Register::X86_64_XMM1),
        56 => Some(Register::X86_64_XMM2),
        57 => Some(Register::X86_64_XMM3),
        58 => Some(Register::X86_64_XMM4),
        59 => Some(Register::X86_64_XMM5),
        60 => Some(Register::X86_64_XMM6),
        61 => Some(Register::X86_64_XMM7),
        62 => Some(Register::X86_64_XMM8),
        63 => Some(Register::X86_64_XMM9),
        64 => Some(Register::X86_64_XMM10),
        65 => Some(Register::X86_64_XMM11),
        66 => Some(Register::X86_64_XMM12),
        67 => Some(Register::X86_64_XMM13),
        68 => Some(Register::X86_64_XMM14),
        69 => Some(Register::X86_64_XMM15),
        70 => Some(Register::X86_64_MAX),
        _ => None,
    }
}

/// How reading an event frame can fail: the stream ended cleanly or
/// mid-frame, or the frame violates the protocol.
#[derive(Debug)]
pub enum EventReadError {
    /// The bytes end before the frame does: nothing or only part of a frame
    /// has arrived.  At a frame boundary this is the channel's end-of-file,
    /// the canonical sign that the debuggee has torn down.
    Eof,
    /// The frame violates the protocol.
    Udi(Error),
}

/// Decodes one event frame from the start of `buf`, returning the frame and
/// its length.  Succeeds exactly on the byte images that
/// `event::encode_event` produces; a buffer that ends mid-frame reads as
/// `Eof`, and a byte that contradicts the protocol as a library error.
pub fn read_event(buf: &[u8]) -> (r: Result<(event::EventMessage, usize), EventReadError>)
    ensures
        r matches Ok(t) ==> t.1 <= buf@.len() && buf@.subrange(0, t.1 as int) == event::event_wire(
            t.0,
        ),
        forall|m: event::EventMessage| #![trigger event::event_wire(m)]
            event::event_wire(m).len() <= buf@.len() && buf@.subrange(
                0,
                event::event_wire(m).len() as int,
            ) == event::event_wire(m) ==> (r matches Ok(t) && event::message_eq(t.0, m) && t.1
                == event::event_wire(m).len()),
        r matches Err(e) ==> e matches EventReadError::Udi(x) ==> x matches Error::Library(_),
{
    match event::parse_event(buf) {
        Ok(t) => Ok(t),
        Err(DecodeError::Truncated) => Err(EventReadError::Eof),
        Err(DecodeError::Malformed) => Err(
            EventReadError::Udi(Error::Library(msg_bytes("malformed event frame"))),
        ),
    }
}

} // verus!
