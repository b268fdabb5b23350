//! Round trips and exact byte images of the wire codec.

use udi::protocol::event;
use udi::protocol::event::EventData;
use udi::protocol::event::EventMessage;
use udi::protocol::read_event;
use udi::protocol::request;
use udi::protocol::request::Request;
use udi::protocol::response;
use udi::protocol::register_code;
use udi::protocol::register_from_tag;
use udi::protocol::Architecture;
use udi::protocol::EventReadError;
use udi::Error;
use udi::Register;

fn roundtrip_request(frame: Vec<u8>, expect: Request) {
    let (decoded, used) = request::read_request(&frame).expect("frame must decode");
    assert_eq!(used, frame.len());
    assert_eq!(decoded, expect);
}

#[test]
fn request_round_trips() {
    roundtrip_request(
        request::serialize(&request::Init::default()),
        Request::Init(request::Init {}),
    );
    roundtrip_request(
        request::serialize(&request::Continue::new(0)),
        Request::Continue(request::Continue::new(0)),
    );
    roundtrip_request(
        request::serialize(&request::Continue::new(0xdeadbeef)),
        Request::Continue(request::Continue::new(0xdeadbeef)),
    );
    roundtrip_request(
        request::serialize(&request::ReadMemory::new(0x7fff_ffff_1234, 4096)),
        Request::ReadMemory(request::ReadMemory::new(0x7fff_ffff_1234, 4096)),
    );
    roundtrip_request(
        request::serialize(&request::WriteMemory::new(16, &[0, 1, 23, 24, 255])),
        Request::WriteMemory(request::WriteMemory::new(16, &[0, 1, 23, 24, 255])),
    );
    roundtrip_request(
        request::serialize(&request::ReadRegister::new(43)),
        Request::ReadRegister(request::ReadRegister::new(43)),
    );
    roundtrip_request(
        request::serialize(&request::WriteRegister::new(15, u64::MAX)),
        Request::WriteRegister(request::WriteRegister::new(15, u64::MAX)),
    );
    roundtrip_request(
        request::serialize(&request::State::default()),
        Request::State(request::State {}),
    );
    roundtrip_request(
        request::serialize(&request::CreateBreakpoint::new(0x400123)),
        Request::CreateBreakpoint(request::CreateBreakpoint::new(0x400123)),
    );
    roundtrip_request(
        request::serialize(&request::InstallBreakpoint::new(0x400123)),
        Request::InstallBreakpoint(request::InstallBreakpoint::new(0x400123)),
    );
    roundtrip_request(
        request::serialize(&request::RemoveBreakpoint::new(0x400123)),
        Request::RemoveBreakpoint(request::RemoveBreakpoint::new(0x400123)),
    );
    roundtrip_request(
        request::serialize(&request::DeleteBreakpoint::new(0x400123)),
        Request::DeleteBreakpoint(request::DeleteBreakpoint::new(0x400123)),
    );
    roundtrip_request(
        request::serialize(&request::ThreadSuspend::default()),
        Request::ThreadSuspend(request::ThreadSuspend {}),
    );
    roundtrip_request(
        request::serialize(&request::ThreadResume::default()),
        Request::ThreadResume(request::ThreadResume {}),
    );
    roundtrip_request(
        request::serialize(&request::NextInstruction::default()),
        Request::NextInstruction(request::NextInstruction {}),
    );
    roundtrip_request(
        request::serialize(&request::SingleStep::new(true)),
        Request::SingleStep(request::SingleStep::new(true)),
    );
    roundtrip_request(
        request::serialize(&request::SingleStep::new(false)),
        Request::SingleStep(request::SingleStep::new(false)),
    );
}

#[test]
fn continue_frame_exact_bytes() {
    // Type tag 1, then {"sig": 0}.
    let frame = request::serialize(&request::Continue::new(0));
    assert_eq!(frame, vec![0x01, 0xa1, 0x63, 0x73, 0x69, 0x67, 0x00]);
}

#[test]
fn init_request_has_empty_body() {
    let frame = request::serialize(&request::Init::default());
    assert_eq!(frame, vec![0x07]);
}

#[test]
fn request_decode_rejects_unknown_tag() {
    // Tag 16 names no request type.
    match request::read_request(&[0x10]) {
        Err(Error::Library(_)) => {}
        other => panic!("expected a library error, got {:?}", other),
    }
    // Tag 0 is Invalid: no frame of that type exists.
    match request::read_request(&[0x00]) {
        Err(Error::Library(_)) => {}
        other => panic!("expected a library error, got {:?}", other),
    }
}

#[test]
fn request_decode_rejects_truncation() {
    let frame = request::serialize(&request::ReadMemory::new(0x1234, 77));
    for cut in 0..frame.len() {
        match request::read_request(&frame[..cut]) {
            Err(Error::Io) => {}
            other => panic!("cut at {} should read as truncation, got {:?}", cut, other),
        }
    }
}

#[test]
fn request_decode_rejects_non_minimal_integers() {
    // {"sig": 0} with the zero spelled as a two-byte integer.
    let frame = vec![0x01, 0xa1, 0x63, 0x73, 0x69, 0x67, 0x18, 0x00];
    match request::read_request(&frame) {
        Err(Error::Library(_)) => {}
        other => panic!("expected a library error, got {:?}", other),
    }
}

fn roundtrip_event(msg: EventMessage) -> EventMessage {
    let frame = event::encode_event(&msg);
    let (decoded, used) = read_event(&frame).expect("event frame must decode");
    assert_eq!(used, frame.len());
    assert_eq!(decoded, msg);
    decoded
}

#[test]
fn event_round_trips() {
    roundtrip_event(EventMessage {
        tid: 7,
        data: EventData::Error {
            msg: b"something broke".to_vec(),
        },
    });
    roundtrip_event(EventMessage {
        tid: 0xabcdef,
        data: EventData::Signal {
            addr: 0x400000,
            sig: 11,
        },
    });
    roundtrip_event(EventMessage {
        tid: 1,
        data: EventData::Breakpoint { addr: 0x400123 },
    });
    roundtrip_event(EventMessage {
        tid: 1,
        data: EventData::ThreadCreate { tid: 2 },
    });
    roundtrip_event(EventMessage {
        tid: 2,
        data: EventData::ThreadDeath,
    });
    roundtrip_event(EventMessage {
        tid: 1,
        data: EventData::ProcessExit { code: 1 },
    });
    roundtrip_event(EventMessage {
        tid: 1,
        data: EventData::ProcessExit { code: -13 },
    });
    roundtrip_event(EventMessage {
        tid: 1,
        data: EventData::ProcessFork { pid: 4242 },
    });
    roundtrip_event(EventMessage {
        tid: 1,
        data: EventData::ProcessExec {
            path: b"/bin/true".to_vec(),
            argv: vec![b"true".to_vec(), b"--version".to_vec()],
            envp: vec![b"HOME=/root".to_vec()],
        },
    });
    roundtrip_event(EventMessage {
        tid: 9,
        data: EventData::SingleStep,
    });
    roundtrip_event(EventMessage {
        tid: 1,
        data: EventData::ProcessCleanup,
    });
}

#[test]
fn event_stream_decodes_in_order() {
    // Two frames concatenated on one buffer decode one after the other.
    let first = event::encode_event(&EventMessage {
        tid: 1,
        data: EventData::Breakpoint { addr: 0x1000 },
    });
    let second = event::encode_event(&EventMessage {
        tid: 2,
        data: EventData::ThreadDeath,
    });
    let mut stream = first.clone();
    stream.extend_from_slice(&second);
    let (ev1, used1) = read_event(&stream).unwrap();
    assert_eq!(used1, first.len());
    assert_eq!(ev1.data, EventData::Breakpoint { addr: 0x1000 });
    let (ev2, used2) = read_event(&stream[used1..]).unwrap();
    assert_eq!(used2, second.len());
    assert_eq!(ev2.tid, 2);
}

#[test]
fn event_empty_buffer_reads_as_eof() {
    match read_event(&[]) {
        Err(EventReadError::Eof) => {}
        other => panic!("expected end of file, got {:?}", other),
    }
}

#[test]
fn event_truncated_frame_reads_as_eof() {
    let frame = event::encode_event(&EventMessage {
        tid: 1,
        data: EventData::Signal { addr: 2, sig: 3 },
    });
    for cut in 0..frame.len() {
        match read_event(&frame[..cut]) {
            Err(EventReadError::Eof) => {}
            other => panic!("cut at {} should read as end of file, got {:?}", cut, other),
        }
    }
}

#[test]
fn event_unknown_tag_is_a_library_error() {
    // Event tag 0 is Unknown; tag 11 is out of range.
    for frame in [vec![0x00, 0x01], vec![0x0b, 0x01]] {
        match read_event(&frame) {
            Err(EventReadError::Udi(Error::Library(_))) => {}
            other => panic!("expected a library error, got {:?}", other),
        }
    }
}

#[test]
fn response_init_round_trips() {
    let init = response::Init {
        v: 1,
        arch: Architecture::X86_64,
        mt: true,
        tid: 0xc0ffee,
    };
    let frame = response::encode_init(&init);
    let (decoded, used) = response::read_init(&frame).expect("init response must decode");
    assert_eq!(used, frame.len());
    assert_eq!(decoded, init);
}

#[test]
fn response_ack_round_trips() {
    let frame = response::encode_ack(request::Type::Continue);
    let used = response::read_no_data(&frame, request::Type::Continue).unwrap();
    assert_eq!(used, frame.len());
}

#[test]
fn response_echo_must_match_request() {
    // An acknowledgement for Continue does not answer a CreateBreakpoint.
    let frame = response::encode_ack(request::Type::Continue);
    match response::read_no_data(&frame, request::Type::CreateBreakpoint) {
        Err(Error::Library(_)) => {}
        other => panic!("expected a library error, got {:?}", other),
    }
    let init_frame = response::encode_init(&response::Init {
        v: 1,
        arch: Architecture::X86,
        mt: false,
        tid: 1,
    });
    // read_init demands the Init echo, which this frame has.
    assert!(response::read_init(&init_frame).is_ok());
}

#[test]
fn response_error_carries_the_peer_message() {
    let frame = response::encode_error(request::Type::ReadMemory, b"no such mapping");
    match response::read_read_memory(&frame) {
        Err(Error::Request(msg)) => assert_eq!(msg, b"no such mapping".to_vec()),
        other => panic!("expected a request error, got {:?}", other),
    }
    // The same error frame surfaces identically on the bodyless reader.
    let frame = response::encode_error(request::Type::Continue, b"not stopped");
    match response::read_no_data(&frame, request::Type::Continue) {
        Err(Error::Request(msg)) => assert_eq!(msg, b"not stopped".to_vec()),
        other => panic!("expected a request error, got {:?}", other),
    }
}

#[test]
fn response_read_memory_round_trips() {
    let data: Vec<u8> = (0u8..=255).collect();
    let frame = response::encode_read_memory(&data);
    let (decoded, used) = response::read_read_memory(&frame).unwrap();
    assert_eq!(used, frame.len());
    assert_eq!(decoded.data, data);
}

#[test]
fn response_read_register_round_trips() {
    let frame = response::encode_read_register(0x1122334455667788);
    let (decoded, used) = response::read_read_register(&frame).unwrap();
    assert_eq!(used, frame.len());
    assert_eq!(decoded.value, 0x1122334455667788);
}

#[test]
fn response_next_instruction_round_trips() {
    let frame = response::encode_next_instruction(0x400777);
    let (decoded, _) = response::read_next_instruction(&frame).unwrap();
    assert_eq!(decoded.addr, 0x400777);
}

#[test]
fn response_single_step_round_trips() {
    for value in [false, true] {
        let frame = response::encode_single_step(value);
        let (decoded, _) = response::read_single_step(&frame).unwrap();
        assert_eq!(decoded.value, value);
    }
}

#[test]
fn response_states_round_trips() {
    let states = vec![
        response::State { tid: 1, state: 0 },
        response::State { tid: 2, state: 1 },
        response::State { tid: 3, state: 0 },
    ];
    let frame = response::encode_states(&states);
    let (decoded, used) = response::read_states(&frame).unwrap();
    assert_eq!(used, frame.len());
    assert_eq!(decoded.states, states);
    // An empty report is fine too.
    let frame = response::encode_states(&vec![]);
    let (decoded, _) = response::read_states(&frame).unwrap();
    assert!(decoded.states.is_empty());
}

#[test]
fn response_truncation_is_an_io_error() {
    let frame = response::encode_read_register(42);
    for cut in 0..frame.len() {
        match response::read_read_register(&frame[..cut]) {
            Err(Error::Io) => {}
            other => panic!("cut at {} should read as truncation, got {:?}", cut, other),
        }
    }
}

#[test]
fn register_identifiers_round_trip() {
    for reg in [
        Register::X86_MIN,
        Register::X86_EIP,
        Register::X86_MAX,
        Register::X86_64_MIN,
        Register::X86_64_RIP,
        Register::X86_64_XMM15,
        Register::X86_64_MAX,
    ] {
        let code = register_code(reg);
        assert_eq!(register_from_tag(code), Some(reg));
    }
    assert_eq!(register_code(Register::X86_64_MAX), 70);
    assert_eq!(register_from_tag(71), None);
    assert_eq!(register_from_tag(u32::MAX), None);
}
