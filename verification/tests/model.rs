//! Process and thread model behaviour, driven by synthesized frames.

use udi::create;
use udi::events;
use udi::protocol::event;
use udi::protocol::event::EventData;
use udi::protocol::event::EventMessage;
use udi::protocol::request;
use udi::protocol::response;
use udi::Architecture;
use udi::Error;
use udi::Process;
use udi::ThreadState;

fn make_process() -> Process {
    let child = create::UdiChild::new(4242, b"/tmp/udi/user");
    let init = response::Init {
        v: 1,
        arch: Architecture::X86_64,
        mt: true,
        tid: 77,
    };
    let mut process = create::initialize_process(child, &init).expect("handshake must succeed");
    let thr_frame = response::encode_init(&init);
    create::initialize_thread(&mut process, 77, &thr_frame).expect("thread handshake must succeed");
    process
}

#[test]
fn handshake_builds_a_stopped_process() {
    let process = make_process();
    assert_eq!(process.get_pid(), 4242);
    assert_eq!(process.get_architecture(), Architecture::X86_64);
    assert!(process.is_multithread_capable());
    assert!(!process.is_running());
    assert!(!process.is_terminating());
    assert!(!process.is_terminated());
    assert_eq!(process.threads().len(), 1);
    let initial = process.get_initial_thread();
    assert_eq!(initial.get_tid(), 77);
    assert!(initial.initial);
    assert_eq!(initial.get_state(), ThreadState::Running);
    assert!(!initial.get_single_step());
}

#[test]
fn handshake_refuses_a_wrong_version() {
    let child = create::UdiChild::new(1, b"/tmp/udi/user");
    let init = response::Init {
        v: 2,
        arch: Architecture::X86,
        mt: false,
        tid: 1,
    };
    match create::initialize_process(child, &init) {
        Err(Error::Library(_)) => {}
        other => panic!("expected a library error, got {:?}", other),
    }
    assert!(matches!(
        create::determine_protocol(&response::Init {
            v: 0,
            arch: Architecture::X86,
            mt: false,
            tid: 1
        }),
        Err(Error::Library(_))
    ));
}

// A model-level walk through the first scenario of a debugging session:
// continue the debuggee, observe its exit, continue again, observe cleanup.
#[test]
fn create_scenario_at_the_model() {
    let mut process = make_process();

    // Continue: the frame goes out, the acknowledgement comes back.
    let (frame, expect_response) = process.continue_process().unwrap();
    assert_eq!(frame, request::serialize(&request::Continue::new(0)));
    assert!(expect_response);
    let ack = response::encode_ack(request::Type::Continue);
    process.finish_continue(&ack).unwrap();
    assert!(process.is_running());

    // The debuggee exits with status one, reported by the initial thread.
    let exit = EventMessage {
        tid: 77,
        data: EventData::ProcessExit { code: 1 },
    };
    let ev = events::handle_event_message(&mut process, exit).unwrap();
    assert_eq!(ev.thread_index, 0);
    assert_eq!(ev.data, EventData::ProcessExit { code: 1 });
    assert!(!process.is_running());
    assert!(process.is_terminating());

    // Continue a terminating debuggee: no response is to be read, and the
    // process counts as running at once.
    let (_frame, expect_response) = process.continue_process().unwrap();
    assert!(!expect_response);
    assert!(process.is_running());

    // End of file on the events channel folds into a cleanup event.
    let ev = events::handle_event_eof(&mut process);
    assert_eq!(ev.thread_index, 0);
    assert_eq!(ev.data, EventData::ProcessCleanup);
    assert!(process.is_terminated());
}

// After cleanup is observed, every command is refused with a request error.
#[test]
fn terminated_process_refuses_commands() {
    let mut process = make_process();
    events::handle_event_eof(&mut process);
    assert!(process.is_terminated());
    assert!(matches!(process.continue_process(), Err(Error::Request(_))));
    assert!(matches!(process.create_breakpoint(0x400123), Err(Error::Request(_))));
    assert!(matches!(process.install_breakpoint(0x400123), Err(Error::Request(_))));
    assert!(matches!(process.remove_breakpoint(0x400123), Err(Error::Request(_))));
    assert!(matches!(process.delete_breakpoint(0x400123), Err(Error::Request(_))));
    assert!(matches!(process.refresh_state(), Err(Error::Request(_))));
    assert!(matches!(process.read_mem(16, 0x400123), Err(Error::Request(_))));
    assert!(matches!(process.write_mem(&[1, 2, 3], 0x400123), Err(Error::Request(_))));
    // Cached fields remain observable.
    assert_eq!(process.get_pid(), 4242);
    assert_eq!(process.threads().len(), 1);
}

// After a thread's death event, every per-thread command on it is refused.
#[test]
fn dead_thread_refuses_commands() {
    let mut process = make_process();
    let second = response::encode_init(&response::Init {
        v: 1,
        arch: Architecture::X86_64,
        mt: true,
        tid: 78,
    });
    create::initialize_thread(&mut process, 78, &second).unwrap();
    assert_eq!(process.threads().len(), 2);

    let death = EventMessage {
        tid: 78,
        data: EventData::ThreadDeath,
    };
    let ev = events::handle_event_message(&mut process, death).unwrap();
    assert_eq!(ev.thread_index, 1);

    let dead = &process.threads()[1];
    assert!(matches!(dead.suspend(), Err(Error::Request(_))));
    assert!(matches!(dead.resume(), Err(Error::Request(_))));
    assert!(matches!(dead.get_pc(), Err(Error::Request(_))));
    assert!(matches!(dead.set_single_step(true), Err(Error::Request(_))));
    assert!(matches!(dead.get_next_instruction(), Err(Error::Request(_))));
    assert!(matches!(dead.read_register(udi::Register::X86_64_RAX), Err(Error::Request(_))));
    assert!(matches!(dead.write_register(udi::Register::X86_64_RAX, 1), Err(Error::Request(_))));
    // The dead thread keeps its slot and its cached fields.
    assert_eq!(dead.get_tid(), 78);
    // The living thread still accepts commands.
    let alive = process.get_initial_thread();
    assert!(alive.suspend().is_ok());
}

// Thread slots only grow and never shift.
#[test]
fn threads_are_append_only() {
    let mut process = make_process();
    for tid in [100u64, 101, 102] {
        let frame = response::encode_init(&response::Init {
            v: 1,
            arch: Architecture::X86_64,
            mt: true,
            tid,
        });
        create::initialize_thread(&mut process, tid, &frame).unwrap();
    }
    let tids: Vec<u64> = process.threads().iter().map(|t| t.get_tid()).collect();
    assert_eq!(tids, vec![77, 100, 101, 102]);
    // A death keeps the slot.
    let death = EventMessage {
        tid: 101,
        data: EventData::ThreadDeath,
    };
    events::handle_event_message(&mut process, death).unwrap();
    let tids: Vec<u64> = process.threads().iter().map(|t| t.get_tid()).collect();
    assert_eq!(tids, vec![77, 100, 101, 102]);
}

#[test]
fn event_for_an_unknown_thread_is_a_library_error() {
    let mut process = make_process();
    let msg = EventMessage {
        tid: 999,
        data: EventData::Breakpoint { addr: 0x400123 },
    };
    match events::handle_event_message(&mut process, msg) {
        Err(Error::Library(_)) => {}
        other => panic!("expected a library error, got {:?}", other),
    }
    // The failed delivery still stops the process.
    assert!(!process.is_running());
}

#[test]
fn refresh_state_takes_the_reports_last_word() {
    let mut process = make_process();
    for tid in [78u64, 79] {
        let frame = response::encode_init(&response::Init {
            v: 1,
            arch: Architecture::X86_64,
            mt: true,
            tid,
        });
        create::initialize_thread(&mut process, tid, &frame).unwrap();
    }
    let request_frame = process.refresh_state().unwrap();
    assert_eq!(request_frame, request::serialize(&request::State::default()));
    // Thread 78 is reported twice; the later entry wins.  Thread 79 is not
    // reported and keeps its state.
    let report = vec![
        response::State { tid: 77, state: 1 },
        response::State { tid: 78, state: 1 },
        response::State { tid: 78, state: 0 },
    ];
    let frame = response::encode_states(&report);
    process.finish_refresh_state(&frame).unwrap();
    let states: Vec<ThreadState> = process.threads().iter().map(|t| t.get_state()).collect();
    assert_eq!(
        states,
        vec![ThreadState::Suspended, ThreadState::Running, ThreadState::Running]
    );
}

#[test]
fn suspend_and_resume_follow_acknowledgements() {
    let mut process = make_process();
    {
        let thr = &mut process.threads[0];
        let frame = thr.suspend().unwrap();
        assert_eq!(frame, request::serialize(&request::ThreadSuspend::default()));
        let ack = response::encode_ack(request::Type::ThreadSuspend);
        thr.finish_suspend(&ack).unwrap();
        assert_eq!(thr.get_state(), ThreadState::Suspended);
        // The peer's error response leaves the state alone.
        let err = response::encode_error(request::Type::ThreadResume, b"cannot");
        assert!(matches!(thr.finish_resume(&err), Err(Error::Request(_))));
        assert_eq!(thr.get_state(), ThreadState::Suspended);
        let ack = response::encode_ack(request::Type::ThreadResume);
        thr.finish_resume(&ack).unwrap();
        assert_eq!(thr.get_state(), ThreadState::Running);
    }
}

#[test]
fn single_step_records_the_setting_on_acknowledgement() {
    let mut process = make_process();
    let thr = &mut process.threads[0];
    let frame = thr.set_single_step(true).unwrap();
    assert_eq!(frame, request::serialize(&request::SingleStep::new(true)));
    let reply = response::encode_single_step(false);
    thr.finish_set_single_step(true, &reply).unwrap();
    assert!(thr.get_single_step());
    let reply = response::encode_single_step(true);
    thr.finish_set_single_step(false, &reply).unwrap();
    assert!(!thr.get_single_step());
}

#[test]
fn get_pc_reads_the_architectures_counter() {
    let mut process = make_process();
    let thr = process.get_initial_thread();
    // On the 64-bit architecture the program counter is RIP.
    let frame = thr.get_pc().unwrap();
    assert_eq!(
        frame,
        request::serialize(&request::ReadRegister::new(udi::protocol::register_code(
            udi::Register::X86_64_RIP
        )))
    );
    // Delivering the value goes through the ordinary register read.
    let reply = response::encode_read_register(0x400abc);
    let (value, _) = response::read_read_register(&reply).unwrap();
    assert_eq!(value.value, 0x400abc);
    let _ = &mut process;
}

#[test]
fn breakpoint_commands_prepare_the_expected_frames() {
    let process = make_process();
    assert_eq!(
        process.create_breakpoint(0x400123).unwrap(),
        request::serialize(&request::CreateBreakpoint::new(0x400123))
    );
    assert_eq!(
        process.install_breakpoint(0x400123).unwrap(),
        request::serialize(&request::InstallBreakpoint::new(0x400123))
    );
    assert_eq!(
        process.remove_breakpoint(0x400123).unwrap(),
        request::serialize(&request::RemoveBreakpoint::new(0x400123))
    );
    assert_eq!(
        process.delete_breakpoint(0x400123).unwrap(),
        request::serialize(&request::DeleteBreakpoint::new(0x400123))
    );
}

#[test]
fn memory_commands_prepare_the_expected_frames() {
    let process = make_process();
    assert_eq!(
        process.read_mem(4096, 0x400123).unwrap(),
        request::serialize(&request::ReadMemory::new(0x400123, 4096))
    );
    assert_eq!(
        process.write_mem(&[0xde, 0xad], 0x400123).unwrap(),
        request::serialize(&request::WriteMemory::new(0x400123, &[0xde, 0xad]))
    );
    // A memory read's reply carries exactly the bytes the agent sent.
    let payload = vec![1u8, 2, 3, 4];
    let reply = response::encode_read_memory(&payload);
    let (got, _) = response::read_read_memory(&reply).unwrap();
    assert_eq!(got.data, payload);
}

#[test]
fn thread_create_events_resolve_the_reporting_thread() {
    let mut process = make_process();
    let msg = EventMessage {
        tid: 77,
        data: EventData::ThreadCreate { tid: 200 },
    };
    let ev = events::handle_event_message(&mut process, msg).unwrap();
    assert_eq!(ev.thread_index, 0);
    // The new thread joins once its own handshake reply is in.
    let frame = response::encode_init(&response::Init {
        v: 1,
        arch: Architecture::X86_64,
        mt: true,
        tid: 200,
    });
    create::initialize_thread(&mut process, 200, &frame).unwrap();
    assert_eq!(process.threads().len(), 2);
    assert_eq!(process.threads()[1].get_tid(), 200);
    assert!(!process.threads()[1].initial);
}

#[test]
fn decoded_events_feed_the_model() {
    let mut process = make_process();
    let wire = event::encode_event(&EventMessage {
        tid: 77,
        data: EventData::Breakpoint { addr: 0x400555 },
    });
    let (msg, _) = udi::protocol::read_event(&wire).unwrap();
    let ev = events::handle_event_message(&mut process, msg).unwrap();
    assert_eq!(ev.data, EventData::Breakpoint { addr: 0x400555 });
    assert_eq!(ev.pid, 4242);
}

// A model-level walk through the breakpoint scenario: break at an address,
// continue onto it, read the program counter there, then run to exit.
#[test]
fn breakpoint_scenario_at_the_model() {
    let mut process = make_process();
    let addr: u64 = 0x400123;

    process.create_breakpoint(addr).unwrap();
    response::read_no_data(
        &response::encode_ack(request::Type::CreateBreakpoint),
        request::Type::CreateBreakpoint,
    )
    .unwrap();
    process.install_breakpoint(addr).unwrap();

    let (_frame, _expect) = process.continue_process().unwrap();
    process
        .finish_continue(&response::encode_ack(request::Type::Continue))
        .unwrap();

    let hit = EventMessage {
        tid: 77,
        data: EventData::Breakpoint { addr },
    };
    let ev = events::handle_event_message(&mut process, hit).unwrap();
    assert_eq!(ev.data, EventData::Breakpoint { addr });
    assert_eq!(ev.thread_index, 0);
    assert!(!process.is_running());

    // The program counter read at the stop reports the breakpoint address.
    let _pc_frame = process.get_initial_thread().get_pc().unwrap();
    let (pc, _) = response::read_read_register(&response::encode_read_register(addr)).unwrap();
    assert_eq!(pc.value, addr);

    let exit = EventMessage {
        tid: 77,
        data: EventData::ProcessExit { code: 1 },
    };
    events::handle_event_message(&mut process, exit).unwrap();
    assert!(process.is_terminating());
    let (_frame, expect) = process.continue_process().unwrap();
    assert!(!expect);
    let ev = events::handle_event_eof(&mut process);
    assert_eq!(ev.data, EventData::ProcessCleanup);
}

// A model-level walk through the single-step scenario: turn stepping on,
// collect step events while the counter moves, turn it off again.
#[test]
fn singlestep_scenario_at_the_model() {
    let mut process = make_process();
    {
        let thr = &mut process.threads[0];
        thr.set_single_step(true).unwrap();
        thr.finish_set_single_step(true, &response::encode_single_step(false))
            .unwrap();
        assert!(thr.get_single_step());
    }
    for _ in 0..3 {
        let (_frame, _expect) = process.continue_process().unwrap();
        process
            .finish_continue(&response::encode_ack(request::Type::Continue))
            .unwrap();
        let step = EventMessage {
            tid: 77,
            data: EventData::SingleStep,
        };
        let ev = events::handle_event_message(&mut process, step).unwrap();
        assert_eq!(ev.data, EventData::SingleStep);
        assert!(!process.is_running());
    }
    {
        let thr = &mut process.threads[0];
        thr.set_single_step(false).unwrap();
        thr.finish_set_single_step(false, &response::encode_single_step(true))
            .unwrap();
        assert!(!thr.get_single_step());
    }
}

// A model-level walk through the worker-thread scenario: ten creations,
// suspensions confirmed by a state report, deaths collected at the end.
#[test]
fn thread_scenario_at_the_model() {
    let mut process = make_process();
    for n in 0..10u64 {
        let tid = 100 + n;
        let msg = EventMessage {
            tid: 77,
            data: EventData::ThreadCreate { tid },
        };
        events::handle_event_message(&mut process, msg).unwrap();
        let frame = response::encode_init(&response::Init {
            v: 1,
            arch: Architecture::X86_64,
            mt: true,
            tid,
        });
        create::initialize_thread(&mut process, tid, &frame).unwrap();
    }
    assert_eq!(process.threads().len(), 11);

    // Suspend every worker; a state report then shows them all suspended.
    let mut report = vec![response::State { tid: 77, state: 0 }];
    for index in 1..process.threads.len() {
        let thr = &mut process.threads[index];
        thr.suspend().unwrap();
        thr.finish_suspend(&response::encode_ack(request::Type::ThreadSuspend))
            .unwrap();
        report.push(response::State {
            tid: thr.get_tid(),
            state: 1,
        });
    }
    process
        .finish_refresh_state(&response::encode_states(&report))
        .unwrap();
    for index in 1..process.threads().len() {
        assert_eq!(process.threads()[index].get_state(), ThreadState::Suspended);
    }
    assert_eq!(process.threads()[0].get_state(), ThreadState::Running);

    // The workers die one by one; their slots survive without endpoints.
    for n in 0..10u64 {
        let msg = EventMessage {
            tid: 100 + n,
            data: EventData::ThreadDeath,
        };
        let ev = events::handle_event_message(&mut process, msg).unwrap();
        assert_eq!(ev.thread_index as u64, 1 + n);
    }
    assert_eq!(process.threads().len(), 11);
    assert!(matches!(
        process.threads()[5].suspend(),
        Err(Error::Request(_))
    ));
}

// Register values survive the write-then-read frame pair untouched.
#[test]
fn register_round_trip_frames() {
    let process = make_process();
    let thr = process.get_initial_thread();
    let value: u64 = 0x0123456789abcdef;
    let write = thr.write_register(udi::Register::X86_64_RAX, value).unwrap();
    assert_eq!(
        write,
        request::serialize(&request::WriteRegister::new(
            udi::protocol::register_code(udi::Register::X86_64_RAX),
            value
        ))
    );
    let _read = thr.read_register(udi::Register::X86_64_RAX).unwrap();
    // The agent answers the read with the written value.
    let (got, _) = response::read_read_register(&response::encode_read_register(value)).unwrap();
    assert_eq!(got.value, value);
}
