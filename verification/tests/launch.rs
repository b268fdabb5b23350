//! Endpoint naming and the environment handed to the debuggee.

use udi::create;

#[test]
fn endpoint_paths_follow_the_layout() {
    let child = create::UdiChild::new(1234, b"/tmp/udi/alice");
    assert_eq!(child.id(), 1234);
    assert_eq!(child.request_path(), b"/tmp/udi/alice/1234/request".to_vec());
    assert_eq!(child.response_path(), b"/tmp/udi/alice/1234/response".to_vec());
    assert_eq!(child.events_path(), b"/tmp/udi/alice/1234/events".to_vec());
}

#[test]
fn thread_endpoints_use_sixteen_hex_digits() {
    let child = create::UdiChild::new(7, b"/root");
    assert_eq!(
        child.thr_request_path(0x1a2b),
        b"/root/7/0000000000001a2b/request".to_vec()
    );
    assert_eq!(
        child.thr_response_path(u64::MAX),
        b"/root/7/ffffffffffffffff/response".to_vec()
    );
    assert_eq!(child.thr_request_path(0), b"/root/7/0000000000000000/request".to_vec());
}

#[test]
fn environment_gains_preload_and_root() {
    // No caller entries: the preload variable and the root are added.
    let env = create::create_environment(&vec![], b"/tmp/udi/alice", b"libudirt.so");
    assert_eq!(
        env,
        vec![
            (b"LD_PRELOAD".to_vec(), b"libudirt.so".to_vec()),
            (b"UDI_ROOT_DIR".to_vec(), b"/tmp/udi/alice".to_vec()),
        ]
    );
}

#[test]
fn existing_preload_entries_are_extended() {
    let envp = vec![
        b"PATH=/usr/bin".to_vec(),
        b"LD_PRELOAD=libother.so".to_vec(),
    ];
    let env = create::create_environment(&envp, b"/tmp/udi/alice", b"libudirt.so");
    assert_eq!(
        env,
        vec![
            (b"PATH".to_vec(), b"/usr/bin".to_vec()),
            (b"LD_PRELOAD".to_vec(), b"libother.so:libudirt.so".to_vec()),
            (b"UDI_ROOT_DIR".to_vec(), b"/tmp/udi/alice".to_vec()),
        ]
    );
}

#[test]
fn entry_pieces_join_without_separators() {
    // An entry with several separators keeps its key and the joined pieces
    // of its value.
    let envp = vec![b"A=B=C".to_vec(), b"FLAG".to_vec()];
    let env = create::create_environment(&envp, b"/r", b"rt.so");
    assert_eq!(env[0], (b"A".to_vec(), b"BC".to_vec()));
    assert_eq!(env[1], (b"FLAG".to_vec(), b"".to_vec()));
}

#[test]
fn process_config_keeps_its_knobs() {
    let cfg = create::ProcessConfig::new(Some(b"/somewhere".to_vec()), None);
    assert_eq!(cfg.root_dir, Some(b"/somewhere".to_vec()));
    assert_eq!(cfg.rt_lib_path, None);
    assert_eq!(create::get_dyn_linker_var_name(), "LD_PRELOAD");
}
