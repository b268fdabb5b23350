//! Launch support: configuration, the spawned child's endpoint layout, and
//! the handshake bookkeeping that turns a spawned child into a process.

use vstd::prelude::*;
use vstd::string::StringSliceAdditionalSpecFns;

use crate::errors::msg_bytes;
use crate::errors::Error;
use crate::protocol;
use crate::protocol::response;
use crate::Process;
use crate::Thread;
use crate::ThreadState;

verus! {

/// Optional knobs for launching a debuggee: the root of the IPC namespace
/// and the path of the runtime agent library.  Paths are carried as bytes.
#[derive(Debug)]
pub struct ProcessConfig {
    pub root_dir: Option<Vec<u8>>,
    pub rt_lib_path: Option<Vec<u8>>,
}

impl ProcessConfig {
    pub fn new(root_dir: Option<Vec<u8>>, rt_lib_path: Option<Vec<u8>>) -> (r: ProcessConfig)
        ensures
            r.root_dir == root_dir && r.rt_lib_path == rt_lib_path,
    {
        ProcessConfig { root_dir, rt_lib_path }
    }
}

/// The decimal digits of `n`, most significant first.
pub open spec fn dec_str(n: nat) -> Seq<u8>
    decreases n,
{
    if n < 10 {
        seq![(0x30 + n) as u8]
    } else {
        dec_str(n / 10) + seq![(0x30 + (n % 10)) as u8]
    }
}

/// Appends the decimal digits of `n` to `out`.
pub fn push_dec(out: &mut Vec<u8>, n: u32)
    ensures
        final(out)@ == old(out)@ + dec_str(n as nat),
    decreases n,
{
    if n < 10 {
        out.push(0x30 + (n as u8));
        assert(out@ =~= old(out)@ + dec_str(n as nat));
    } else {
        push_dec(out, n / 10);
        out.push(0x30 + ((n % 10) as u8));
        assert(out@ =~= old(out)@ + dec_str(n as nat));
    }
}

/// The lower-case hexadecimal digit for a value below sixteen.
pub open spec fn hex_digit(n: u64) -> u8
    recommends
        n < 16,
{
    if n < 10 {
        (0x30 + n) as u8
    } else {
        (0x57 + n) as u8
    }
}

/// The `width` low hexadecimal digits of `n`, most significant first,
/// zero-padded.
pub open spec fn hex_str(n: u64, width: nat) -> Seq<u8>
    decreases width,
{
    if width == 0 {
        Seq::empty()
    } else {
        hex_str(n / 16, (width - 1) as nat) + seq![hex_digit(n % 16)]
    }
}

/// Appends the `width` low hexadecimal digits of `n` to `out`.
pub fn push_hex(out: &mut Vec<u8>, n: u64, width: usize)
    ensures
        final(out)@ == old(out)@ + hex_str(n, width as nat),
    decreases width,
{
    if width == 0 {
        assert(out@ =~= old(out)@ + hex_str(n, 0));
    } else {
        push_hex(out, n / 16, width - 1);
        let d: u8 = (n % 16) as u8;
        let c: u8 = if d < 10 {
            0x30 + d
        } else {
            0x57 + d
        };
        out.push(c);
        assert(out@ =~= old(out)@ + hex_str(n, width as nat));
    }
}

/// A directory entry under `dir`, with the platform's separator.
pub open spec fn path_join(dir: Seq<u8>, name: Seq<u8>) -> Seq<u8> {
    dir + seq![0x2fu8] + name
}

/// The spawned debuggee's identity and the filesystem layout of its IPC
/// endpoints: `root_dir` is the per-process directory, holding the
/// `request`, `response` and `events` pipes, and one `<tid>` subdirectory
/// per thread with that thread's `request` and `response` pipes.
#[derive(Debug)]
pub struct UdiChild {
    pub pid: u32,
    pub root_dir: Vec<u8>,
}

impl UdiChild {
    /// Lays out the endpoints of the child `pid` under `user_dir`: the
    /// process directory is the child's decimal process identifier.
    pub fn new(pid: u32, user_dir: &[u8]) -> (r: UdiChild)
        ensures
            r.pid == pid && r.root_dir@ == path_join(user_dir@, dec_str(pid as nat)),
    {
        let mut root = vstd::slice::slice_to_vec(user_dir);
        root.push(0x2f);
        push_dec(&mut root, pid);
        proof {
            assert(root@ =~= path_join(user_dir@, dec_str(pid as nat)));
        }
        UdiChild { pid, root_dir: root }
    }

    /// The child's operating-system process identifier.
    pub fn id(&self) -> (r: u32)
        ensures
            r == self.pid,
    {
        self.pid
    }

    /// An entry of the per-process directory.
    fn named_path(&self, name: &[u8]) -> (r: Vec<u8>)
        ensures
            r@ == path_join(self.root_dir@, name@),
    {
        let mut p = self.root_dir.clone();
        p.push(0x2f);
        p.extend_from_slice(name);
        proof {
            assert(p@ =~= path_join(self.root_dir@, name@));
        }
        p
    }

    /// An entry of one thread's subdirectory, which is named by the
    /// sixteen-digit hexadecimal thread identifier.
    fn thr_named_path(&self, tid: u64, name: &[u8]) -> (r: Vec<u8>)
        ensures
            r@ == path_join(path_join(self.root_dir@, hex_str(tid, 16)), name@),
    {
        let mut p = self.root_dir.clone();
        p.push(0x2f);
        push_hex(&mut p, tid, 16);
        p.push(0x2f);
        p.extend_from_slice(name);
        proof {
            assert(p@ =~= path_join(path_join(self.root_dir@, hex_str(tid, 16)), name@));
        }
        p
    }

    /// The process-level request pipe.
    pub fn request_path(&self) -> (r: Vec<u8>)
        ensures
            r@ == path_join(self.root_dir@, ("request").spec_bytes()),
    {
        self.named_path("request".as_bytes())
    }

    /// One thread's request pipe.
    pub fn thr_request_path(&self, tid: u64) -> (r: Vec<u8>)
        ensures
            r@ == path_join(path_join(self.root_dir@, hex_str(tid, 16)), ("request").spec_bytes()),
    {
        self.thr_named_path(tid, "request".as_bytes())
    }

    /// The process-level response pipe.
    pub fn response_path(&self) -> (r: Vec<u8>)
        ensures
            r@ == path_join(self.root_dir@, ("response").spec_bytes()),
    {
        self.named_path("response".as_bytes())
    }

    /// One thread's response pipe.
    pub fn thr_response_path(&self, tid: u64) -> (r: Vec<u8>)
        ensures
            r@ == path_join(path_join(self.root_dir@, hex_str(tid, 16)), ("response").spec_bytes()),
    {
        self.thr_named_path(tid, "response".as_bytes())
    }

    /// The process-level events pipe, whose appearance signals that the
    /// agent is ready.
    pub fn events_path(&self) -> (r: Vec<u8>)
        ensures
            r@ == path_join(self.root_dir@, ("events").spec_bytes()),
    {
        self.named_path("events".as_bytes())
    }
}

/// Verifies the handshake's protocol version: only the supported revision
/// is accepted, every other version is a library error.
pub fn determine_protocol(init: &response::Init) -> (r: Result<u32, Error>)
    ensures
        init.v == protocol::UDI_PROTOCOL_VERSION_1 ==> r == Ok::<u32, Error>(init.v),
        init.v != protocol::UDI_PROTOCOL_VERSION_1 ==> (r matches Err(e) && e matches
            Error::Library(_)),
{
    if init.v != protocol::UDI_PROTOCOL_VERSION_1 {
        Err(Error::Library(msg_bytes("debuggee expects an unsupported protocol version")))
    } else {
        Ok(init.v)
    }
}

/// Builds the process record from the completed process-level handshake:
/// the version must be the supported one, and the process starts stopped,
/// with its endpoints open and no threads registered yet.  The initial
/// thread is added by `initialize_thread` once its own handshake is done.
pub fn initialize_process(child: UdiChild, init: &response::Init) -> (r: Result<Process, Error>)
    ensures
        init.v == protocol::UDI_PROTOCOL_VERSION_1 ==> (r matches Ok(p) && p == (Process {
            pid: child.pid,
            has_file_context: true,
            architecture: init.arch,
            protocol_version: init.v,
            multithread_capable: init.mt,
            running: false,
            terminating: false,
            threads: p.threads,
            child: child,
        }) && p.threads@ == Seq::<Thread>::empty() && p.wf()),
        init.v != protocol::UDI_PROTOCOL_VERSION_1 ==> (r matches Err(e) && e matches
            Error::Library(_)),
{
    let version = match determine_protocol(init) {
        Ok(v) => v,
        Err(e) => {
            return Err(e);
        },
    };
    let pid = child.id();
    Ok(
        Process {
            pid,
            has_file_context: true,
            architecture: init.arch,
            protocol_version: version,
            multithread_capable: init.mt,
            running: false,
            terminating: false,
            threads: Vec::new(),
            child,
        },
    )
}

/// Registers a newly handshaken thread: checks the thread's own handshake
/// reply, then appends the thread to the process.  The first thread ever
/// appended is the initial thread; a thread starts alive and running, with
/// single-step off.  Thread slots are append-only: existing threads keep
/// their positions.
pub fn initialize_thread(process: &mut Process, tid: u64, response_frame: &[u8]) -> (r: Result<
    (),
    Error,
>)
    requires
        old(process).wf(),
        forall|i: int|
            0 <= i < old(process).threads@.len() ==> (#[trigger] old(process).threads@[i]).tid
                != tid,
    ensures
        final(process).wf(),
        r matches Ok(_) ==> final(process).threads@ == old(process).threads@.push(
            Thread {
                initial: old(process).threads@.len() == 0,
                tid: tid,
                has_file_context: true,
                single_step: false,
                state: ThreadState::Running,
                architecture: old(process).architecture,
            },
        ),
        r matches Err(_) ==> *final(process) == *old(process),
        crate::same_identity(*old(process), *final(process)),
        final(process).has_file_context == old(process).has_file_context,
        final(process).running == old(process).running,
        final(process).terminating == old(process).terminating,
        crate::threads_append_only(old(process).threads@, final(process).threads@),
        forall|i: response::Init| #![trigger response::init_enc(i)]
            response::init_enc(i).len() <= response_frame@.len() && response_frame@.subrange(
                0,
                response::init_enc(i).len() as int,
            ) == response::init_enc(i) ==> r is Ok,
{
    match response::read_init(response_frame) {
        Ok(_) => {
            let thr = Thread {
                initial: process.threads.len() == 0,
                tid,
                has_file_context: true,
                single_step: false,
                state: ThreadState::Running,
                architecture: process.architecture,
            };
            process.threads.push(thr);
            Ok(())
        },
        Err(e) => Err(e),
    }
}

/// The key of an environment entry: the bytes before the first `=`.
pub open spec fn env_key(s: Seq<u8>) -> Seq<u8>
    decreases s.len(),
{
    if s.len() == 0 {
        Seq::empty()
    } else if s[0] == 0x3d {
        Seq::empty()
    } else {
        seq![s[0]] + env_key(s.skip(1))
    }
}

/// A run of bytes with every `=` removed.
pub open spec fn strip_eq(s: Seq<u8>) -> Seq<u8>
    decreases s.len(),
{
    if s.len() == 0 {
        Seq::empty()
    } else if s[0] == 0x3d {
        strip_eq(s.skip(1))
    } else {
        seq![s[0]] + strip_eq(s.skip(1))
    }
}

/// The value of an environment entry: the bytes after the first `=`, with
/// any further `=` dropped (the pieces of the entry are joined without
/// their separators).
pub open spec fn env_val(s: Seq<u8>) -> Seq<u8>
    decreases s.len(),
{
    if s.len() == 0 {
        Seq::empty()
    } else if s[0] == 0x3d {
        strip_eq(s.skip(1))
    } else {
        env_val(s.skip(1))
    }
}

/// Copies `s` with every `=` removed.
fn strip_eq_exec(s: &[u8]) -> (r: Vec<u8>)
    ensures
        r@ == strip_eq(s@),
    decreases s@.len(),
{
    if s.len() == 0 {
        Vec::new()
    } else {
        let rest = vstd::slice::slice_subrange(s, 1, s.len());
        proof {
            assert(rest@ =~= s@.skip(1));
        }
        if s[0] == 0x3d {
            strip_eq_exec(rest)
        } else {
            let mut r = strip_eq_exec(rest);
            r.insert(0, s[0]);
            proof {
                assert(r@ =~= seq![s@[0]] + strip_eq(s@.skip(1)));
            }
            r
        }
    }
}

/// Splits an environment entry into its key and value.
fn split_env(s: &[u8]) -> (r: (Vec<u8>, Vec<u8>))
    ensures
        r.0@ == env_key(s@) && r.1@ == env_val(s@),
    decreases s@.len(),
{
    if s.len() == 0 {
        (Vec::new(), Vec::new())
    } else {
        let rest = vstd::slice::slice_subrange(s, 1, s.len());
        proof {
            assert(rest@ =~= s@.skip(1));
        }
        if s[0] == 0x3d {
            (Vec::new(), strip_eq_exec(rest))
        } else {
            let (mut k, v) = split_env(rest);
            k.insert(0, s[0]);
            proof {
                assert(k@ =~= seq![s@[0]] + env_key(s@.skip(1)));
            }
            (k, v)
        }
    }
}

/// The dynamic linker's preload variable on this platform.
pub fn get_dyn_linker_var_name() -> (r: &'static str)
    ensures
        r@ == ("LD_PRELOAD")@,
{
    "LD_PRELOAD"
}

/// The platform hook applied to a freshly built environment; nothing is
/// added on this platform.
pub fn modify_env(env: &mut Vec<(Vec<u8>, Vec<u8>)>)
    ensures
        *final(env) == *old(env),
{
}

/// The contents of a built environment, entry by entry.
pub open spec fn env_view(r: Seq<(Vec<u8>, Vec<u8>)>) -> Seq<(Seq<u8>, Seq<u8>)> {
    Seq::new(r.len(), |i: int| (r[i].0@, r[i].1@))
}

/// The caller's entries, split into keys and values.
pub open spec fn env_pairs(envp: Seq<Seq<u8>>) -> Seq<(Seq<u8>, Seq<u8>)> {
    Seq::new(envp.len(), |i: int| (env_key(envp[i]), env_val(envp[i])))
}

/// Every entry bearing the preload variable, extended with the agent
/// library behind a separator; other entries untouched.
pub open spec fn extend_linker(pairs: Seq<(Seq<u8>, Seq<u8>)>, rt: Seq<u8>) -> Seq<
    (Seq<u8>, Seq<u8>),
> {
    Seq::new(
        pairs.len(),
        |i: int|
            if pairs[i].0 == ("LD_PRELOAD").spec_bytes() {
                (pairs[i].0, pairs[i].1 + seq![0x3au8] + rt)
            } else {
                pairs[i]
            },
    )
}

/// Whether some entry bears the preload variable.
pub open spec fn has_linker(pairs: Seq<(Seq<u8>, Seq<u8>)>) -> bool {
    exists|i: int|
        0 <= i < pairs.len() && (#[trigger] pairs[i]).0 == ("LD_PRELOAD").spec_bytes()
}

/// The environment handed to the debuggee, built from the caller's
/// entries: the agent library is added to the dynamic linker's preload
/// variable — extending every entry that already has it, else appending a
/// fresh one — and the IPC root is appended under its own variable last,
/// so it prevails over any caller value.
pub open spec fn spec_create_environment(
    envp: Seq<Seq<u8>>,
    root: Seq<u8>,
    rt: Seq<u8>,
) -> Seq<(Seq<u8>, Seq<u8>)> {
    let base = env_pairs(envp);
    let upd = if has_linker(base) {
        extend_linker(base, rt)
    } else {
        base.push((("LD_PRELOAD").spec_bytes(), rt))
    };
    upd.push((("UDI_ROOT_DIR").spec_bytes(), root))
}

/// Builds the environment for the debuggee.  Every caller entry is kept
/// (as key and value); the dynamic linker's preload variable gains the
/// agent library — appended behind a separator wherever the variable
/// already occurs, else added as a new entry — and the IPC root directory
/// is set last under its own variable.
pub fn create_environment(envp: &Vec<Vec<u8>>, root_dir: &[u8], rt_lib_path: &[u8]) -> (r: Vec<
    (Vec<u8>, Vec<u8>),
>)
    ensures
        env_view(r@) == spec_create_environment(envp.deep_view(), root_dir@, rt_lib_path@),
{
    let ghost base = env_pairs(envp.deep_view());
    let mut out: Vec<(Vec<u8>, Vec<u8>)> = Vec::new();
    let mut updated = false;
    let mut i: usize = 0;
    while i < envp.len()
        invariant
            i <= envp@.len(),
            base == env_pairs(envp.deep_view()),
            envp.deep_view().len() == envp@.len(),
            out@.len() == i,
            updated == (exists|k: int|
                0 <= k < i && (#[trigger] base[k]).0 == ("LD_PRELOAD").spec_bytes()),
            forall|k: int|
                0 <= k < i ==> ((#[trigger] out@[k]).0@, out@[k].1@) == extend_linker(
                    base,
                    rt_lib_path@,
                )[k],
        decreases envp@.len() - i,
    {
        let (k, mut v) = split_env(envp[i].as_slice());
        proof {
            assert(envp.deep_view()[i as int] == envp@[i as int]@) by {
                assert(envp.deep_view()[i as int] == envp@[i as int].deep_view());
                crate::cbor::lemma_u8vec_deep_view(envp@[i as int]);
            }
        }
        if crate::cbor::bytes_eq(k.as_slice(), "LD_PRELOAD".as_bytes()) {
            v.push(0x3a);
            v.extend_from_slice(rt_lib_path);
            updated = true;
            proof {
                assert(v@ =~= base[i as int].1 + seq![0x3au8] + rt_lib_path@);
            }
        }
        out.push((k, v));
        i = i + 1;
    }
    if !updated {
        out.push(
            (
                vstd::slice::slice_to_vec("LD_PRELOAD".as_bytes()),
                vstd::slice::slice_to_vec(rt_lib_path),
            ),
        );
    }
    out.push(
        (
            vstd::slice::slice_to_vec("UDI_ROOT_DIR".as_bytes()),
            vstd::slice::slice_to_vec(root_dir),
        ),
    );
    modify_env(&mut out);
    proof {
        assert(env_view(out@) =~~= spec_create_environment(
            envp.deep_view(),
            root_dir@,
            rt_lib_path@,
        ));
    }
    out
}

/// Relies on `users::get_current_username` for the name of the user this
/// process runs as, when the system knows one; the name is handed through
/// as bytes.
#[verifier::external_body]
fn get_current_username() -> (r: Option<Vec<u8>>) {
    users::get_current_username().and_then(|n| n.into_string().ok()).map(|s| s.into_bytes())
}

/// Resolves the per-user directory of the IPC namespace: the current
/// user's name joined under `root_dir`.  Fails as a library error when the
/// system does not know the user.
pub fn resolve_user_dir(root_dir: &[u8]) -> (r: Result<Vec<u8>, Error>)
    ensures
        r matches Ok(p) ==> exists|user: Seq<u8>| p@ == path_join(root_dir@, user),
        r matches Err(e) ==> e matches Error::Library(_),
{
    match get_current_username() {
        Some(user) => {
            let mut p = vstd::slice::slice_to_vec(root_dir);
            p.push(0x2f);
            p.extend_from_slice(user.as_slice());
            proof {
                assert(p@ =~= path_join(root_dir@, user@));
            }
            Ok(p)
        },
        None => Err(Error::Library(msg_bytes("failed to retrieve username"))),
    }
}

} // verus!
