use vstd::prelude::*;

verus! {

use vstd::string::StringExecFns;

/// The decimal digit `n` (below ten) as a character.
pub open spec fn spec_digit_char(n: nat) -> char {
    ((0x30 + n) as u8) as char
}

/// The decimal digits of `n`, most significant first, as characters.
pub open spec fn spec_u64_chars(n: nat) -> Seq<char>
    decreases n,
{
    if n < 10 {
        seq![spec_digit_char(n)]
    } else {
        spec_u64_chars(n / 10) + seq![spec_digit_char(n % 10)]
    }
}

/// The text of one decimal digit.
fn digit_str(d: u64) -> (r: &'static str)
    requires
        d < 10,
    ensures
        r@ == seq![spec_digit_char(d as nat)],
{
    proof {
        reveal_strlit("0");
        reveal_strlit("1");
        reveal_strlit("2");
        reveal_strlit("3");
        reveal_strlit("4");
        reveal_strlit("5");
        reveal_strlit("6");
        reveal_strlit("7");
        reveal_strlit("8");
        reveal_strlit("9");
    }
    let r = if d == 0 {
        "0"
    } else if d == 1 {
        "1"
    } else if d == 2 {
        "2"
    } else if d == 3 {
        "3"
    } else if d == 4 {
        "4"
    } else if d == 5 {
        "5"
    } else if d == 6 {
        "6"
    } else if d == 7 {
        "7"
    } else if d == 8 {
        "8"
    } else {
        "9"
    };
    proof {
        assert(r@ =~= seq![spec_digit_char(d as nat)]);
    }
    r
}

/// The decimal text of `n`.
pub fn u64_string(n: u64) -> (r: String)
    ensures
        r@ == spec_u64_chars(n as nat),
    decreases n,
{
    if n < 10 {
        digit_str(n).to_owned()
    } else {
        let mut s = u64_string(n / 10);
        s.append(digit_str(n % 10));
        proof {
            assert(s@ =~= spec_u64_chars((n / 10) as nat) + seq![spec_digit_char((n % 10) as nat)]);
        }
        s
    }
}

/// The endpoint path an owned player is bound to: a name under the
/// temporary directory derived from the moment of spawning, so that
/// concurrent instances do not collide.
pub open spec fn spec_socket_path(epoch: nat) -> Seq<char> {
    "/tmp/mpv-"@ + spec_u64_chars(epoch)
}

/// The endpoint path for an instance spawned at `epoch` seconds.
pub fn socket_path_for_epoch(epoch: u64) -> (r: String)
    ensures
        r@ == spec_socket_path(epoch as nat),
{
    let mut s = "/tmp/mpv-".to_owned();
    let digits = u64_string(epoch);
    s.append(digits.as_str());
    s
}

/// Options for spawning an owned player process.
pub struct MpvInitializer {
    mpv_args: Option<Vec<String>>,
}

impl MpvInitializer {
    /// The caller-supplied extra arguments, if any were set.
    pub closed spec fn extra_args(&self) -> Option<Seq<String>> {
        match self.mpv_args {
            Some(a) => Some(a@),
            None => None,
        }
    }

    /// Creates the options with nothing set.
    pub fn new() -> (r: Self)
        ensures
            r.extra_args() is None,
    {
        Self { mpv_args: None }
    }

    /// Sets extra arguments to append to the baseline set.
    pub fn with_args(self, args: Vec<String>) -> (r: Self)
        ensures
            r.extra_args() == Some(args@),
    {
        Self { mpv_args: Some(args) }
    }

    /// The argument vector an owned player is spawned with: the endpoint
    /// binding, the idle-start flag, the quiet-output flag, then the extra
    /// arguments in their given order.
    pub fn spawn_args(&self, socket_path: &str) -> (r: Vec<String>)
        ensures
            r@.len() == 3 + (match self.extra_args() {
                Some(a) => a.len(),
                None => 0,
            }),
            r@[0]@ == "--input-ipc-server="@ + socket_path@,
            r@[1]@ == "--idle"@,
            r@[2]@ == "--really-quiet"@,
            match self.extra_args() {
                Some(a) => forall|k: int| 0 <= k < a.len() ==> r@[3 + k] == a[k],
                None => true,
            },
    {
        let mut out: Vec<String> = Vec::new();
        let mut bind = "--input-ipc-server=".to_owned();
        bind.append(socket_path);
        out.push(bind);
        out.push("--idle".to_owned());
        out.push("--really-quiet".to_owned());
        match &self.mpv_args {
            Some(args) => {
                let mut k: usize = 0;
                while k < args.len()
                    invariant
                        k <= args@.len(),
                        out@.len() == 3 + k,
                        out@[0]@ == "--input-ipc-server="@ + socket_path@,
                        out@[1]@ == "--idle"@,
                        out@[2]@ == "--really-quiet"@,
                        forall|m: int| 0 <= m < k ==> out@[3 + m] == args@[m],
                    decreases args@.len() - k,
                {
                    out.push(args[k].clone());
                    k += 1;
                }
            },
            None => {},
        }
        out
    }
}

/// A player process someone else started; this client only dials its
/// endpoint and never manages its lifetime.
pub struct ExistingProcess {
    socket_location: String,
}

impl ExistingProcess {
    /// The endpoint this process listens on.
    pub closed spec fn socket(&self) -> Seq<char> {
        self.socket_location@
    }

    /// Binds to the endpoint at `ipc_path`.
    pub fn new(ipc_path: &str) -> (r: Self)
        ensures
            r.socket() == ipc_path@,
    {
        Self { socket_location: ipc_path.to_owned() }
    }

    /// The endpoint path to dial.
    pub fn socket_path(&self) -> (r: &str)
        ensures
            r@ == self.socket(),
    {
        self.socket_location.as_str()
    }
}

/// Binds to an already-running player listening at `path`.
pub fn existing_client(path: &str) -> (r: ExistingProcess)
    ensures
        r.socket() == path@,
{
    ExistingProcess::new(path)
}

/// Which player process one client is bound to.
pub enum ProcessBinding {
    /// Started by someone else; only the endpoint is known.
    External { socket_path: String },
    /// Spawned by this client, which owns its lifetime.
    Owned { socket_path: String, pid: u32 },
}

/// What a teardown step asks the surrounding runtime to do.
#[derive(Debug, PartialEq, Eq)]
pub enum TeardownAction {
    /// Leave the process alone.
    Nothing,
    /// Terminate the owned child and remove its endpoint file, should it
    /// still exist.
    KillAndRemove { pid: u32, socket_path: String },
}

/// Owns the process binding and decides teardown. An owned process is
/// killed, and its endpoint removed, exactly once; an external process is
/// never touched.
pub struct Supervisor {
    binding: ProcessBinding,
    torn_down: bool,
}

impl Supervisor {
    pub closed spec fn binding(&self) -> ProcessBinding {
        self.binding
    }

    pub closed spec fn torn_down(&self) -> bool {
        self.torn_down
    }

    /// Supervises a process someone else started.
    pub fn attach(socket_path: String) -> (r: Self)
        ensures
            r.binding() == (ProcessBinding::External { socket_path }),
            !r.torn_down(),
    {
        Self { binding: ProcessBinding::External { socket_path }, torn_down: false }
    }

    /// Supervises a process this client spawned.
    pub fn adopt(socket_path: String, pid: u32) -> (r: Self)
        ensures
            r.binding() == (ProcessBinding::Owned { socket_path, pid }),
            !r.torn_down(),
    {
        Self { binding: ProcessBinding::Owned { socket_path, pid }, torn_down: false }
    }

    /// The identifier of the owned child, when there is one.
    pub fn pid(&self) -> (r: Option<u32>)
        ensures
            match self.binding() {
                ProcessBinding::Owned { pid, .. } => r == Some(pid),
                ProcessBinding::External { .. } => r is None,
            },
    {
        match &self.binding {
            ProcessBinding::Owned { pid, .. } => Some(*pid),
            ProcessBinding::External { .. } => None,
        }
    }

    /// Decides one teardown step. The first call on an owned binding asks
    /// for the kill and the endpoint's removal; every later call, and every
    /// call on an external binding, asks for nothing.
    pub fn teardown(&mut self) -> (r: TeardownAction)
        ensures
            final(self).torn_down(),
            final(self).binding() == old(self).binding(),
            old(self).torn_down() ==> r == TeardownAction::Nothing,
            (old(self).binding() matches ProcessBinding::External { .. }) ==> r
                == TeardownAction::Nothing,
            !old(self).torn_down() ==> match old(self).binding() {
                ProcessBinding::Owned { socket_path, pid } => r == (TeardownAction::KillAndRemove {
                    pid,
                    socket_path,
                }),
                ProcessBinding::External { .. } => true,
            },
    {
        if self.torn_down {
            return TeardownAction::Nothing;
        }
        self.torn_down = true;
        match &self.binding {
            ProcessBinding::External { .. } => TeardownAction::Nothing,
            ProcessBinding::Owned { socket_path, pid } => TeardownAction::KillAndRemove {
                pid: *pid,
                socket_path: socket_path.clone(),
            },
        }
    }
}

} // verus!
