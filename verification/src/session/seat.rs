//! A virtual seat: a headless KWin session with its own session bus and
//! accessibility bus, and the decisions taken while it boots.
use crate::error::BackendError;
use crate::session::environment::Environment;
use crate::table::{lookup, sorted_keys};
use crate::session::process::ProcessIdentity;
use crate::text::{
    chars_of, decimal, decimal_string, join, join_path, join_path_string, join_strings, lines,
    lines_vec, starts_with_lit, string_of, string_views, trim, trim_vec, views,
};
use vstd::prelude::*;

verus! {

/// The size and number of a seat.
#[derive(Debug, Clone, Copy, PartialEq, Eq, Structural)]
pub struct SeatParams {
    pub id: u32,
    pub width: u32,
    pub height: u32,
}

/// The Wayland socket name of seat `id`.
pub open spec fn socket_name_of(id: u32) -> Seq<char> {
    "wayland-agent-"@ + decimal(id as nat)
}

impl SeatParams {
    /// The Wayland socket this seat's compositor listens on.
    pub fn socket_name(self) -> (s: String)
        ensures
            s@ == socket_name_of(self.id),
    {
        let mut s = String::from_str("wayland-agent-");
        let n = decimal_string(self.id as u64);
        s.append(n.as_str());
        s
    }
}

/// The virtual screen must be 320..=7680 wide and 240..=4320 high.
pub open spec fn valid_dimensions(width: u32, height: u32) -> bool {
    320 <= width <= 7680 && 240 <= height <= 4320
}

pub fn check_dimensions(width: u32, height: u32) -> (r: Result<(), BackendError>)
    ensures
        valid_dimensions(width, height) ==> r is Ok,
        !valid_dimensions(width, height) ==> (r matches Err(BackendError::Failed(m)) && m@
            == "Virtual dimensions must be 320..7680 by 240..4320"@),
{
    if !(320 <= width && width <= 7680) || !(240 <= height && height <= 4320) {
        return Err(BackendError::Failed(String::from_str("Virtual dimensions must be 320..7680 by 240..4320")));
    }
    Ok(())
}

/// The session bus address printed by `dbus-daemon --print-address`: the
/// line trimmed, and refused unless it is a `unix:` address.
pub open spec fn bus_address_of(line: Seq<char>) -> Option<Seq<char>> {
    let t = trim(line);
    if t.len() >= 5 && t.take(5) == "unix:"@ {
        Some(t)
    } else {
        None
    }
}

/// The script KWin runs as its session: it records the X display it was
/// given in `ready` and then waits.
pub open spec fn helper_script_text(ready: Seq<char>) -> Seq<char> {
    "#!/bin/sh\nprintf 'DISPLAY=%s\\nXAUTHORITY=%s\\n' \"$DISPLAY\" \"$XAUTHORITY\" > '"@ + ready
        + "'\nexec sleep infinity\n"@
}

pub fn helper_script(ready: &str) -> (s: String)
    ensures
        s@ == helper_script_text(ready@),
{
    let mut s = String::from_str("#!/bin/sh\nprintf 'DISPLAY=%s\\nXAUTHORITY=%s\\n' \"$DISPLAY\" \"$XAUTHORITY\" > '");
    s.append(ready);
    s.append("'\nexec sleep infinity\n");
    s
}

/// The runtime entries a seat's socket occupies: the socket and its lock.
pub fn socket_resources(display: &str) -> (r: Vec<String>)
    ensures
        string_views(r@) == seq![display@, display@ + ".lock"@],
{
    let mut lock = String::from_str(display);
    lock.append(".lock");
    let mut r: Vec<String> = Vec::new();
    r.push(String::from_str(display));
    r.push(lock);
    assert(string_views(r@) =~= seq![display@, display@ + ".lock"@]);
    r
}

/// The refusal when a socket resource already exists at `path`.
pub fn occupied(path: &str) -> (e: BackendError)
    ensures
        e matches BackendError::Failed(m) && m@ == "Seat resource already exists: "@ + path@,
{
    let mut m = String::from_str("Seat resource already exists: ");
    m.append(path);
    BackendError::Failed(m)
}

/// The last `n` elements of `s` (all of them when there are fewer).
pub open spec fn last_n<A>(s: Seq<A>, n: int) -> Seq<A> {
    if s.len() <= n {
        s
    } else {
        s.skip(s.len() - n)
    }
}

/// The failure of a seat start: the reason and the last 12 lines of the
/// compositor's log.
pub open spec fn startup_message(reason: Seq<char>, log: Seq<char>) -> Seq<char> {
    "Seat startup failed: "@ + reason + "\n"@ + join(last_n(lines(log), 12), "\n"@)
}

pub fn startup_error(reason: &str, log: &str) -> (e: BackendError)
    ensures
        e matches BackendError::Failed(m) && m@ == startup_message(reason@, log@),
{
    let text = chars_of(log);
    let all = lines_vec(text.as_slice());
    let n = all.len();
    let from: usize = if n <= 12 { 0 } else { n - 12 };
    let mut tail: Vec<String> = Vec::new();
    let mut i: usize = from;
    while i < n
        invariant
            from <= i <= n,
            n == all@.len(),
            from == (if n <= 12 { 0 } else { n - 12 }),
            string_views(tail@) == views(all@).subrange(from as int, i as int),
        decreases n - i,
    {
        let ghost before = tail@;
        tail.push(string_of(all[i].as_slice()));
        i += 1;
        assert(string_views(tail@) =~= views(all@).subrange(from as int, i as int)) by {
            assert(string_views(tail@) =~= string_views(before).push(tail@.last()@));
        }
    }
    proof {
        assert(views(all@).subrange(from as int, n as int) =~= last_n(lines(log@), 12));
    }
    let mut m = String::from_str("Seat startup failed: ");
    m.append(reason);
    m.append("\n");
    let j = join_strings(tail.as_slice(), "\n");
    m.append(j.as_str());
    BackendError::Failed(m)
}

/// Where a helper program is run from: its bare name when `PATH` has it,
/// else `/usr/libexec/<program>`.
pub fn resolve_program(program: &str, on_path: bool) -> (r: String)
    ensures
        r@ == if on_path {
            program@
        } else {
            "/usr/libexec/"@ + program@
        },
{
    if on_path {
        String::from_str(program)
    } else {
        let mut r = String::from_str("/usr/libexec/");
        r.append(program);
        r
    }
}

/// The log file a helper writes to, named after the program.
pub fn log_name(program: &str) -> (r: String)
    ensures
        r@ == program@ + ".log"@,
{
    let mut r = String::from_str(program);
    r.append(".log");
    r
}

/// The inherited variables a helper is started without: the session manager
/// always, and `DISPLAY` and `AT_SPI_BUS_ADDRESS` unless the seat sets them.
pub open spec fn removed_variables(env: Seq<(Seq<char>, Seq<char>)>) -> Seq<Seq<char>> {
    let a = seq!["SESSION_MANAGER"@];
    let b = if lookup(env, "DISPLAY"@) is Some { a } else { a.push("DISPLAY"@) };
    if lookup(env, "AT_SPI_BUS_ADDRESS"@) is Some {
        b
    } else {
        b.push("AT_SPI_BUS_ADDRESS"@)
    }
}

pub fn unset_for_helper(env: &Environment) -> (r: Vec<&'static str>)
    ensures
        r@.map_values(|s: &str| s@) == removed_variables(env@),
{
    let mut r: Vec<&'static str> = Vec::new();
    r.push("SESSION_MANAGER");
    if !env.contains_key("DISPLAY") {
        r.push("DISPLAY");
    }
    if !env.contains_key("AT_SPI_BUS_ADDRESS") {
        r.push("AT_SPI_BUS_ADDRESS");
    }
    assert(r@.map_values(|s: &str| s@) =~= removed_variables(env@));
    r
}

/// The arguments KWin is started with for a seat.
pub open spec fn kwin_arguments(display: Seq<char>, width: u32, height: u32, helper: Seq<char>) -> Seq<Seq<char>> {
    seq![
        "--virtual"@,
        "--socket"@,
        display,
        "--width"@,
        decimal(width as nat),
        "--height"@,
        decimal(height as nat),
        "--xwayland"@,
        "--no-lockscreen"@,
        "--no-kactivities"@,
        "--exit-with-session"@,
        helper,
    ]
}

pub fn kwin_args(display: &str, width: u32, height: u32, helper: &str) -> (r: Vec<String>)
    ensures
        string_views(r@) == kwin_arguments(display@, width, height, helper@),
{
    let mut r: Vec<String> = Vec::new();
    r.push(String::from_str("--virtual"));
    r.push(String::from_str("--socket"));
    r.push(String::from_str(display));
    r.push(String::from_str("--width"));
    r.push(decimal_string(width as u64));
    r.push(String::from_str("--height"));
    r.push(decimal_string(height as u64));
    r.push(String::from_str("--xwayland"));
    r.push(String::from_str("--no-lockscreen"));
    r.push(String::from_str("--no-kactivities"));
    r.push(String::from_str("--exit-with-session"));
    r.push(String::from_str(helper));
    assert(string_views(r@) =~= kwin_arguments(display@, width, height, helper@));
    r
}

/// What to do while waiting for KWin to come up.
#[derive(Debug)]
pub enum WaitStep {
    /// The display file and the socket are there.
    Ready,
    /// Stop waiting: the seat failed for this reason.
    Fail(&'static str),
    /// Look again shortly.
    Sleep,
}

/// How long a bus name may take to be owned, in milliseconds.
pub const NAME_WAIT_MS: u64 = 5000;

/// One turn of the wait for a bus name: done once it is owned
/// (`Ok(true)`), look again shortly (`Ok(false)`), or a timeout once
/// `NAME_WAIT_MS` have passed since `started` (times in milliseconds of one
/// clock).
pub fn name_wait(owned: bool, name: &str, started: u64, now: u64) -> (r: Result<bool, BackendError>)
    ensures
        owned ==> r == Ok::<bool, BackendError>(true),
        !owned && now >= started + NAME_WAIT_MS ==> (r matches Err(BackendError::Timeout { detail })
            && detail@ == "Waiting for "@ + name@),
        !owned && now < started + NAME_WAIT_MS ==> r == Ok::<bool, BackendError>(false),
{
    if owned {
        Ok(true)
    } else if now >= started && now - started >= NAME_WAIT_MS {
        let mut detail = String::from_str("Waiting for ");
        detail.append(name);
        Err(BackendError::Timeout { detail })
    } else {
        Ok(false)
    }
}

/// One turn of the wait for KWin: ready once both the display file and the
/// socket exist; a failure if a helper exited, or when time is up.
pub fn startup_step(ready_file: bool, socket: bool, helpers_alive: bool, timed_out: bool) -> (r: WaitStep)
    ensures
        ready_file && socket ==> r is Ready,
        !(ready_file && socket) && !helpers_alive ==> (r matches WaitStep::Fail(m) && m@
            == "A session helper exited during KWin startup"@),
        !(ready_file && socket) && helpers_alive && timed_out ==> (r matches WaitStep::Fail(m) && m@
            == "KWin did not become ready within 20 seconds"@),
        !(ready_file && socket) && helpers_alive && !timed_out ==> r is Sleep,
{
    if ready_file && socket {
        WaitStep::Ready
    } else if !helpers_alive {
        WaitStep::Fail("A session helper exited during KWin startup")
    } else if timed_out {
        WaitStep::Fail("KWin did not become ready within 20 seconds")
    } else {
        WaitStep::Sleep
    }
}

/// What is left to tear down of a seat: its processes (to signal) and its
/// runtime directory (to remove), unless the seat was detached.
#[derive(Debug)]
pub struct Teardown {
    pub processes: Vec<ProcessIdentity>,
    pub runtime_dir: String,
}

/// A seat being booted or running.
#[derive(Debug)]
pub struct VirtualSeat {
    processes: Vec<ProcessIdentity>,
    pub bus_address: String,
    pub wayland_display: String,
    pub env_file: String,
    seat_runtime: String,
}

impl VirtualSeat {
    /// The processes the seat tracks, in start order.
    pub closed spec fn helpers(&self) -> Seq<ProcessIdentity> {
        self.processes@
    }

    /// The seat's runtime directory.
    pub closed spec fn runtime(&self) -> Seq<char> {
        self.seat_runtime@
    }

    /// The seat's session bus address.
    pub closed spec fn address(&self) -> Seq<char> {
        self.bus_address@
    }

    /// The seat's Wayland socket name.
    pub closed spec fn display(&self) -> Seq<char> {
        self.wayland_display@
    }

    /// Where the seat's environment file is written.
    pub closed spec fn env_path(&self) -> Seq<char> {
        self.env_file@
    }

    /// A seat with nothing started yet, living in `runtime`.
    pub fn new(params: SeatParams, runtime: String) -> (r: VirtualSeat)
        ensures
            r.helpers().len() == 0,
            r.runtime() == runtime@,
            r.address().len() == 0,
            r.display() == socket_name_of(params.id),
            r.env_path() == join_path(runtime@, "session.env"@),
    {
        let env_file = join_path_string(runtime.as_str(), "session.env");
        VirtualSeat {
            processes: Vec::new(),
            bus_address: String::new(),
            wayland_display: params.socket_name(),
            env_file,
            seat_runtime: runtime,
        }
    }

    /// The seat's runtime directory.
    pub fn runtime_dir(&self) -> (r: String)
        ensures
            r@ == self.runtime(),
    {
        self.seat_runtime.clone()
    }

    /// A path inside the seat's runtime directory.
    pub fn path(&self, name: &str) -> (r: String)
        ensures
            r@ == join_path(self.runtime(), name@),
    {
        join_path_string(self.seat_runtime.as_str(), name)
    }

    /// The processes the seat tracks, in start order.
    pub fn identities(&self) -> (r: Vec<ProcessIdentity>)
        ensures
            r@ == self.helpers(),
    {
        let mut r: Vec<ProcessIdentity> = Vec::new();
        let mut i: usize = 0;
        while i < self.processes.len()
            invariant
                i <= self.processes@.len(),
                r@ == self.processes@.take(i as int),
            decreases self.processes@.len() - i,
        {
            r.push(self.processes[i]);
            i += 1;
            assert(r@ =~= self.processes@.take(i as int));
        }
        assert(self.processes@.take(i as int) =~= self.processes@);
        r
    }

    /// Starts tracking a helper the seat launched.
    pub fn track(&mut self, process: ProcessIdentity)
        ensures
            final(self).helpers() == old(self).helpers().push(process),
            final(self).runtime() == old(self).runtime(),
            final(self).address() == old(self).address(),
            final(self).display() == old(self).display(),
            final(self).env_path() == old(self).env_path(),
    {
        self.processes.push(process);
    }

    /// Takes the session bus address from the line `dbus-daemon` printed.
    pub fn set_bus_address(&mut self, line: &str) -> (r: Result<(), BackendError>)
        ensures
            final(self).address() == trim(line@),
            final(self).helpers() == old(self).helpers(),
            final(self).runtime() == old(self).runtime(),
            final(self).display() == old(self).display(),
            final(self).env_path() == old(self).env_path(),
            bus_address_of(line@) is Some ==> r is Ok,
            bus_address_of(line@) is None ==> (r matches Err(BackendError::Failed(m)) && m@
                == "Invalid session bus address"@),
    {
        let v = chars_of(line);
        let t = trim_vec(v.as_slice());
        self.bus_address = string_of(t.as_slice());
        proof {
            reveal_strlit("unix:");
        }
        if !starts_with_lit(t.as_slice(), "unix:") {
            return Err(BackendError::Failed(String::from_str("Invalid session bus address")));
        }
        Ok(())
    }

    /// The variables every seat starts with, before its session bus exists.
    pub fn base_environment(&self) -> (env: Environment)
        ensures
            sorted_keys(env@),
            lookup(env@, "XDG_RUNTIME_DIR"@) == Some(self.runtime()),
            lookup(env@, "WAYLAND_DISPLAY"@) == Some(self.display()),
            lookup(env@, "XDG_SESSION_TYPE"@) == Some("wayland"@),
            lookup(env@, "XDG_CURRENT_DESKTOP"@) == Some("KDE"@),
            lookup(env@, "XDG_CONFIG_HOME"@) == Some(join_path(self.runtime(), "config"@)),
            lookup(env@, "XDG_CACHE_HOME"@) == Some(join_path(self.runtime(), "cache"@)),
            lookup(env@, "XDG_DATA_HOME"@) == Some(join_path(self.runtime(), "data"@)),
            lookup(env@, "QT_LINUX_ACCESSIBILITY_ALWAYS_ON"@) == Some("1"@),
            lookup(env@, "GTK_A11Y"@) == Some("atspi"@),
            forall|k: Seq<char>|
                #[trigger] lookup(env@, k) is Some ==> k == "XDG_RUNTIME_DIR"@ || k
                    == "WAYLAND_DISPLAY"@ || k == "XDG_SESSION_TYPE"@ || k
                    == "XDG_CURRENT_DESKTOP"@ || k == "XDG_CONFIG_HOME"@ || k
                    == "XDG_CACHE_HOME"@ || k == "XDG_DATA_HOME"@ || k
                    == "QT_LINUX_ACCESSIBILITY_ALWAYS_ON"@ || k == "GTK_A11Y"@,
    {
        proof {
            reveal_strlit("XDG_RUNTIME_DIR");
            reveal_strlit("WAYLAND_DISPLAY");
            reveal_strlit("XDG_SESSION_TYPE");
            reveal_strlit("XDG_CURRENT_DESKTOP");
            reveal_strlit("XDG_CONFIG_HOME");
            reveal_strlit("XDG_CACHE_HOME");
            reveal_strlit("XDG_DATA_HOME");
            reveal_strlit("QT_LINUX_ACCESSIBILITY_ALWAYS_ON");
            reveal_strlit("GTK_A11Y");
            assert("XDG_RUNTIME_DIR"@[0] != "WAYLAND_DISPLAY"@[0]);
            assert("XDG_CONFIG_HOME"@[0] != "WAYLAND_DISPLAY"@[0]);
            assert("XDG_RUNTIME_DIR"@[4] != "XDG_CONFIG_HOME"@[4]);
        }
        let mut env = Environment::new();
        let ghost e0 = env@;
        env.insert(String::from_str("XDG_RUNTIME_DIR"), self.runtime_dir());
        env.insert(String::from_str("WAYLAND_DISPLAY"), self.wayland_display.clone());
        env.insert(String::from_str("XDG_SESSION_TYPE"), String::from_str("wayland"));
        env.insert(String::from_str("XDG_CURRENT_DESKTOP"), String::from_str("KDE"));
        env.insert(String::from_str("XDG_CONFIG_HOME"), self.path("config"));
        env.insert(String::from_str("XDG_CACHE_HOME"), self.path("cache"));
        env.insert(String::from_str("XDG_DATA_HOME"), self.path("data"));
        env.insert(String::from_str("QT_LINUX_ACCESSIBILITY_ALWAYS_ON"), String::from_str("1"));
        env.insert(String::from_str("GTK_A11Y"), String::from_str("atspi"));
        proof {
            assert forall|k: Seq<char>| #[trigger] lookup(e0, k) is None by {}
        }
        env
    }

    /// Ends the seat: what remains to be stopped and removed. A detached seat
    /// leaves nothing.
    pub fn shutdown(self) -> (t: Teardown)
        ensures
            t.processes@ == self.helpers(),
            t.runtime_dir@ == self.runtime(),
    {
        Teardown { processes: self.processes, runtime_dir: self.seat_runtime }
    }

    /// Lets the seat outlive this value: its processes are handed back to be
    /// recorded, and nothing is left to tear down.
    pub fn detach(self) -> (r: (Vec<ProcessIdentity>, Teardown))
        ensures
            r.0@ == self.helpers(),
            r.1.processes@.len() == 0,
            r.1.runtime_dir@.len() == 0,
    {
        (self.processes, Teardown { processes: Vec::new(), runtime_dir: String::new() })
    }
}

} // verus!
