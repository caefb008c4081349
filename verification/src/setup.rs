//! Installation layout and the `doctor` report: where the installed program
//! and the GNOME extension live, and which prerequisites a session needs.
use crate::a11y::{to_lowercase, unicode_lower};
use crate::text::{chars_of, contains_lit, contains_text, eq_chars, is_absolute, join_path, join_path_string};
use vstd::prelude::*;

verus! {

/// Where the program is installed.
#[derive(Debug)]
pub struct Paths {
    pub data: String,
    pub bin: String,
}

/// The GNOME extension's UUID.
pub open spec fn extension_uuid() -> Seq<char> {
    "agent-desktop@local"@
}

impl Paths {
    /// The layout for this user: data under `XDG_DATA_HOME` (when set and not
    /// empty) or `~/.local/share`, the command under `bin` or `~/.local/bin`;
    /// every path must be absolute.
    pub fn discover(home: Option<&str>, data_home: Option<&str>, bin: Option<&str>) -> (r: Result<Paths, String>)
        ensures
            match home {
                None => r matches Err(m) && m@ == "HOME is required"@,
                Some(h) => if !is_absolute(h@) {
                    r matches Err(m) && m@ == "HOME must be absolute"@
                } else {
                    let data = match data_home {
                        Some(d) => if d@.len() > 0 { d@ } else { join_path(h@, ".local/share"@) },
                        None => join_path(h@, ".local/share"@),
                    };
                    let b = match bin {
                        Some(b) => b@,
                        None => join_path(h@, ".local/bin"@),
                    };
                    if !is_absolute(data) {
                        r matches Err(m) && m@ == "XDG_DATA_HOME must be absolute"@
                    } else if !is_absolute(b) {
                        r matches Err(m) && m@ == "--bin-dir must be absolute"@
                    } else {
                        r matches Ok(p) && p.data@ == data && p.bin@ == b
                    }
                },
            },
    {
        let h = match home {
            None => return Err(String::from_str("HOME is required")),
            Some(h) => h,
        };
        let hc = chars_of(h);
        if !(hc.len() > 0 && hc[0] == '/') {
            return Err(String::from_str("HOME must be absolute"));
        }
        let data = match data_home {
            Some(d) => if d.is_empty() {
                join_path_string(h, ".local/share")
            } else {
                String::from_str(d)
            },
            None => join_path_string(h, ".local/share"),
        };
        let dc = chars_of(data.as_str());
        if !(dc.len() > 0 && dc[0] == '/') {
            return Err(String::from_str("XDG_DATA_HOME must be absolute"));
        }
        let b = match bin {
            Some(b) => String::from_str(b),
            None => join_path_string(h, ".local/bin"),
        };
        let bc = chars_of(b.as_str());
        if !(bc.len() > 0 && bc[0] == '/') {
            return Err(String::from_str("--bin-dir must be absolute"));
        }
        Ok(Paths { data, bin: b })
    }

    /// The installed program of release `version`.
    pub fn executable(&self, version: &str) -> (r: String)
        ensures
            r@ == join_path(join_path(join_path(self.data@, "agent-desktop/versions"@), version@), "agent-desktop"@),
    {
        let a = join_path_string(self.data.as_str(), "agent-desktop/versions");
        let b = join_path_string(a.as_str(), version);
        join_path_string(b.as_str(), "agent-desktop")
    }

    /// The GNOME extension's directory.
    pub fn extension(&self) -> (r: String)
        ensures
            r@ == join_path(join_path(self.data@, "gnome-shell/extensions"@), extension_uuid()),
    {
        let a = join_path_string(self.data.as_str(), "gnome-shell/extensions");
        join_path_string(a.as_str(), "agent-desktop@local")
    }
}

/// One line of the doctor report.
#[derive(Debug)]
pub struct Check {
    pub name: String,
    pub ok: bool,
    pub required: bool,
    pub detail: String,
}

/// What the doctor found on this machine.
#[derive(Debug)]
pub struct DoctorFacts {
    /// Whether the checks are for managed virtual seats.
    pub virtual_mode: bool,
    /// `XDG_CURRENT_DESKTOP`, empty when unset.
    pub desktop: String,
    /// The installed program's path, and whether it is a file.
    pub executable: String,
    pub installed: bool,
    /// The KDE application entry's path, and whether it holds what setup writes.
    pub entry_path: String,
    pub entry_current: bool,
    /// Whether the installed GNOME extension script is this release's.
    pub extension_current: bool,
    /// The programs of `doctor_programs()` that are on `PATH`.
    pub available: Vec<String>,
    /// Whether `WAYLAND_DISPLAY`, `DISPLAY` and `DBUS_SESSION_BUS_ADDRESS` are
    /// set, and whether `XDG_RUNTIME_DIR` names a directory.
    pub wayland: bool,
    pub x11: bool,
    pub session_bus: bool,
    pub runtime_dir: bool,
}

/// The programs the doctor may ask about, in the order it asks.
pub open spec fn doctor_program_names() -> Seq<Seq<char>> {
    seq![
        "dbus-daemon"@,
        "kwin_wayland"@,
        "kbuildsycoca6"@,
        "Xwayland"@,
        "at-spi-bus-launcher"@,
        "/usr/libexec/at-spi-bus-launcher"@,
        "xdotool"@,
        "xmodmap"@,
        "wmctrl"@,
        "xprop"@,
        "maim"@,
        "import"@,
        "gio"@,
        "update-desktop-database"@,
    ]
}

/// The programs the doctor may ask about.
pub fn doctor_programs() -> (r: Vec<&'static str>)
    ensures
        r@.map_values(|p: &str| p@) == doctor_program_names(),
{
    let mut r: Vec<&'static str> = Vec::new();
    r.push("dbus-daemon");
    r.push("kwin_wayland");
    r.push("kbuildsycoca6");
    r.push("Xwayland");
    r.push("at-spi-bus-launcher");
    r.push("/usr/libexec/at-spi-bus-launcher");
    r.push("xdotool");
    r.push("xmodmap");
    r.push("wmctrl");
    r.push("xprop");
    r.push("maim");
    r.push("import");
    r.push("gio");
    r.push("update-desktop-database");
    assert(r@.map_values(|p: &str| p@) =~= doctor_program_names());
    r
}

pub open spec fn check_view(c: Check) -> (Seq<char>, bool, bool, Seq<char>) {
    (c.name@, c.ok, c.required, c.detail@)
}

pub open spec fn check_views(cs: Seq<Check>) -> Seq<(Seq<char>, bool, bool, Seq<char>)> {
    cs.map_values(|c: Check| check_view(c))
}

pub open spec fn texts(v: Seq<String>) -> Seq<Seq<char>> {
    v.map_values(|s: String| s@)
}

/// Whether `p` was found.
pub open spec fn found(f: DoctorFacts, p: Seq<char>) -> bool {
    texts(f.available@).contains(p)
}

/// A check that a program is installed.
pub open spec fn program_check(f: DoctorFacts, p: Seq<char>, why: Seq<char>) -> (Seq<char>, bool, bool, Seq<char>) {
    (p, found(f, p), true, "Install "@ + p + why)
}

/// The checks of a virtual-seat host.
pub open spec fn virtual_checks(f: DoctorFacts) -> Seq<(Seq<char>, bool, bool, Seq<char>)> {
    let why = " for managed KDE virtual seats"@;
    seq![
        program_check(f, "dbus-daemon"@, why),
        program_check(f, "kwin_wayland"@, why),
        program_check(f, "kbuildsycoca6"@, why),
        program_check(f, "Xwayland"@, why),
        (
            "at-spi-bus-launcher"@,
            found(f, "at-spi-bus-launcher"@) || found(f, "/usr/libexec/at-spi-bus-launcher"@),
            true,
            "Install the AT-SPI accessibility bus launcher"@,
        ),
    ]
}

/// The checks of a live desktop session.
pub open spec fn live_checks(f: DoctorFacts) -> Seq<(Seq<char>, bool, bool, Seq<char>)> {
    let desktop = unicode_lower(f.desktop@);
    let base = seq![
        (
            "desktop-session"@,
            f.wayland || f.x11,
            true,
            "Run from your KDE/GNOME graphical session with WAYLAND_DISPLAY or DISPLAY"@,
        ),
        ("session-bus"@, f.session_bus, true, "DBUS_SESSION_BUS_ADDRESS must refer to your graphical session bus"@),
        ("runtime-directory"@, f.runtime_dir, true, "XDG_RUNTIME_DIR must identify your session runtime directory"@),
    ];
    let why = " for X11 desktop operations"@;
    let x11 = if !f.wayland && f.x11 {
        seq![
            program_check(f, "xdotool"@, why),
            program_check(f, "xmodmap"@, why),
            program_check(f, "wmctrl"@, why),
            program_check(f, "xprop"@, why),
            ("x11-screenshot"@, found(f, "maim"@) || found(f, "import"@), true, "Install maim or ImageMagick import"@),
        ]
    } else {
        Seq::empty()
    };
    let kde = if contains_text(desktop, "kde"@) {
        seq![("kde-cache"@, found(f, "kbuildsycoca6"@), true, "Install KDE kbuildsycoca6 to refresh screenshot authorization"@)]
    } else {
        Seq::empty()
    };
    let gnome = if contains_text(desktop, "gnome"@) {
        seq![(
            "gnome-activation"@,
            false,
            false,
            "Extension activation is not probed; verify agent-desktop@local with gnome-extensions info"@,
        )]
    } else {
        Seq::empty()
    };
    base + x11 + kde + gnome
}

/// Every check of the doctor report, in order.
pub open spec fn doctor_spec(f: DoctorFacts) -> Seq<(Seq<char>, bool, bool, Seq<char>)> {
    let desktop = unicode_lower(f.desktop@);
    let common = seq![
        ("installation"@, f.installed, true, f.executable@ + "; run agent-desktop setup if missing"@),
        ("kde-registration"@, f.entry_current, !f.virtual_mode && contains_text(desktop, "kde"@), f.entry_path@),
        (
            "gnome-extension"@,
            f.extension_current,
            !f.virtual_mode && contains_text(desktop, "gnome"@),
            "Requires GNOME Shell 49; after login run gnome-extensions enable agent-desktop@local"@,
        ),
    ];
    common + if f.virtual_mode { virtual_checks(f) } else { live_checks(f) }
}

fn is_found(f: &DoctorFacts, p: &str) -> (b: bool)
    ensures
        b == found(*f, p@),
{
    let pc = chars_of(p);
    let mut i: usize = 0;
    while i < f.available.len()
        invariant
            i <= f.available@.len(),
            pc@ == p@,
            forall|j: int| 0 <= j < i ==> #[trigger] f.available@[j]@ != p@,
        decreases f.available@.len() - i,
    {
        let c = chars_of(f.available[i].as_str());
        if eq_chars(c.as_slice(), pc.as_slice()) {
            assert(texts(f.available@)[i as int] == p@);
            return true;
        }
        i += 1;
    }
    assert forall|j: int| 0 <= j < texts(f.available@).len() implies texts(f.available@)[j] != p@ by {
        assert(f.available@[j]@ != p@);
    }
    false
}

fn add_check(checks: &mut Vec<Check>, name: &str, ok: bool, required: bool, detail: String)
    ensures
        check_views(final(checks)@) == check_views(old(checks)@).push((name@, ok, required, detail@)),
{
    let ghost before = checks@;
    checks.push(Check { name: String::from_str(name), ok, required, detail });
    assert(check_views(checks@) =~= check_views(before).push((name@, ok, required, detail@)));
}

fn add_program(checks: &mut Vec<Check>, f: &DoctorFacts, program: &str, why: &str)
    ensures
        check_views(final(checks)@) == check_views(old(checks)@).push(program_check(*f, program@, why@)),
{
    let mut detail = String::from_str("Install ");
    detail.append(program);
    detail.append(why);
    let ok = is_found(f, program);
    add_check(checks, program, ok, true, detail);
}

/// The doctor's checks for what was found.
pub fn doctor_checks(f: &DoctorFacts) -> (r: Vec<Check>)
    ensures
        check_views(r@) == doctor_spec(*f),
{
    let lowered = to_lowercase(f.desktop.as_str());
    let dl = chars_of(lowered.as_str());
    let kde = contains_lit(dl.as_slice(), "kde");
    let gnome = contains_lit(dl.as_slice(), "gnome");
    let mut checks: Vec<Check> = Vec::new();
    let mut detail = f.executable.clone();
    detail.append("; run agent-desktop setup if missing");
    add_check(&mut checks, "installation", f.installed, true, detail);
    add_check(&mut checks, "kde-registration", f.entry_current, !f.virtual_mode && kde, f.entry_path.clone());
    add_check(
        &mut checks,
        "gnome-extension",
        f.extension_current,
        !f.virtual_mode && gnome,
        String::from_str("Requires GNOME Shell 49; after login run gnome-extensions enable agent-desktop@local"),
    );
    let ghost common = check_views(checks@);
    if f.virtual_mode {
        let why = " for managed KDE virtual seats";
        add_program(&mut checks, f, "dbus-daemon", why);
        add_program(&mut checks, f, "kwin_wayland", why);
        add_program(&mut checks, f, "kbuildsycoca6", why);
        add_program(&mut checks, f, "Xwayland", why);
        let ok = is_found(f, "at-spi-bus-launcher") || is_found(f, "/usr/libexec/at-spi-bus-launcher");
        add_check(&mut checks, "at-spi-bus-launcher", ok, true, String::from_str("Install the AT-SPI accessibility bus launcher"));
        assert(check_views(checks@) =~= common + virtual_checks(*f));
    } else {
        add_check(
            &mut checks,
            "desktop-session",
            f.wayland || f.x11,
            true,
            String::from_str("Run from your KDE/GNOME graphical session with WAYLAND_DISPLAY or DISPLAY"),
        );
        add_check(&mut checks, "session-bus", f.session_bus, true, String::from_str("DBUS_SESSION_BUS_ADDRESS must refer to your graphical session bus"));
        add_check(&mut checks, "runtime-directory", f.runtime_dir, true, String::from_str("XDG_RUNTIME_DIR must identify your session runtime directory"));
        let ghost with_base = check_views(checks@);
        if !f.wayland && f.x11 {
            let why = " for X11 desktop operations";
            add_program(&mut checks, f, "xdotool", why);
            add_program(&mut checks, f, "xmodmap", why);
            add_program(&mut checks, f, "wmctrl", why);
            add_program(&mut checks, f, "xprop", why);
            let ok = is_found(f, "maim") || is_found(f, "import");
            add_check(&mut checks, "x11-screenshot", ok, true, String::from_str("Install maim or ImageMagick import"));
        }
        let ghost with_x11 = check_views(checks@);
        if kde {
            let ok = is_found(f, "kbuildsycoca6");
            add_check(&mut checks, "kde-cache", ok, true, String::from_str("Install KDE kbuildsycoca6 to refresh screenshot authorization"));
        }
        let ghost with_kde = check_views(checks@);
        if gnome {
            add_check(
                &mut checks,
                "gnome-activation",
                false,
                false,
                String::from_str("Extension activation is not probed; verify agent-desktop@local with gnome-extensions info"),
            );
        }
        assert(check_views(checks@) =~= common + live_checks(*f));
    }
    checks
}

/// The report passes when every required check passes.
pub fn doctor_ok(checks: &[Check]) -> (b: bool)
    ensures
        b == forall|i: int| 0 <= i < checks@.len() ==> !(#[trigger] checks@[i]).required || checks@[i].ok,
{
    let mut i: usize = 0;
    while i < checks.len()
        invariant
            i <= checks@.len(),
            forall|j: int| 0 <= j < i ==> !(#[trigger] checks@[j]).required || checks@[j].ok,
        decreases checks@.len() - i,
    {
        if checks[i].required && !checks[i].ok {
            return false;
        }
        i += 1;
    }
    true
}

/// A check as a line of text: `OK`, `FAIL` (required) or `NOTE`, its name
/// and its detail.
pub fn check_line(check: &Check) -> (s: String)
    ensures
        s@ == (if check.ok { "OK"@ } else if check.required { "FAIL"@ } else { "NOTE"@ }) + " "@ + check.name@
            + ": "@ + check.detail@,
{
    let mut s = String::from_str(if check.ok {
        "OK"
    } else if check.required {
        "FAIL"
    } else {
        "NOTE"
    });
    s.append(" ");
    s.append(check.name.as_str());
    s.append(": ");
    s.append(check.detail.as_str());
    s
}

} // verus!
