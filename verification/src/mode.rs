//! Seat modes: the user's live desktop, or an isolated virtual compositor.
//! One mode per process, chosen at startup.
use crate::text::{
    chars_of, decimal, decimal_string, string_views, eq_lit, lines, lines_vec, lower, lower_vec, slice_from, starts_with_lit,
    strip_end_all, strip_end_all_vec, strip_start_all, strip_start_all_vec, string_of, views,
};
use vstd::prelude::*;
use vstd::string::*;

verus! {

#[derive(Debug, Clone, Copy, PartialEq, Eq, Structural)]
pub enum Mode {
    Live,
    Virtual,
}

impl Mode {
    /// `virtual` in any case selects the virtual seat; anything else is live.
    pub fn parse(s: &str) -> (m: Mode)
        ensures
            m == (if lower(s@) == "virtual"@ { Mode::Virtual } else { Mode::Live }),
    {
        let v = chars_of(s);
        let n = lower_vec(v.as_slice());
        if eq_lit(n.as_slice(), "virtual") {
            Mode::Virtual
        } else {
            Mode::Live
        }
    }
}

/// Handle to a booted virtual seat (processes and the environment it exports).
pub struct VirtualSeat {
    pub pids: Vec<i32>,
    pub bus_address: String,
    pub wayland_display: String,
    pub env_file: String,
}

/// `trim_matches(c)`: every leading and trailing `c` removed.
pub open spec fn strip_both(s: Seq<char>, c: char) -> Seq<char> {
    strip_end_all(strip_start_all(s, c), c)
}

/// The value of a `DBUS_SESSION_BUS_ADDRESS=...` shell assignment line, with
/// the `;` terminator and any quoting removed.
pub open spec fn address_value(line: Seq<char>) -> Seq<char> {
    let rest = line.skip("DBUS_SESSION_BUS_ADDRESS="@.len() as int);
    strip_both(strip_both(strip_end_all(rest, ';'), '\''), '"')
}

pub open spec fn is_address_line(line: Seq<char>) -> bool {
    "DBUS_SESSION_BUS_ADDRESS="@.len() <= line.len() && line.take(
        "DBUS_SESSION_BUS_ADDRESS="@.len() as int,
    ) == "DBUS_SESSION_BUS_ADDRESS="@
}

/// The address from the first assignment line, if any.
pub open spec fn first_address(ls: Seq<Seq<char>>) -> Option<Seq<char>>
    decreases ls.len(),
{
    if ls.len() == 0 {
        None
    } else if is_address_line(ls[0]) {
        Some(address_value(ls[0]))
    } else {
        first_address(ls.drop_first())
    }
}

/// The session bus address in `dbus-launch --sh-syntax` output.
pub open spec fn dbus_address(out: Seq<char>) -> Option<Seq<char>> {
    first_address(lines(out))
}

fn strip_both_vec(s: &[char], c: char) -> (r: Vec<char>)
    ensures
        r@ == strip_both(s@, c),
{
    let a = strip_start_all_vec(s, c);
    strip_end_all_vec(a.as_slice(), c)
}

/// The session bus address in `dbus-launch --sh-syntax` output.
pub fn parse_dbus_address(sh_output: &str) -> (r: Option<String>)
    ensures
        match dbus_address(sh_output@) {
            Some(a) => r matches Some(x) && x@ == a,
            None => r is None,
        },
{
    let v = chars_of(sh_output);
    let ls = lines_vec(v.as_slice());
    let ghost all = lines(sh_output@);
    let mut i: usize = 0;
    assert(all.skip(0) =~= all);
    while i < ls.len()
        invariant
            i <= ls@.len(),
            views(ls@) == all,
            all == lines(sh_output@),
            first_address(all) == first_address(all.skip(i as int)),
        decreases ls@.len() - i,
    {
        let line = &ls[i];
        assert(line@ == all[i as int]);
        assert(all.skip(i as int)[0] == all[i as int]);
        if starts_with_lit(line.as_slice(), "DBUS_SESSION_BUS_ADDRESS=") {
            let rest = slice_from(line.as_slice(), "DBUS_SESSION_BUS_ADDRESS=".unicode_len());
            let a = strip_end_all_vec(rest.as_slice(), ';');
            let b = strip_both_vec(a.as_slice(), '\'');
            let c = strip_both_vec(b.as_slice(), '"');
            return Some(string_of(c.as_slice()));
        }
        assert(all.skip(i as int).drop_first() =~= all.skip(i + 1));
        i += 1;
    }
    None
}

/// The arguments of the compositor of a single virtual seat.
pub open spec fn virtual_kwin_arguments(width: u32, height: u32) -> Seq<Seq<char>> {
    seq!["--virtual"@, "--width"@, decimal(width as nat), "--height"@, decimal(height as nat), "--xwayland"@]
}

/// The arguments that start the compositor of a single virtual seat.
pub fn virtual_kwin_args(width: u32, height: u32) -> (r: Vec<String>)
    ensures
        string_views(r@) == virtual_kwin_arguments(width, height),
{
    let mut r: Vec<String> = Vec::new();
    r.push(String::from_str("--virtual"));
    r.push(String::from_str("--width"));
    r.push(decimal_string(width as u64));
    r.push(String::from_str("--height"));
    r.push(decimal_string(height as u64));
    r.push(String::from_str("--xwayland"));
    assert(string_views(r@) =~= virtual_kwin_arguments(width, height));
    r
}

/// The environment file of a single virtual seat: its bus and display, a
/// Wayland KDE session.
pub open spec fn virtual_env_text(bus_address: Seq<char>, display: Seq<char>) -> Seq<char> {
    "DBUS_SESSION_BUS_ADDRESS="@ + bus_address + "\nWAYLAND_DISPLAY="@ + display
        + "\nXDG_SESSION_TYPE=wayland\nXDG_CURRENT_DESKTOP=KDE\n"@
}

/// The text of a single virtual seat's environment file.
pub fn virtual_env(bus_address: &str, display: &str) -> (r: String)
    ensures
        r@ == virtual_env_text(bus_address@, display@),
{
    let mut r = String::from_str("DBUS_SESSION_BUS_ADDRESS=");
    r.append(bus_address);
    r.append("\nWAYLAND_DISPLAY=");
    r.append(display);
    r.append("\nXDG_SESSION_TYPE=wayland\nXDG_CURRENT_DESKTOP=KDE\n");
    r
}

} // verus!
