//! The split between display protocols (Wayland, X11) and compositors (KDE,
//! GNOME, others), and the shapes drivers hand back.
use crate::text::{chars_of, contains_lit, contains_text, eq_lit, lower, lower_vec};
use crate::types::{Bbox, Ref};
use vstd::prelude::*;

verus! {

#[derive(Debug, Clone, Copy, PartialEq, Eq, Structural)]
pub enum SessionType {
    Wayland,
    X11,
}

#[derive(Debug, Clone, Copy, PartialEq, Eq, Structural)]
pub enum Desktop {
    Kde,
    Gnome,
    Other,
}

/// The outcome of asking a driver whether it can serve here.
#[derive(Debug, Clone)]
pub struct Probe {
    pub id: &'static str,
    pub ok: bool,
    pub detail: String,
}

/// What a screenshot covers.
#[derive(Debug, Clone)]
pub enum ShotTarget {
    Full,
    Window(Ref),
    Element(Ref),
}

/// An encoded screenshot and the desktop-coordinate size its pixels map to.
#[derive(Debug, Clone)]
pub struct Shot {
    pub bytes: Vec<u8>,
    pub format: ShotFormat,
    pub coord_w: u32,
    pub coord_h: u32,
}

#[derive(Debug, Clone, Copy, PartialEq, Eq, Structural)]
pub enum ShotFormat {
    Png,
    Jpeg,
}

/// A top-level window as a window driver reports it.
#[derive(Debug, Clone)]
pub struct WindowInfo {
    pub window_ref: Ref,
    pub title: String,
    pub class: String,
    /// The Wayland app ID, empty where the protocol has none.
    pub app_id: String,
    /// The owning process, where known.
    pub pid: Option<u32>,
    pub minimized: bool,
    /// `x11` or `wayland`, where known.
    pub client_protocol: Option<String>,
    pub geometry: Bbox,
    pub screen: u32,
    pub is_active: bool,
}

/// The session type the environment describes: `XDG_SESSION_TYPE=x11` (in
/// any case) is X11; otherwise a Wayland display means Wayland, an X display
/// means X11, and Wayland is assumed when neither is set.
pub open spec fn session_of(session_type: Seq<char>, wayland: bool, display: bool) -> SessionType {
    if lower(session_type) == "x11"@ {
        SessionType::X11
    } else if wayland {
        SessionType::Wayland
    } else if display {
        SessionType::X11
    } else {
        SessionType::Wayland
    }
}

/// `session_type` is `XDG_SESSION_TYPE` (empty when unset); `wayland` and
/// `display` say whether `WAYLAND_DISPLAY` and `DISPLAY` are set.
pub fn detect_session(session_type: &str, wayland: bool, display: bool) -> (r: SessionType)
    ensures
        r == session_of(session_type@, wayland, display),
{
    let v = chars_of(session_type);
    let l = lower_vec(v.as_slice());
    if eq_lit(l.as_slice(), "x11") {
        SessionType::X11
    } else if wayland {
        SessionType::Wayland
    } else if display {
        SessionType::X11
    } else {
        SessionType::Wayland
    }
}

/// The compositor family `XDG_CURRENT_DESKTOP` names, in any case.
pub open spec fn desktop_of(current: Seq<char>) -> Desktop {
    if contains_text(lower(current), "kde"@) {
        Desktop::Kde
    } else if contains_text(lower(current), "gnome"@) {
        Desktop::Gnome
    } else {
        Desktop::Other
    }
}

/// `current` is `XDG_CURRENT_DESKTOP`, empty when unset.
pub fn detect_desktop(current: &str) -> (r: Desktop)
    ensures
        r == desktop_of(current@),
{
    let v = chars_of(current);
    let l = lower_vec(v.as_slice());
    if contains_lit(l.as_slice(), "kde") {
        Desktop::Kde
    } else if contains_lit(l.as_slice(), "gnome") {
        Desktop::Gnome
    } else {
        Desktop::Other
    }
}

} // verus!
