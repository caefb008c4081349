//! The per-capability backend registry: candidates are probed in order and
//! the first that passes serves its capability; probing a capability stops at
//! its winner, and every probe made is kept for diagnostics.
use crate::drivers::{Desktop, Probe, SessionType};
use crate::types::ToolError;
use vstd::prelude::*;

verus! {

/// The backends serving screenshots (`S`), input (`I`) and window targeting
/// (`W`), and the probes made to choose them.
pub struct Registry<S, I, W> {
    pub shot: Option<S>,
    pub input: Option<I>,
    pub windows: Option<W>,
    pub probes: Vec<Probe>,
}

/// The message when no backend serves `capability`.
pub open spec fn unavailable_message(capability: Seq<char>) -> Seq<char> {
    "No backend for "@ + capability + "; inspect agentdesktop.getState() for probe failures"@
}

/// The refusal when no backend serves `capability`.
pub fn unavailable(capability: &str) -> (e: ToolError)
    ensures
        e.code@ == "unsupported"@,
        e.message@ == unavailable_message(capability@),
        !e.retryable,
{
    let mut message = String::from_str("No backend for ");
    message.append(capability);
    message.append("; inspect agentdesktop.getState() for probe failures");
    ToolError { code: String::from_str("unsupported"), message, retryable: false }
}

impl<S, I, W> Registry<S, I, W> {
    /// No backend chosen and nothing probed yet.
    pub fn new() -> (r: Self)
        ensures
            r.shot is None,
            r.input is None,
            r.windows is None,
            r.probes@.len() == 0,
    {
        Registry { shot: None, input: None, windows: None, probes: Vec::new() }
    }

    /// Records the probe of the next screenshot candidate. A passing probe
    /// makes it the screenshot backend; the answer says whether to go on
    /// probing screenshot candidates. Once a backend serves screenshots, a
    /// later candidate is not considered and its probe not recorded.
    pub fn offer_shot(&mut self, driver: S, probe: Probe) -> (more: bool)
        ensures
            old(self).shot is Some ==> (final(self).probes@ == old(self).probes@ && final(self).shot
                == old(self).shot && !more),
            old(self).shot is None ==> (final(self).probes@ == old(self).probes@.push(probe)
                && final(self).shot == (if probe.ok { Some(driver) } else { None }) && more == !probe.ok),
            final(self).input == old(self).input,
            final(self).windows == old(self).windows,
    {
        if self.shot.is_some() {
            return false;
        }
        let ok = probe.ok;
        self.probes.push(probe);
        if ok {
            self.shot = Some(driver);
        }
        !ok
    }

    /// As `offer_shot`, for input candidates.
    pub fn offer_input(&mut self, driver: I, probe: Probe) -> (more: bool)
        ensures
            old(self).input is Some ==> (final(self).probes@ == old(self).probes@ && final(self).input
                == old(self).input && !more),
            old(self).input is None ==> (final(self).probes@ == old(self).probes@.push(probe)
                && final(self).input == (if probe.ok { Some(driver) } else { None }) && more == !probe.ok),
            final(self).shot == old(self).shot,
            final(self).windows == old(self).windows,
    {
        if self.input.is_some() {
            return false;
        }
        let ok = probe.ok;
        self.probes.push(probe);
        if ok {
            self.input = Some(driver);
        }
        !ok
    }

    /// As `offer_shot`, for window-targeting candidates.
    pub fn offer_windows(&mut self, driver: W, probe: Probe) -> (more: bool)
        ensures
            old(self).windows is Some ==> (final(self).probes@ == old(self).probes@ && final(self).windows
                == old(self).windows && !more),
            old(self).windows is None ==> (final(self).probes@ == old(self).probes@.push(probe)
                && final(self).windows == (if probe.ok { Some(driver) } else { None }) && more == !probe.ok),
            final(self).shot == old(self).shot,
            final(self).input == old(self).input,
    {
        if self.windows.is_some() {
            return false;
        }
        let ok = probe.ok;
        self.probes.push(probe);
        if ok {
            self.windows = Some(driver);
        }
        !ok
    }

    /// The screenshot backend, or the refusal naming the capability.
    pub fn shot(&self) -> (r: Result<&S, ToolError>)
        ensures
            match self.shot {
                Some(s) => r == Ok::<&S, ToolError>(&s),
                None => r matches Err(e) && e.code@ == "unsupported"@ && e.message@
                    == unavailable_message("screenshots"@) && !e.retryable,
            },
    {
        match &self.shot {
            Some(s) => Ok(s),
            None => Err(unavailable("screenshots")),
        }
    }

    /// The input backend, or the refusal naming the capability.
    pub fn input(&self) -> (r: Result<&I, ToolError>)
        ensures
            match self.input {
                Some(s) => r == Ok::<&I, ToolError>(&s),
                None => r matches Err(e) && e.code@ == "unsupported"@ && e.message@
                    == unavailable_message("input"@) && !e.retryable,
            },
    {
        match &self.input {
            Some(s) => Ok(s),
            None => Err(unavailable("input")),
        }
    }

    /// The window-targeting backend, or the refusal naming the capability.
    pub fn windows(&self) -> (r: Result<&W, ToolError>)
        ensures
            match self.windows {
                Some(s) => r == Ok::<&W, ToolError>(&s),
                None => r matches Err(e) && e.code@ == "unsupported"@ && e.message@
                    == unavailable_message("window targeting"@) && !e.retryable,
            },
    {
        match &self.windows {
            Some(s) => Ok(s),
            None => Err(unavailable("window targeting")),
        }
    }
}

/// A backend's probe from its check: `ready` when the check passed, the
/// check's error otherwise.
pub fn reached(id: &'static str, check: Result<(), String>, ready: &str) -> (p: Probe)
    ensures
        p.id == id,
        match check {
            Ok(()) => p.ok && p.detail@ == ready@,
            Err(e) => !p.ok && p.detail@ == e@,
        },
{
    match check {
        Ok(()) => Probe { id, ok: true, detail: String::from_str(ready) },
        Err(e) => Probe { id, ok: false, detail: e },
    }
}

/// The candidates of each capability, in the order they are probed: the
/// first whose probe passes serves. X11 sessions use the X server; Wayland
/// sessions the compositor's own services (KWin or GNOME's), then the
/// desktop portal for screenshots and input.
pub struct CandidateLists {
    pub shots: Vec<&'static str>,
    pub inputs: Vec<&'static str>,
    pub windows: Vec<&'static str>,
}

pub open spec fn texts_of(v: Seq<&'static str>) -> Seq<Seq<char>> {
    v.map_values(|s: &'static str| s@)
}

pub open spec fn shot_candidates(session: SessionType, desktop: Desktop) -> Seq<Seq<char>> {
    match session {
        SessionType::X11 => seq!["x11-getimage"@],
        SessionType::Wayland => match desktop {
            Desktop::Kde => seq!["kwin-screenshot2"@, "portal-screenshot"@],
            Desktop::Gnome => seq!["gnome-shell-screenshot"@, "portal-screenshot"@],
            Desktop::Other => seq!["portal-screenshot"@],
        },
    }
}

pub open spec fn input_candidates(session: SessionType, desktop: Desktop) -> Seq<Seq<char>> {
    match session {
        SessionType::X11 => seq!["x11-xtest"@],
        SessionType::Wayland => match desktop {
            Desktop::Kde => seq!["kwin-eis"@, "portal-remotedesktop"@],
            Desktop::Gnome => seq!["mutter-eis"@, "portal-remotedesktop"@],
            Desktop::Other => seq!["portal-remotedesktop"@],
        },
    }
}

pub open spec fn window_candidates(session: SessionType, desktop: Desktop) -> Seq<Seq<char>> {
    match session {
        SessionType::X11 => seq!["x11-ewmh"@],
        SessionType::Wayland => match desktop {
            Desktop::Kde => seq!["kwin-scripting"@],
            Desktop::Gnome => seq!["gnome-shell-extension"@],
            Desktop::Other => seq![],
        },
    }
}

/// The backends a session probes, by capability and in order.
pub fn candidates(session: SessionType, desktop: Desktop) -> (c: CandidateLists)
    ensures
        texts_of(c.shots@) == shot_candidates(session, desktop),
        texts_of(c.inputs@) == input_candidates(session, desktop),
        texts_of(c.windows@) == window_candidates(session, desktop),
{
    let mut shots: Vec<&'static str> = Vec::new();
    let mut inputs: Vec<&'static str> = Vec::new();
    let mut windows: Vec<&'static str> = Vec::new();
    match session {
        SessionType::X11 => {
            shots.push("x11-getimage");
            inputs.push("x11-xtest");
            windows.push("x11-ewmh");
        },
        SessionType::Wayland => {
            match desktop {
                Desktop::Kde => {
                    shots.push("kwin-screenshot2");
                    inputs.push("kwin-eis");
                    windows.push("kwin-scripting");
                },
                Desktop::Gnome => {
                    inputs.push("mutter-eis");
                    windows.push("gnome-shell-extension");
                    shots.push("gnome-shell-screenshot");
                },
                Desktop::Other => {},
            }
            shots.push("portal-screenshot");
            inputs.push("portal-remotedesktop");
        },
    }
    assert(texts_of(shots@) =~= shot_candidates(session, desktop));
    assert(texts_of(inputs@) =~= input_candidates(session, desktop));
    assert(texts_of(windows@) =~= window_candidates(session, desktop));
    CandidateLists { shots, inputs, windows }
}

} // verus!
