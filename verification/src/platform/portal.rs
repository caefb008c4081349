//! The desktop portal's request protocol: the names of request handles, the
//! check that the portal answers on the handle that was asked for, and the
//! three-step remote-desktop session (create, select devices, start) with
//! the screenshot request beside it.
use crate::drivers::Probe;
use crate::error::BackendError;
use crate::text::{
    chars_of, decimal, decimal_string, eq_chars, eq_lit, replace_char, replace_char_vec, strip_start_all,
    strip_start_all_vec, string_of,
};
use vstd::prelude::*;

verus! {

/// Device kinds asked of the remote-desktop portal: keyboard (1) and pointer (2).
pub const DEVICE_TYPES: u32 = 3;

/// The sender part of a request path: the bus's unique name without its
/// leading colons, with each dot turned into an underscore.
pub open spec fn sender_of(unique_name: Seq<char>) -> Seq<char> {
    replace_char(strip_start_all(unique_name, ':'), '.', '_')
}

pub fn sender_token(unique_name: &str) -> (s: String)
    ensures
        s@ == sender_of(unique_name@),
{
    let c = chars_of(unique_name);
    let stripped = strip_start_all_vec(c.as_slice(), ':');
    let replaced = replace_char_vec(stripped.as_slice(), '.', '_');
    string_of(replaced.as_slice())
}

/// The handle token of the `n`-th request of process `pid`.
pub open spec fn token_of(n: u64, pid: u32) -> Seq<char> {
    "ad"@ + decimal(n as nat) + "_"@ + decimal(pid as nat)
}

pub fn request_token(n: u64, pid: u32) -> (s: String)
    ensures
        s@ == token_of(n, pid),
{
    let mut s = String::from_str("ad");
    let number = decimal_string(n);
    s.append(number.as_str());
    s.append("_");
    let process = decimal_string(pid as u64);
    s.append(process.as_str());
    s
}

/// The object path on which the portal answers a request.
pub open spec fn request_path_of(sender: Seq<char>, token: Seq<char>) -> Seq<char> {
    "/org/freedesktop/portal/desktop/request/"@ + sender + "/"@ + token
}

pub fn request_path(sender: &str, token: &str) -> (s: String)
    ensures
        s@ == request_path_of(sender@, token@),
{
    let mut s = String::from_str("/org/freedesktop/portal/desktop/request/");
    s.append(sender);
    s.append("/");
    s.append(token);
    s
}

/// A portal that answers on another handle than the one requested is refused.
pub fn check_handle(expected: &str, actual: &str) -> (r: Result<(), BackendError>)
    ensures
        expected@ == actual@ ==> r is Ok,
        expected@ != actual@ ==> (r matches Err(BackendError::Failed(m))
            && m@ == "Portal ignored the requested response handle"@),
{
    let e = chars_of(expected);
    let a = chars_of(actual);
    if eq_chars(e.as_slice(), a.as_slice()) {
        Ok(())
    } else {
        Err(BackendError::Failed(String::from_str("Portal ignored the requested response handle")))
    }
}

/// The request a remote-desktop session is waiting on.
#[derive(Clone, Copy, Debug, PartialEq, Eq, Structural)]
pub enum PortalRequest {
    CreateSession,
    SelectDevices,
    Start,
}

pub open spec fn denied_text(what: Seq<char>, code: u32) -> Seq<char> {
    what + " (code "@ + decimal(code as nat) + ")"@
}

fn denied(what: &str, code: u32) -> (e: BackendError)
    ensures
        e matches BackendError::ExternalCommandFailed { stderr } && stderr@ == denied_text(what@, code),
{
    let mut s = String::from_str(what);
    s.append(" (code ");
    let digits = decimal_string(code as u64);
    s.append(digits.as_str());
    s.append(")");
    BackendError::ExternalCommandFailed { stderr: s }
}

/// Why each request is refused when the user or the portal declines it.
pub open spec fn refusal_of(request: PortalRequest) -> Seq<char> {
    match request {
        PortalRequest::CreateSession => "CreateSession denied"@,
        PortalRequest::SelectDevices => "SelectDevices denied"@,
        PortalRequest::Start => "Start denied — approve the share dialog"@,
    }
}

/// Progress of a remote-desktop session through its three requests.
pub struct PortalSetup {
    pub waiting: PortalRequest,
    pub session: Option<String>,
}

/// What comes after an accepted answer.
pub enum PortalProgress {
    Ask(PortalRequest),
    Established(String),
}

impl PortalSetup {
    pub fn new() -> (s: Self)
        ensures
            s.waiting == PortalRequest::CreateSession,
            s.session is None,
    {
        PortalSetup { waiting: PortalRequest::CreateSession, session: None }
    }

    /// Takes the portal's answer (response code and, for session creation,
    /// the session handle it returned) to the request being waited on.
    pub fn answer(&mut self, code: u32, session_handle: Option<String>) -> (r: Result<PortalProgress, BackendError>)
        requires
            old(self).waiting != PortalRequest::CreateSession ==> old(self).session is Some,
        ensures
            code != 0 ==> (r matches Err(BackendError::ExternalCommandFailed { stderr })
                && stderr@ == denied_text(refusal_of(old(self).waiting), code)),
            code == 0 && old(self).waiting == PortalRequest::CreateSession && session_handle is None
                ==> (r matches Err(BackendError::ExternalCommandFailed { stderr })
                && stderr@ == "CreateSession missing session_handle"@),
            code == 0 && old(self).waiting == PortalRequest::CreateSession && session_handle is Some
                ==> (r matches Ok(PortalProgress::Ask(PortalRequest::SelectDevices))
                && final(self).waiting == PortalRequest::SelectDevices
                && final(self).session == session_handle),
            code == 0 && old(self).waiting == PortalRequest::SelectDevices ==> (r matches Ok(
                PortalProgress::Ask(PortalRequest::Start))
                && final(self).waiting == PortalRequest::Start
                && final(self).session == old(self).session),
            code == 0 && old(self).waiting == PortalRequest::Start ==> (r matches Ok(
                PortalProgress::Established(s))
                && old(self).session == Some(s)
                && final(self).waiting == PortalRequest::Start),
            r is Err ==> *final(self) == *old(self),
            final(self).waiting != PortalRequest::CreateSession ==> final(self).session is Some,
    {
        if code != 0 {
            let what = match self.waiting {
                PortalRequest::CreateSession => "CreateSession denied",
                PortalRequest::SelectDevices => "SelectDevices denied",
                PortalRequest::Start => "Start denied — approve the share dialog",
            };
            return Err(denied(what, code));
        }
        match self.waiting {
            PortalRequest::CreateSession => match session_handle {
                Some(h) => {
                    self.session = Some(h);
                    self.waiting = PortalRequest::SelectDevices;
                    Ok(PortalProgress::Ask(PortalRequest::SelectDevices))
                },
                None => Err(BackendError::ExternalCommandFailed {
                    stderr: String::from_str("CreateSession missing session_handle"),
                }),
            },
            PortalRequest::SelectDevices => {
                self.waiting = PortalRequest::Start;
                Ok(PortalProgress::Ask(PortalRequest::Start))
            },
            PortalRequest::Start => match &self.session {
                Some(s) => Ok(PortalProgress::Established(s.clone())),
                None => Err(BackendError::ExternalCommandFailed {
                    stderr: String::from_str("CreateSession missing session_handle"),
                }),
            },
        }
    }
}

/// The screenshot portal's answer: the image's URI when it was granted.
pub fn screenshot_answer(code: u32, uri: Option<String>) -> (r: Result<String, BackendError>)
    ensures
        code != 0 ==> (r matches Err(BackendError::ExternalCommandFailed { stderr })
            && stderr@ == denied_text("screenshot denied/cancelled"@, code)),
        code == 0 && uri is None ==> (r matches Err(BackendError::ExternalCommandFailed { stderr })
            && stderr@ == "screenshot response missing uri"@),
        code == 0 && uri is Some ==> (r matches Ok(u) && uri == Some(u)),
{
    if code != 0 {
        return Err(denied("screenshot denied/cancelled", code));
    }
    match uri {
        Some(u) => Ok(u),
        None => Err(BackendError::ExternalCommandFailed {
            stderr: String::from_str("screenshot response missing uri"),
        }),
    }
}

/// The screenshot portal captures the whole desktop only.
pub fn check_full_capture(full: bool) -> (r: Result<(), BackendError>)
    ensures
        full ==> r is Ok,
        !full ==> (r matches Err(BackendError::Unsupported { reason }) && reason@
            == "The screenshot portal only provides full-desktop capture"@),
{
    if full {
        Ok(())
    } else {
        Err(BackendError::Unsupported {
            reason: String::from_str("The screenshot portal only provides full-desktop capture"),
        })
    }
}

/// Whether bus names include the desktop portal's.
pub open spec fn lists_portal(names: Seq<String>) -> bool {
    exists|i: int| 0 <= i < names.len() && #[trigger] names[i]@ == "org.freedesktop.portal.Desktop"@
}

/// Whether the desktop portal is on the bus, from the bus's names (or the
/// error listing them gave).
pub fn portal_present(names: &Result<Vec<String>, String>) -> (b: bool)
    ensures
        b == (names matches Ok(ns) && lists_portal(ns@)),
{
    match names {
        Err(_) => false,
        Ok(ns) => {
            let mut i: usize = 0;
            while i < ns.len()
                invariant
                    names matches Ok(x) && x@ == ns@,
                    i <= ns@.len(),
                    forall|j: int| 0 <= j < i ==> #[trigger] ns@[j]@ != "org.freedesktop.portal.Desktop"@,
                decreases ns@.len() - i,
            {
                let c = chars_of(ns[i].as_str());
                if eq_lit(c.as_slice(), "org.freedesktop.portal.Desktop") {
                    assert(ns@[i as int]@ == "org.freedesktop.portal.Desktop"@);
                    return true;
                }
                i += 1;
            }
            false
        },
    }
}

/// The screenshot portal's probe.
pub fn screenshot_probe(present: bool) -> (p: Probe)
    ensures
        p.id@ == "portal-screenshot"@,
        p.ok == present,
        p.detail@ == if present { "portal Desktop present"@ } else { "org.freedesktop.portal.Desktop missing"@ },
{
    let detail = if present { "portal Desktop present" } else { "org.freedesktop.portal.Desktop missing" };
    Probe { id: "portal-screenshot", ok: present, detail: String::from_str(detail) }
}

/// The remote-desktop portal's probe: authorization waits for the first
/// input.
pub fn remote_desktop_probe(present: bool) -> (p: Probe)
    ensures
        p.id@ == "portal-remotedesktop"@,
        p.ok == present,
        p.detail@ == if present {
            "Portal present; authorization is requested on first input"@
        } else {
            "RemoteDesktop portal unavailable"@
        },
{
    let detail = if present {
        "Portal present; authorization is requested on first input"
    } else {
        "RemoteDesktop portal unavailable"
    };
    Probe { id: "portal-remotedesktop", ok: present, detail: String::from_str(detail) }
}

} // verus!
