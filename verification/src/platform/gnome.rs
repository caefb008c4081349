//! What the GNOME backends report when probed: Mutter's remote-desktop
//! service for input, the companion shell extension for windows and
//! screenshots.
use crate::drivers::Probe;
use crate::session::health::{signed_decimal, signed_decimal_string};
use vstd::prelude::*;

verus! {

/// The input probe from Mutter's remote-desktop `Version` property, or the
/// error that reading it gave.
pub fn mutter_probe(version: Result<i32, String>) -> (p: Probe)
    ensures
        p.id@ == "mutter-eis"@,
        match version {
            Ok(v) => p.ok && p.detail@ == "Mutter RemoteDesktop version "@ + signed_decimal(v as int),
            Err(e) => !p.ok && p.detail@ == e@,
        },
{
    match version {
        Ok(v) => {
            let mut detail = String::from_str("Mutter RemoteDesktop version ");
            let n = signed_decimal_string(v);
            detail.append(n.as_str());
            Probe { id: "mutter-eis", ok: true, detail }
        },
        Err(e) => Probe { id: "mutter-eis", ok: false, detail: e },
    }
}

/// The probe of a backend served by the companion shell extension, from
/// whether its window query answered.
pub fn extension_probe(id: &'static str, query: Result<(), String>) -> (p: Probe)
    ensures
        p.id == id,
        match query {
            Ok(()) => p.ok && p.detail@ == "GNOME companion extension reachable"@,
            Err(e) => !p.ok && p.detail@ == "Enable agent-desktop@local: "@ + e@,
        },
{
    match query {
        Ok(()) => Probe { id, ok: true, detail: String::from_str("GNOME companion extension reachable") },
        Err(e) => {
            let mut detail = String::from_str("Enable agent-desktop@local: ");
            detail.append(e.as_str());
            Probe { id, ok: false, detail }
        },
    }
}

} // verus!
