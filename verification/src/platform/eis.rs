//! Emulated-input (EIS) negotiation: which capabilities a seat is asked for,
//! which advertised devices are taken, when the link is ready or lost, and
//! the bookkeeping of keys and buttons held while a device emulates.
//!
//! Devices are named by opaque integers that the caller assigns to the
//! protocol's device objects; events are handed in one at a time and the
//! returned action says what to send back.
use crate::error::BackendError;
use crate::keymap::{BTN_LEFT, BTN_MIDDLE, BTN_RIGHT};
use crate::types::Button;
use vstd::prelude::*;

verus! {

/// What a seat is asked to bind, or what an advertised device offers.
#[derive(Clone, Copy, Debug, PartialEq, Eq, Structural)]
pub struct Capabilities {
    pub pointer: bool,
    pub pointer_absolute: bool,
    pub button: bool,
    pub scroll: bool,
    pub keyboard: bool,
}

impl Capabilities {
    /// Can place the pointer absolutely and press buttons.
    pub open spec fn clicks(self) -> bool {
        self.pointer_absolute && self.button
    }

    pub fn can_click(&self) -> (b: bool)
        ensures
            b == self.clicks(),
    {
        self.pointer_absolute && self.button
    }
}

/// Capabilities bound on every seat by a session: the keyboard when typing is
/// wanted, the whole pointer family (with scrolling) when pointing is.
pub open spec fn requested(keyboard: bool, pointer: bool) -> Capabilities {
    Capabilities {
        pointer: pointer,
        pointer_absolute: pointer,
        button: pointer,
        scroll: pointer,
        keyboard: keyboard,
    }
}

pub fn requested_capabilities(keyboard: bool, pointer: bool) -> (c: Capabilities)
    ensures
        c == requested(keyboard, pointer),
{
    Capabilities { pointer, pointer_absolute: pointer, button: pointer, scroll: pointer, keyboard }
}

/// Capabilities bound by the direct KWin handshake: scrolling always, the
/// keyboard and the pointer family as expected.
pub open spec fn handshake_request(keyboard: bool, pointer: bool) -> Capabilities {
    Capabilities {
        pointer: pointer,
        pointer_absolute: pointer,
        button: pointer,
        scroll: true,
        keyboard: keyboard,
    }
}

pub fn handshake_capabilities(keyboard: bool, pointer: bool) -> (c: Capabilities)
    ensures
        c == handshake_request(keyboard, pointer),
{
    Capabilities { pointer, pointer_absolute: pointer, button: pointer, scroll: true, keyboard }
}


/// The evdev code an emulated button press sends.
pub fn button_code(b: Button) -> (code: u32)
    ensures
        code == match b {
            Button::Left => BTN_LEFT,
            Button::Right => BTN_RIGHT,
            Button::Middle => BTN_MIDDLE,
        },
{
    match b {
        Button::Left => BTN_LEFT,
        Button::Right => BTN_RIGHT,
        Button::Middle => BTN_MIDDLE,
    }
}

/// One protocol event seen while a session is being set up.
pub enum SetupEvent {
    SeatAdded,
    DeviceAdded { device: u64, offers: Capabilities },
    DeviceResumed { device: u64 },
    DevicePaused { device: u64 },
    /// The server hung up; `explanation` is its reason as printed for a log.
    Disconnected { explanation: String },
    Other,
}

pub enum SetupOutcome {
    /// Keep reading events.
    Pending,
    /// The primary device (and the keyboard device, when both kinds are
    /// wanted) has resumed.
    Ready { device: u64, keyboard: Option<u64> },
    Failed(BackendError),
}

/// What to do after one event: bind these capabilities on the new seat
/// (then flush), and whether setup is over.
pub struct SetupAction {
    pub bind: Option<Capabilities>,
    pub outcome: SetupOutcome,
}

/// Device selection while an emulated-input session comes up.
pub struct DeviceSetup {
    pub keyboard: bool,
    pub pointer: bool,
    pub chosen: Option<u64>,
    pub auxiliary: Option<u64>,
    pub resumed: Vec<u64>,
}

pub open spec fn chosen_after_added(
    keyboard: bool,
    pointer: bool,
    chosen: Option<u64>,
    device: u64,
    offers: Capabilities,
) -> Option<u64> {
    if !pointer && keyboard && offers.keyboard {
        Some(device)
    } else if pointer && offers.clicks() && chosen is None {
        Some(device)
    } else {
        chosen
    }
}

pub open spec fn auxiliary_after_added(
    keyboard: bool,
    pointer: bool,
    auxiliary: Option<u64>,
    device: u64,
    offers: Capabilities,
) -> Option<u64> {
    if pointer && keyboard && offers.keyboard {
        Some(device)
    } else {
        auxiliary
    }
}

impl DeviceSetup {
    /// The primary device has resumed, and so has the keyboard device when
    /// both keyboard and pointer are wanted.
    pub open spec fn ready(&self) -> bool {
        &&& self.chosen matches Some(d) && self.resumed@.contains(d)
        &&& (self.keyboard && self.pointer) ==> (self.auxiliary matches Some(a)
            && self.resumed@.contains(a))
    }

    pub fn new(keyboard: bool, pointer: bool) -> (s: Self)
        ensures
            s.keyboard == keyboard,
            s.pointer == pointer,
            s.chosen is None,
            s.auxiliary is None,
            s.resumed@.len() == 0,
    {
        DeviceSetup { keyboard, pointer, chosen: None, auxiliary: None, resumed: Vec::new() }
    }

    fn has_resumed(&self, device: u64) -> (b: bool)
        ensures
            b == self.resumed@.contains(device),
    {
        let mut i: usize = 0;
        while i < self.resumed.len()
            invariant
                i <= self.resumed@.len(),
                forall|k: int| 0 <= k < i ==> self.resumed@[k] != device,
            decreases self.resumed@.len() - i,
        {
            if self.resumed[i] == device {
                return true;
            }
            i += 1;
        }
        false
    }

    fn is_ready(&self) -> (b: bool)
        ensures
            b == self.ready(),
    {
        let primary = match self.chosen {
            Some(d) => self.has_resumed(d),
            None => false,
        };
        let secondary = if self.keyboard && self.pointer {
            match self.auxiliary {
                Some(a) => self.has_resumed(a),
                None => false,
            }
        } else {
            true
        };
        primary && secondary
    }

    fn forget(&mut self, device: u64)
        ensures
            final(self).keyboard == old(self).keyboard,
            final(self).pointer == old(self).pointer,
            final(self).chosen == old(self).chosen,
            final(self).auxiliary == old(self).auxiliary,
            forall|x: u64| final(self).resumed@.contains(x) <==> (old(self).resumed@.contains(x) && x != device),
    {
        let ghost before = self.resumed@;
        let mut kept: Vec<u64> = Vec::new();
        let mut i: usize = 0;
        while i < self.resumed.len()
            invariant
                i <= self.resumed@.len(),
                self.resumed@ == before,
                forall|x: u64| kept@.contains(x) <==> (before.take(i as int).contains(x) && x != device),
            decreases self.resumed@.len() - i,
        {
            let d = self.resumed[i];
            let ghost kept_before = kept@;
            proof {
                assert(before.take(i as int + 1) == before.take(i as int).push(d));
            }
            if d != device {
                kept.push(d);
            }
            i += 1;
            proof {
                vstd::seq_lib::lemma_seq_contains_after_push(before.take(i as int - 1), d, device);
                assert forall|x: u64| kept@.contains(x) <==> (before.take(i as int).contains(x) && x != device) by {
                    vstd::seq_lib::lemma_seq_contains_after_push(before.take(i as int - 1), d, x);
                    if d != device {
                        vstd::seq_lib::lemma_seq_contains_after_push(kept_before, d, x);
                    }
                }
            }
        }
        proof {
            assert(before.take(before.len() as int) == before);
        }
        self.resumed = kept;
    }

    /// Takes one event of the setup phase.
    pub fn step(&mut self, event: SetupEvent) -> (a: SetupAction)
        ensures
            final(self).keyboard == old(self).keyboard,
            final(self).pointer == old(self).pointer,
            match event {
                SetupEvent::SeatAdded => {
                    &&& a.bind == Some(requested(old(self).keyboard, old(self).pointer))
                    &&& final(self).chosen == old(self).chosen
                    &&& final(self).auxiliary == old(self).auxiliary
                    &&& final(self).resumed@ == old(self).resumed@
                },
                SetupEvent::DeviceAdded { device, offers } => {
                    &&& a.bind is None
                    &&& final(self).chosen == chosen_after_added(
                        old(self).keyboard,
                        old(self).pointer,
                        old(self).chosen,
                        device,
                        offers,
                    )
                    &&& final(self).auxiliary == auxiliary_after_added(
                        old(self).keyboard,
                        old(self).pointer,
                        old(self).auxiliary,
                        device,
                        offers,
                    )
                    &&& final(self).resumed@ == old(self).resumed@
                },
                SetupEvent::DeviceResumed { device } => {
                    &&& a.bind is None
                    &&& final(self).chosen == old(self).chosen
                    &&& final(self).auxiliary == old(self).auxiliary
                    &&& final(self).resumed@ == old(self).resumed@.push(device)
                },
                SetupEvent::DevicePaused { device } => {
                    &&& a.bind is None
                    &&& final(self).chosen == old(self).chosen
                    &&& final(self).auxiliary == old(self).auxiliary
                    &&& forall|x: u64| final(self).resumed@.contains(x) <==> (
                        old(self).resumed@.contains(x) && x != device)
                },
                SetupEvent::Disconnected { explanation } => {
                    &&& a.bind is None
                    &&& a.outcome matches SetupOutcome::Failed(BackendError::InputDispatchFailed { detail })
                    &&& detail@ == "EIS disconnected: "@ + explanation@
                },
                SetupEvent::Other => {
                    &&& a.bind is None
                    &&& final(self).chosen == old(self).chosen
                    &&& final(self).auxiliary == old(self).auxiliary
                    &&& final(self).resumed@ == old(self).resumed@
                },
            },
            !(event is Disconnected) ==> (a.outcome is Ready <==> final(self).ready()),
            !(event is Disconnected) ==> !(a.outcome is Failed),
            a.outcome matches SetupOutcome::Ready { device, keyboard } ==> (
                final(self).chosen == Some(device) && final(self).auxiliary == keyboard),
    {
        let mut bind: Option<Capabilities> = None;
        match event {
            SetupEvent::SeatAdded => {
                bind = Some(requested_capabilities(self.keyboard, self.pointer));
            },
            SetupEvent::DeviceAdded { device, offers } => {
                let clicks = offers.can_click();
                if self.pointer && clicks && self.chosen.is_none() {
                    self.chosen = Some(device);
                }
                if self.keyboard && offers.keyboard {
                    if self.pointer {
                        self.auxiliary = Some(device);
                    } else {
                        self.chosen = Some(device);
                    }
                }
            },
            SetupEvent::DeviceResumed { device } => {
                self.resumed.push(device);
            },
            SetupEvent::DevicePaused { device } => {
                self.forget(device);
            },
            SetupEvent::Disconnected { explanation } => {
                let mut detail = String::from_str("EIS disconnected: ");
                detail.append(explanation.as_str());
                return SetupAction {
                    bind: None,
                    outcome: SetupOutcome::Failed(BackendError::InputDispatchFailed { detail }),
                };
            },
            SetupEvent::Other => {},
        }
        let outcome = if self.is_ready() {
            match self.chosen {
                Some(device) => SetupOutcome::Ready { device, keyboard: self.auxiliary },
                None => SetupOutcome::Pending,
            }
        } else {
            SetupOutcome::Pending
        };
        SetupAction { bind, outcome }
    }
}

/// The event stream closed before the devices were ready.
pub fn setup_interrupted() -> (e: BackendError)
    ensures
        e matches BackendError::InputDispatchFailed { detail } && detail@ == "EIS connection ended during setup"@,
{
    BackendError::InputDispatchFailed { detail: String::from_str("EIS connection ended during setup") }
}

/// One protocol event seen while the direct KWin handshake waits for devices.
pub enum HandshakeEvent {
    SeatAdded,
    DeviceAdded { device: u64, offers: Capabilities },
    DeviceResumed { device: u64, serial: u32 },
    Other,
}

/// Device selection of the direct KWin handshake: a pointer device first
/// and a separate keyboard device when both are expected.
pub struct DeviceWait {
    pub expect_keyboard: bool,
    pub expect_pointer: bool,
    pub chosen: Option<u64>,
    pub keyboard_aux: Option<u64>,
    pub last_serial: u32,
}

pub open spec fn wait_after_added(w: DeviceWait, device: u64, offers: Capabilities) -> (Option<u64>, Option<u64>) {
    if w.expect_keyboard && w.expect_pointer {
        if offers.clicks() && w.chosen is None {
            (Some(device), w.keyboard_aux)
        } else if offers.keyboard && w.keyboard_aux is None {
            (w.chosen, Some(device))
        } else {
            (w.chosen, w.keyboard_aux)
        }
    } else if (w.expect_keyboard && offers.keyboard) || (w.expect_pointer && offers.clicks()) {
        (Some(device), w.keyboard_aux)
    } else {
        (w.chosen, w.keyboard_aux)
    }
}

impl DeviceWait {
    pub open spec fn complete(&self) -> bool {
        if self.expect_keyboard && self.expect_pointer {
            self.chosen is Some && self.keyboard_aux is Some
        } else {
            self.chosen is Some
        }
    }

    pub fn new(expect_keyboard: bool, expect_pointer: bool) -> (w: Self)
        ensures
            w.expect_keyboard == expect_keyboard,
            w.expect_pointer == expect_pointer,
            w.chosen is None,
            w.keyboard_aux is None,
            w.last_serial == 0,
    {
        DeviceWait { expect_keyboard, expect_pointer, chosen: None, keyboard_aux: None, last_serial: 0 }
    }

    /// Takes one event; returns the capabilities to bind on a new seat and
    /// whether waiting is over (a device resumed with everything chosen).
    pub fn step(&mut self, event: HandshakeEvent) -> (r: (Option<Capabilities>, bool))
        ensures
            final(self).expect_keyboard == old(self).expect_keyboard,
            final(self).expect_pointer == old(self).expect_pointer,
            match event {
                HandshakeEvent::SeatAdded => {
                    &&& r == (Some(handshake_request(old(self).expect_keyboard, old(self).expect_pointer)), false)
                    &&& *final(self) == *old(self)
                },
                HandshakeEvent::DeviceAdded { device, offers } => {
                    &&& r == (None::<Capabilities>, false)
                    &&& (final(self).chosen, final(self).keyboard_aux) == wait_after_added(*old(self), device, offers)
                    &&& final(self).last_serial == old(self).last_serial
                },
                HandshakeEvent::DeviceResumed { device, serial } => {
                    &&& r == (None::<Capabilities>, old(self).complete())
                    &&& final(self).chosen == old(self).chosen
                    &&& final(self).keyboard_aux == old(self).keyboard_aux
                    &&& final(self).last_serial == serial
                },
                HandshakeEvent::Other => r == (None::<Capabilities>, false) && *final(self) == *old(self),
            },
    {
        match event {
            HandshakeEvent::SeatAdded => (Some(handshake_capabilities(self.expect_keyboard, self.expect_pointer)), false),
            HandshakeEvent::DeviceAdded { device, offers } => {
                let clicks = offers.can_click();
                if self.expect_keyboard && self.expect_pointer {
                    if clicks && self.chosen.is_none() {
                        self.chosen = Some(device);
                    } else if offers.keyboard && self.keyboard_aux.is_none() {
                        self.keyboard_aux = Some(device);
                    }
                } else if (self.expect_keyboard && offers.keyboard) || (self.expect_pointer && clicks) {
                    self.chosen = Some(device);
                }
                (None, false)
            },
            HandshakeEvent::DeviceResumed { device, serial } => {
                self.last_serial = serial;
                let ready = if self.expect_keyboard && self.expect_pointer {
                    self.chosen.is_some() && self.keyboard_aux.is_some()
                } else {
                    self.chosen.is_some()
                };
                (None, ready)
            },
            HandshakeEvent::Other => (None, false),
        }
    }

    /// What the wait produced once it stops (done, timed out or the stream
    /// ended): the chosen device, the keyboard device and the last serial.
    pub fn finish(&self) -> (r: Result<(u64, Option<u64>, u32), BackendError>)
        ensures
            match self.chosen {
                Some(d) => r == Ok::<(u64, Option<u64>, u32), BackendError>((d, self.keyboard_aux, self.last_serial)),
                None => r matches Err(BackendError::InputDispatchFailed { detail })
                    && detail@ == "no matching device materialised within 3s"@,
            },
    {
        match self.chosen {
            Some(d) => Ok((d, self.keyboard_aux, self.last_serial)),
            None => Err(BackendError::InputDispatchFailed {
                detail: String::from_str("no matching device materialised within 3s"),
            }),
        }
    }
}

/// One event seen once a session is up.
pub enum LinkEvent {
    DevicePaused(u64),
    DeviceRemoved(u64),
    Disconnected,
    StreamFailed,
    Ended,
    Other,
}

pub open spec fn ends_link(event: LinkEvent, device: u64, keyboard: Option<u64>) -> bool {
    match event {
        LinkEvent::DevicePaused(d) => d == device || keyboard == Some(d),
        LinkEvent::DeviceRemoved(d) => d == device || keyboard == Some(d),
        LinkEvent::Disconnected => true,
        LinkEvent::StreamFailed => true,
        LinkEvent::Ended => true,
        LinkEvent::Other => false,
    }
}

/// Whether an event ends a live session: one of its own devices paused or
/// removed, a disconnect, a stream failure or the end of the stream.
pub fn link_lost(event: &LinkEvent, device: u64, keyboard: Option<u64>) -> (b: bool)
    ensures
        b == ends_link(*event, device, keyboard),
{
    match event {
        LinkEvent::DevicePaused(d) => *d == device || keyboard == Some(*d),
        LinkEvent::DeviceRemoved(d) => *d == device || keyboard == Some(*d),
        LinkEvent::Disconnected => true,
        LinkEvent::StreamFailed => true,
        LinkEvent::Ended => true,
        LinkEvent::Other => false,
    }
}


/// Input goes out only while the session's link is up; after a device paused
/// or the connection ended, it is refused until the next observation.
pub fn check_link(alive: bool) -> (r: Result<(), BackendError>)
    ensures
        alive ==> r is Ok,
        !alive ==> (r matches Err(BackendError::InputDispatchFailed { detail }) && detail@
            == "EIS device paused or disconnected; observe before retrying"@),
{
    if alive {
        Ok(())
    } else {
        Err(BackendError::InputDispatchFailed {
            detail: String::from_str("EIS device paused or disconnected; observe before retrying"),
        })
    }
}

pub open spec fn increasing(s: Seq<u32>) -> bool {
    forall|i: int, j: int| 0 <= i < j < s.len() ==> s[i] < s[j]
}

pub open spec fn distinct(s: Seq<u64>) -> bool {
    forall|i: int, j: int| 0 <= i < j < s.len() ==> s[i] != s[j]
}

fn insert_sorted(v: &mut Vec<u32>, x: u32)
    requires
        increasing(old(v)@),
    ensures
        increasing(final(v)@),
        forall|y: u32| #[trigger] final(v)@.contains(y) <==> (old(v)@.contains(y) || y == x),
{
    let ghost before = v@;
    let mut i: usize = 0;
    while i < v.len() && v[i] < x
        invariant
            i <= v@.len(),
            v@ == before,
            forall|k: int| 0 <= k < i ==> before[k] < x,
        decreases v@.len() - i,
    {
        i += 1;
    }
    if i < v.len() && v[i] == x {
        proof {
            assert forall|y: u32| #[trigger] v@.contains(y) <==> (before.contains(y) || y == x) by {
                if y == x {
                    assert(before[i as int] == y);
                }
            }
        }
        return;
    }
    v.insert(i, x);
    proof {
        before.insert_ensures(i as int, x);
        let after = before.insert(i as int, x);
        assert(v@ == after);
        assert forall|a: int, b: int| 0 <= a < b < after.len() implies after[a] < after[b] by {
            if b < i {
            } else if b == i {
            } else if a < i {
                assert(after[b] == before[b - 1]);
                assert(before[i as int] > x);
                assert(before[i as int] <= before[b - 1]);
            } else if a == i {
                assert(after[b] == before[b - 1]);
                assert(before[i as int] <= before[b - 1]);
            } else {
                assert(after[a] == before[a - 1]);
                assert(after[b] == before[b - 1]);
            }
        }
        assert forall|y: u32| #[trigger] after.contains(y) <==> (before.contains(y) || y == x) by {
            if after.contains(y) {
                let k = choose|k: int| 0 <= k < after.len() && after[k] == y;
                if k < i {
                    assert(before[k] == y);
                } else if k > i {
                    assert(before[k - 1] == y);
                }
            }
            if before.contains(y) {
                let k = choose|k: int| 0 <= k < before.len() && before[k] == y;
                if k < i {
                    assert(after[k] == y);
                } else {
                    assert(after[k + 1] == y);
                }
            }
            if y == x {
                assert(after[i as int] == y);
            }
        }
    }
}

fn remove_sorted(v: &mut Vec<u32>, x: u32)
    requires
        increasing(old(v)@),
    ensures
        increasing(final(v)@),
        forall|y: u32| #[trigger] final(v)@.contains(y) <==> (old(v)@.contains(y) && y != x),
{
    let ghost before = v@;
    let mut i: usize = 0;
    while i < v.len() && v[i] != x
        invariant
            i <= v@.len(),
            v@ == before,
            forall|k: int| 0 <= k < i ==> before[k] != x,
        decreases v@.len() - i,
    {
        i += 1;
    }
    if i == v.len() {
        return;
    }
    v.remove(i);
    proof {
        before.remove_ensures(i as int);
        let after = before.remove(i as int);
        assert forall|a: int, b: int| 0 <= a < b < after.len() implies after[a] < after[b] by {
            if a >= i {
                assert(after[a] == before[a + 1]);
            }
            if b >= i {
                assert(after[b] == before[b + 1]);
            }
        }
        assert forall|y: u32| #[trigger] after.contains(y) <==> (before.contains(y) && y != x) by {
            if after.contains(y) {
                let k = choose|k: int| 0 <= k < after.len() && after[k] == y;
                if k < i {
                    assert(before[k] == y);
                } else {
                    assert(before[k + 1] == y);
                    assert(before[i as int] < before[k + 1]);
                }
            }
            if before.contains(y) && y != x {
                let k = choose|k: int| 0 <= k < before.len() && before[k] == y;
                if k < i {
                    assert(after[k] == y);
                } else {
                    assert(k != i);
                    assert(after[k - 1] == y);
                }
            }
        }
    }
}

fn remove_device(v: &mut Vec<u64>, x: u64) -> (found: bool)
    requires
        distinct(old(v)@),
    ensures
        distinct(final(v)@),
        found == old(v)@.contains(x),
        forall|y: u64| #[trigger] final(v)@.contains(y) <==> (old(v)@.contains(y) && y != x),
{
    let ghost before = v@;
    let mut i: usize = 0;
    while i < v.len() && v[i] != x
        invariant
            i <= v@.len(),
            v@ == before,
            forall|k: int| 0 <= k < i ==> before[k] != x,
        decreases v@.len() - i,
    {
        i += 1;
    }
    if i == v.len() {
        return false;
    }
    v.remove(i);
    proof {
        before.remove_ensures(i as int);
        let after = before.remove(i as int);
        assert forall|a: int, b: int| 0 <= a < b < after.len() implies after[a] != after[b] by {
            if a >= i {
                assert(after[a] == before[a + 1]);
            }
            if b >= i {
                assert(after[b] == before[b + 1]);
            }
        }
        assert forall|y: u64| #[trigger] after.contains(y) <==> (before.contains(y) && y != x) by {
            if after.contains(y) {
                let k = choose|k: int| 0 <= k < after.len() && after[k] == y;
                if k < i {
                    assert(before[k] == y);
                } else {
                    assert(before[k + 1] == y);
                }
            }
            if before.contains(y) && y != x {
                let k = choose|k: int| 0 <= k < before.len() && before[k] == y;
                if k < i {
                    assert(after[k] == y);
                } else {
                    assert(after[k - 1] == y);
                }
            }
        }
        assert(before[i as int] == x);
    }
    true
}

fn has_device(v: &Vec<u64>, x: u64) -> (b: bool)
    ensures
        b == v@.contains(x),
{
    let mut i: usize = 0;
    while i < v.len()
        invariant
            i <= v@.len(),
            forall|k: int| 0 <= k < i ==> v@[k] != x,
        decreases v@.len() - i,
    {
        if v[i] == x {
            return true;
        }
        i += 1;
    }
    false
}

fn copy_codes(v: &Vec<u32>) -> (r: Vec<u32>)
    ensures
        r@ == v@,
{
    let mut r: Vec<u32> = Vec::new();
    let mut i: usize = 0;
    while i < v.len()
        invariant
            i <= v@.len(),
            r@ == v@.take(i as int),
        decreases v@.len() - i,
    {
        r.push(v[i]);
        i += 1;
        proof {
            assert(r@ == v@.take(i as int));
        }
    }
    proof {
        assert(v@.take(v@.len() as int) == v@);
    }
    r
}

/// Releases owed to one emulating device when a session lets go of the
/// input: each held key and button is released (where the device has that
/// interface), a frame is sent and the device stops emulating.
pub struct Release {
    pub device: u64,
    pub keys: Vec<u32>,
    pub buttons: Vec<u32>,
}

/// The devices, in the given order, that are emulating when their turn
/// comes; each stops once released.
pub open spec fn released(devices: Seq<u64>, emulating: spec_fn(u64) -> bool) -> Seq<u64>
    decreases devices.len(),
{
    if devices.len() == 0 {
        Seq::empty()
    } else {
        let d = devices[0];
        if emulating(d) {
            seq![d] + released(devices.skip(1), |x: u64| emulating(x) && x != d)
        } else {
            released(devices.skip(1), emulating)
        }
    }
}

pub open spec fn release_devices(plan: Seq<Release>) -> Seq<u64> {
    plan.map_values(|r: Release| r.device)
}

/// Keys and buttons held down through a session, the devices that are
/// emulating, and the sequence number the next emulation starts with.
pub struct Emulation {
    held_keys: Vec<u32>,
    held_buttons: Vec<u32>,
    emulating: Vec<u64>,
    sequence: u32,
}

impl Emulation {
    #[verifier::type_invariant]
    spec fn well_formed(&self) -> bool {
        &&& increasing(self.held_keys@)
        &&& increasing(self.held_buttons@)
        &&& distinct(self.emulating@)
    }

    /// The held keys, in increasing order.
    pub closed spec fn keys(&self) -> Seq<u32> {
        self.held_keys@
    }

    /// The held buttons, in increasing order.
    pub closed spec fn buttons(&self) -> Seq<u32> {
        self.held_buttons@
    }

    pub closed spec fn emulates(&self, device: u64) -> bool {
        self.emulating@.contains(device)
    }

    pub closed spec fn next_sequence(&self) -> u32 {
        self.sequence
    }

    pub open spec fn holds_key(&self, key: u32) -> bool {
        self.keys().contains(key)
    }

    pub open spec fn holds_button(&self, button: u32) -> bool {
        self.buttons().contains(button)
    }

    pub open spec fn holds_nothing(&self) -> bool {
        self.keys().len() == 0 && self.buttons().len() == 0
    }

    pub fn new() -> (e: Self)
        ensures
            e.holds_nothing(),
            forall|d: u64| !e.emulates(d),
            e.next_sequence() == 0,
    {
        Emulation { held_keys: Vec::new(), held_buttons: Vec::new(), emulating: Vec::new(), sequence: 0 }
    }

    /// Records a key going down (`press`) or up.
    pub fn key_event(&mut self, key: u32, press: bool)
        ensures
            forall|k: u32| #[trigger] final(self).holds_key(k) <==> (if press {
                old(self).holds_key(k) || k == key
            } else {
                old(self).holds_key(k) && k != key
            }),
            final(self).buttons() == old(self).buttons(),
            forall|d: u64| #[trigger] final(self).emulates(d) == old(self).emulates(d),
            final(self).next_sequence() == old(self).next_sequence(),
    {
        proof {
            use_type_invariant(&*self);
        }
        let mut keys: Vec<u32> = Vec::new();
        std::mem::swap(&mut keys, &mut self.held_keys);
        if press {
            insert_sorted(&mut keys, key);
        } else {
            remove_sorted(&mut keys, key);
        }
        self.held_keys = keys;
    }

    /// Records a button going down (`press`) or up.
    pub fn button_event(&mut self, button: u32, press: bool)
        ensures
            forall|b: u32| #[trigger] final(self).holds_button(b) <==> (if press {
                old(self).holds_button(b) || b == button
            } else {
                old(self).holds_button(b) && b != button
            }),
            final(self).keys() == old(self).keys(),
            forall|d: u64| #[trigger] final(self).emulates(d) == old(self).emulates(d),
            final(self).next_sequence() == old(self).next_sequence(),
    {
        proof {
            use_type_invariant(&*self);
        }
        let mut buttons: Vec<u32> = Vec::new();
        std::mem::swap(&mut buttons, &mut self.held_buttons);
        if press {
            insert_sorted(&mut buttons, button);
        } else {
            remove_sorted(&mut buttons, button);
        }
        self.held_buttons = buttons;
    }

    /// Starts emulating on a device unless it already is; returns the
    /// sequence number to start it with.
    pub fn start(&mut self, device: u64) -> (r: Option<u32>)
        ensures
            final(self).keys() == old(self).keys(),
            final(self).buttons() == old(self).buttons(),
            old(self).emulates(device) ==> r is None && final(self).next_sequence() == old(self).next_sequence()
                && forall|d: u64| #[trigger] final(self).emulates(d) == old(self).emulates(d),
            !old(self).emulates(device) ==> r == Some(old(self).next_sequence())
                && final(self).next_sequence() == (if old(self).next_sequence() == u32::MAX {
                    0
                } else {
                    (old(self).next_sequence() + 1) as u32
                })
                && forall|d: u64| #[trigger] final(self).emulates(d) == (old(self).emulates(d) || d == device),
    {
        proof {
            use_type_invariant(&*self);
        }
        if has_device(&self.emulating, device) {
            return None;
        }
        let mut devices: Vec<u64> = Vec::new();
        std::mem::swap(&mut devices, &mut self.emulating);
        let ghost before = devices@;
        devices.push(device);
        proof {
            assert forall|a: int, b: int| 0 <= a < b < devices@.len() implies devices@[a] != devices@[b] by {
                if b == before.len() {
                    assert(before.contains(devices@[a]));
                }
            }
            assert forall|d: u64| #[trigger] devices@.contains(d) == (before.contains(d) || d == device) by {
                vstd::seq_lib::lemma_seq_contains_after_push(before, device, d);
            }
        }
        self.emulating = devices;
        let current = self.sequence;
        self.sequence = if self.sequence == u32::MAX { 0 } else { self.sequence + 1 };
        Some(current)
    }

    /// Stops a device that is emulating, but only while no key or button is
    /// held; returns whether it was stopped.
    pub fn stop(&mut self, device: u64) -> (stopped: bool)
        ensures
            stopped == (old(self).holds_nothing() && old(self).emulates(device)),
            forall|d: u64| #[trigger] final(self).emulates(d) == (old(self).emulates(d) && !(stopped && d == device)),
            final(self).keys() == old(self).keys(),
            final(self).buttons() == old(self).buttons(),
            final(self).next_sequence() == old(self).next_sequence(),
    {
        proof {
            use_type_invariant(&*self);
        }
        if self.held_keys.len() > 0 || self.held_buttons.len() > 0 {
            return false;
        }
        let mut devices: Vec<u64> = Vec::new();
        std::mem::swap(&mut devices, &mut self.emulating);
        let found = remove_device(&mut devices, device);
        self.emulating = devices;
        found
    }

    /// Lets go of everything: forgets the held keys and buttons and, for each
    /// of `devices` that is emulating, plans their release and stops it.
    pub fn release_held(&mut self, devices: &[u64]) -> (plan: Vec<Release>)
        ensures
            final(self).holds_nothing(),
            forall|d: u64| #[trigger] final(self).emulates(d) == (old(self).emulates(d) && !devices@.contains(d)),
            final(self).next_sequence() == old(self).next_sequence(),
            release_devices(plan@) == released(devices@, |d: u64| old(self).emulates(d)),
            forall|i: int| 0 <= i < plan@.len() ==> (#[trigger] plan@[i]).keys@ == old(self).keys()
                && plan@[i].buttons@ == old(self).buttons(),
            increasing(old(self).keys()),
            increasing(old(self).buttons()),
    {
        proof {
            use_type_invariant(&*self);
        }
        let ghost at_start = |d: u64| old(self).emulates(d);
        let mut keys: Vec<u32> = Vec::new();
        std::mem::swap(&mut keys, &mut self.held_keys);
        let mut buttons: Vec<u32> = Vec::new();
        std::mem::swap(&mut buttons, &mut self.held_buttons);
        let mut emulating: Vec<u64> = Vec::new();
        std::mem::swap(&mut emulating, &mut self.emulating);
        let ghost keys0 = keys@;
        let ghost buttons0 = buttons@;
        let ghost em0 = emulating@;
        let mut plan: Vec<Release> = Vec::new();
        let mut i: usize = 0;
        proof {
            assert(devices@.skip(0) == devices@);
            assert(release_devices(plan@) =~= Seq::<u64>::empty());
            assert((|d: u64| emulating@.contains(d)) =~= (|d: u64| em0.contains(d)));
            assert(release_devices(plan@) + released(devices@.skip(0), |d: u64| emulating@.contains(d))
                =~= released(devices@, |d: u64| em0.contains(d)));
        }
        while i < devices.len()
            invariant
                i <= devices@.len(),
                keys@ == keys0,
                buttons@ == buttons0,
                distinct(emulating@),
                forall|d: u64| #[trigger] emulating@.contains(d) == (em0.contains(d) && !devices@.take(i as int).contains(d)),
                release_devices(plan@) + released(devices@.skip(i as int), |d: u64| emulating@.contains(d))
                    == released(devices@, |d: u64| em0.contains(d)),
                forall|k: int| 0 <= k < plan@.len() ==> (#[trigger] plan@[k]).keys@ == keys0
                    && plan@[k].buttons@ == buttons0,
            decreases devices@.len() - i,
        {
            let d = devices[i];
            let ghost em_before = emulating@;
            let ghost plan_before = plan@;
            let ghost rest = devices@.skip(i as int);
            proof {
                assert(rest[0] == d);
                assert(rest.skip(1) == devices@.skip(i as int + 1));
                assert(devices@.take(i as int + 1) == devices@.take(i as int).push(d));
            }
            let found = remove_device(&mut emulating, d);
            if found {
                let k = copy_codes(&keys);
                let b = copy_codes(&buttons);
                plan.push(Release { device: d, keys: k, buttons: b });
                proof {
                    let f_before = |x: u64| em_before.contains(x);
                    let f_after = |x: u64| emulating@.contains(x);
                    assert(f_after =~= (|x: u64| f_before(x) && x != d));
                    assert(release_devices(plan@) == release_devices(plan_before).push(d));
                    assert(released(rest, f_before) == seq![d] + released(rest.skip(1), f_after));
                    assert(release_devices(plan@) + released(devices@.skip(i as int + 1), f_after)
                        =~= release_devices(plan_before) + released(rest, f_before));
                }
            } else {
                proof {
                    let f_before = |x: u64| em_before.contains(x);
                    assert(released(rest, f_before) == released(rest.skip(1), f_before));
                    let f_after = |x: u64| emulating@.contains(x);
                    assert(f_after =~= f_before);
                }
            }
            i += 1;
            proof {
                assert forall|x: u64| #[trigger] emulating@.contains(x) == (em0.contains(x)
                    && !devices@.take(i as int).contains(x)) by {
                    vstd::seq_lib::lemma_seq_contains_after_push(devices@.take(i as int - 1), d, x);
                }
            }
        }
        proof {
            assert(devices@.take(devices@.len() as int) == devices@);
            assert(devices@.skip(devices@.len() as int).len() == 0);
            assert(release_devices(plan@) + Seq::<u64>::empty() == release_devices(plan@));
            let f0 = |d: u64| em0.contains(d);
            assert(f0 =~= at_start);
        }
        self.emulating = emulating;
        plan
    }
}

} // verus!
