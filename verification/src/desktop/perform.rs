//! Carrying out one request on an application, as a sequence of steps:
//! which element or point to resolve, when to focus and position the
//! pointer, which desktop call to make, and what the request answers. Every
//! step's outcome is handed back to decide the next one.
//!
//! A request that fails before its desktop call leaves the latest
//! observation standing; once the call was made, the observation is
//! invalidated whatever it answered.
use crate::desktop::actions::{
    check_click_count, check_paste_format, check_typed_text, drag_path, drag_point, unsupported_operation,
    MAX_TYPED_BYTES,
};
use crate::desktop::engine::{element_at, invalidated, law_no_index_survives_invalidation, observation_of, Observation};
use crate::error::fail;
use crate::keymap::{chord_verdict, parse_chord};
use crate::text::{chars_of, eq_lit, utf8};
use crate::types::{Button, ToolError};
use vstd::prelude::*;

verus! {

/// What a request asks of the application.
pub enum Operation {
    /// Click an element (`element`) or the request's point target.
    Click { element: Option<u64>, button: Button, count: u64 },
    /// Drag the left button from the request's `from` point to its `to` point.
    Drag,
    /// Scroll at an element or at the point target; `pages_valid` says
    /// whether the page count is more than zero and at most 20.
    Scroll { element: Option<u64>, pages_valid: bool },
    PressKey { key: String },
    TypeText { text: String },
    Paste { text: String, format: String },
    SetValue { element: u64, value: String },
    SelectText { element: u64 },
    SecondaryAction { element: u64, action: String },
    /// An operation applications do not support.
    Unsupported,
}

/// A coordinate target of the request.
#[derive(Debug, Clone, Copy, PartialEq, Eq, Structural)]
pub enum PointOf {
    Target,
    From,
    To,
}

/// What to do next.
pub enum Step {
    /// Resolve element `index` against the latest observation; answer with
    /// its bounds.
    Element(u64),
    /// Run the element's accessibility action (its default click action
    /// when `None`).
    Action(Option<String>),
    /// Raise and focus the target's window.
    Focus,
    /// Resolve a coordinate target to desktop coordinates.
    Point(PointOf),
    /// Check that an input backend serves this session.
    RequireInput,
    /// Move the pointer to this point and let it settle.
    Position(i32, i32),
    /// Click once at this point.
    Click(i32, i32, Button),
    /// Drag the left button along these points.
    Drag(Vec<(i32, i32)>),
    /// Work out the scroll deltas from the window's size and the page count.
    ScrollAmount,
    /// Scroll by `(dx, dy)` at `(x, y)`.
    Scroll(i32, i32, i32, i32),
    /// Press this chord.
    Key(String),
    /// Type this text.
    Type(String),
    /// Save the clipboard and put this text on it.
    ReplaceClipboard(String),
    /// Press the paste chord (an input backend serves the session).
    PressPaste,
    /// Give the target time to take the paste.
    Settle,
    /// Put the saved clipboard back.
    RestoreClipboard,
    /// Set the element's value.
    SetValue(String),
    /// Select text in the element as the request describes.
    SelectText,
    /// The answer; `invalidate` says whether the observation is dropped.
    Finish { result: Result<(), ToolError>, invalidate: bool },
}

/// Where a request stands between steps.
#[derive(Debug, Clone, Copy, PartialEq, Eq, Structural)]
pub enum Phase {
    ClickResolved,
    ClickAction,
    ClickFocused,
    ClickBounds,
    ClickInput { x: i32, y: i32 },
    ClickPositioning { x: i32, y: i32 },
    ClickVerified { x: i32, y: i32 },
    Clicking { x: i32, y: i32, left: u64 },
    PointFocused,
    PointResolved,
    PointPositioning { x: i32, y: i32 },
    PointVerifying { x: i32, y: i32 },
    PointInput { x: i32, y: i32, left: u64 },
    PointClicking { x: i32, y: i32, left: u64 },
    DragFocused,
    DragFrom,
    DragTo { x: i32, y: i32 },
    DragPositioning { sx: i32, sy: i32, ex: i32, ey: i32 },
    DragVerifying { sx: i32, sy: i32, ex: i32, ey: i32 },
    DragInput { sx: i32, sy: i32, ex: i32, ey: i32 },
    Dragging,
    ScrollFocused,
    ScrollAt,
    ScrollPoint,
    ScrollMeasuring { x: i32, y: i32 },
    ScrollRefocused { x: i32, y: i32, dx: i32, dy: i32 },
    ScrollPositioning { x: i32, y: i32, dx: i32, dy: i32 },
    ScrollInput { x: i32, y: i32, dx: i32, dy: i32 },
    Scrolling,
    KeyFocused,
    KeyInput,
    Keying,
    TypeFocused,
    TypeInput,
    Typing,
    PasteFocused,
    PasteReplaced,
    PasteInput,
    PastePressed,
    PasteSettled,
    PasteRestoring,
    ElementResolved,
    ElementCall,
    Finished,
}

/// The kind of outcome a phase waits for.
#[derive(Debug, Clone, Copy, PartialEq, Eq, Structural)]
pub enum Awaits {
    Done,
    Bounds,
    Coordinates,
    Nothing,
}

pub open spec fn awaits(phase: Phase) -> Awaits {
    match phase {
        Phase::ClickResolved | Phase::ClickBounds | Phase::ClickVerified { .. } | Phase::ScrollAt
        | Phase::ElementResolved => Awaits::Bounds,
        Phase::PointResolved | Phase::PointVerifying { .. } | Phase::DragFrom | Phase::DragTo { .. }
        | Phase::DragVerifying { .. } | Phase::ScrollPoint | Phase::ScrollMeasuring { .. } => Awaits::Coordinates,
        Phase::Finished => Awaits::Nothing,
        _ => Awaits::Done,
    }
}

/// A request on its way through its steps.
pub struct Perform {
    pub op: Operation,
    pub phase: Phase,
    /// The paste chord's outcome, kept until the clipboard is restored.
    pub pressed: Option<ToolError>,
    /// Whether a scroll happens at an element (else at the point target).
    pub at_element: bool,
}

/// The centre of bounds `[x, y, w, h]` that have an area and whose centre
/// is a desktop coordinate.
pub open spec fn center_of(bounds: Option<[i32; 4]>) -> Option<(i32, i32)> {
    match bounds {
        Some(b) => if b@[2] > 0 && b@[3] > 0 && b@[0] + b@[2] / 2 <= i32::MAX && b@[1] + b@[3] / 2 <= i32::MAX {
            Some(((b@[0] + b@[2] / 2) as i32, (b@[1] + b@[3] / 2) as i32))
        } else {
            None
        },
        None => None,
    }
}

fn center(bounds: Option<[i32; 4]>) -> (r: Option<(i32, i32)>)
    ensures
        r == center_of(bounds),
{
    match bounds {
        Some(b) => {
            if b[2] > 0 && b[3] > 0 {
                let x: i64 = b[0] as i64 + (b[2] / 2) as i64;
                let y: i64 = b[1] as i64 + (b[3] / 2) as i64;
                if x <= i32::MAX as i64 && y <= i32::MAX as i64 {
                    return Some((x as i32, y as i32));
                }
            }
            None
        },
        None => None,
    }
}

pub open spec fn finish(result: Result<(), ToolError>, invalidate: bool) -> Step {
    Step::Finish { result, invalidate }
}

/// An error answered before the desktop call: the observation stands.
pub open spec fn early(e: ToolError) -> Step {
    finish(Err(e), false)
}

/// The answer once the desktop call was made.
pub open spec fn answered(r: Result<(), ToolError>) -> Step {
    finish(r, true)
}

pub open spec fn is_refusal(e: ToolError, code: Seq<char>, message: Seq<char>) -> bool {
    e.code@ == code && e.message@ == message && !e.retryable
}


/// The element a request names (0 where it names none).
pub open spec fn op_element(op: Operation) -> u64 {
    match op {
        Operation::Click { element: Some(i), .. } => i,
        Operation::Scroll { element: Some(i), .. } => i,
        Operation::SetValue { element, .. } => element,
        Operation::SelectText { element } => element,
        Operation::SecondaryAction { element, .. } => element,
        _ => 0,
    }
}

/// The button a click uses (left for other requests).
pub open spec fn op_button(op: Operation) -> Button {
    match op {
        Operation::Click { button, .. } => button,
        _ => Button::Left,
    }
}

/// How many clicks a request makes (one for other requests).
pub open spec fn op_count(op: Operation) -> u64 {
    match op {
        Operation::Click { count, .. } => count,
        _ => 1,
    }
}

pub open spec fn op_pages_valid(op: Operation) -> bool {
    match op {
        Operation::Scroll { pages_valid, .. } => pages_valid,
        _ => false,
    }
}

/// The text a request carries for its step: the chord, the typed or pasted
/// text, the value or the action name (empty where it has none).
pub open spec fn op_text(op: Operation) -> Seq<char> {
    match op {
        Operation::PressKey { key } => key@,
        Operation::TypeText { text } => text@,
        Operation::Paste { text, .. } => text@,
        Operation::SetValue { value, .. } => value@,
        Operation::SecondaryAction { action, .. } => action@,
        _ => Seq::empty(),
    }
}

/// The next phase and step once a step without data has answered `r`.
pub open spec fn done_next(p: Perform, r: Result<(), ToolError>, next: Phase, step: Step) -> bool {
    match r {
        Err(e) => match p.phase {
            Phase::ClickAction => if e.code@ == "unsupported"@ {
                next == Phase::ClickFocused && step == Step::Focus
            } else {
                next == Phase::Finished && step == early(e)
            },
            Phase::Dragging | Phase::Scrolling | Phase::Keying | Phase::ElementCall | Phase::PasteFocused
            | Phase::PasteReplaced => next == Phase::Finished && step == answered(Err(e)),
            Phase::Typing => if e.code@ == "unsupported"@ {
                next == Phase::PasteFocused && step == Step::Focus
            } else {
                next == Phase::Finished && step == answered(Err(e))
            },
            // Without an input backend the paste is given up at once and
            // the clipboard put back; the answer is that failure.
            Phase::PasteInput => next == Phase::PasteRestoring && step == Step::RestoreClipboard,
            Phase::PastePressed => next == Phase::PasteSettled && step == Step::Settle,
            Phase::PasteSettled => next == Phase::PasteRestoring && step == Step::RestoreClipboard,
            Phase::PasteRestoring => next == Phase::Finished && step == answered(
                match p.pressed {
                    Some(pe) => Err(pe),
                    None => Err(e),
                },
            ),
            _ => next == Phase::Finished && step == early(e),
        },
        Ok(()) => match p.phase {
            Phase::ClickAction => next == Phase::Finished && step == answered(Ok(())),
            Phase::ClickFocused => next == Phase::ClickBounds && step == Step::Element(op_element(p.op)),
            Phase::ClickInput { x, y } => next == (Phase::ClickPositioning { x, y }) && step == Step::Position(x, y),
            Phase::ClickPositioning { x, y } => next == (Phase::ClickVerified { x, y }) && step == Step::Element(
                op_element(p.op),
            ),
            Phase::Clicking { x, y, left } => if left > 0 {
                next == (Phase::Clicking { x, y, left: (left - 1) as u64 }) && step == Step::Click(x, y, op_button(p.op))
            } else {
                next == Phase::Finished && step == answered(Ok(()))
            },
            Phase::PointFocused => next == Phase::PointResolved && step == Step::Point(PointOf::Target),
            Phase::PointPositioning { x, y } => next == (Phase::PointVerifying { x, y }) && step == Step::Point(
                PointOf::Target,
            ),
            Phase::PointInput { x, y, left } => next == (Phase::PointClicking { x, y, left }) && step == Step::Click(
                x,
                y,
                op_button(p.op),
            ),
            Phase::PointClicking { x, y, left } => if left > 0 {
                next == (Phase::PointInput { x, y, left: (left - 1) as u64 }) && step == Step::RequireInput
            } else {
                next == Phase::Finished && step == answered(Ok(()))
            },
            Phase::DragFocused => next == Phase::DragFrom && step == Step::Point(PointOf::From),
            Phase::DragPositioning { sx, sy, ex, ey } => next == (Phase::DragVerifying { sx, sy, ex, ey }) && step
                == Step::Point(PointOf::From),
            Phase::DragInput { sx, sy, ex, ey } => next == Phase::Dragging && (step matches Step::Drag(path)
                && path@.len() == 25 && forall|i: int| 0 <= i < 25 ==> #[trigger] path@[i] == (
                drag_point(sx, ex, i),
                drag_point(sy, ey, i),
            )),
            Phase::Dragging | Phase::Scrolling | Phase::Keying | Phase::ElementCall => next == Phase::Finished
                && step == answered(Ok(())),
            Phase::ScrollFocused => if p.at_element {
                next == Phase::ScrollAt && step == Step::Element(op_element(p.op))
            } else {
                next == Phase::ScrollPoint && step == Step::Point(PointOf::Target)
            },
            Phase::ScrollRefocused { x, y, dx, dy } => next == (Phase::ScrollPositioning { x, y, dx, dy }) && step
                == Step::Position(x, y),
            Phase::ScrollPositioning { x, y, dx, dy } => next == (Phase::ScrollInput { x, y, dx, dy }) && step
                == Step::RequireInput,
            Phase::ScrollInput { x, y, dx, dy } => next == Phase::Scrolling && step == Step::Scroll(x, y, dx, dy),
            Phase::KeyFocused => next == Phase::KeyInput && step == Step::RequireInput,
            Phase::KeyInput => next == Phase::Keying && (step matches Step::Key(k) && k@ == op_text(p.op)),
            Phase::TypeFocused => next == Phase::TypeInput && step == Step::RequireInput,
            Phase::TypeInput => next == Phase::Typing && (step matches Step::Type(t) && t@ == op_text(p.op)),
            Phase::Typing => next == Phase::Finished && step == answered(Ok(())),
            Phase::PasteFocused => next == Phase::PasteReplaced && (step matches Step::ReplaceClipboard(t) && t@
                == op_text(p.op)),
            Phase::PasteReplaced => next == Phase::PasteInput && step == Step::RequireInput,
            Phase::PasteInput => next == Phase::PastePressed && step == Step::PressPaste,
            Phase::PastePressed => next == Phase::PasteSettled && step == Step::Settle,
            Phase::PasteSettled => next == Phase::PasteRestoring && step == Step::RestoreClipboard,
            Phase::PasteRestoring => next == Phase::Finished && step == answered(
                match p.pressed {
                    Some(pe) => Err(pe),
                    None => Ok(()),
                },
            ),
            // No other phase waits for a bare outcome.
            _ => false,
        },
    }
}

/// A step that refuses the request with this code and message.
pub open spec fn refused(step: Step, invalidate: bool, code: Seq<char>, message: Seq<char>) -> bool {
    step matches Step::Finish { result: Err(e), invalidate: i } && i == invalidate && is_refusal(e, code, message)
}

/// The clicks left after the first one.
pub open spec fn more_clicks(op: Operation) -> u64 {
    if op_count(op) > 0 {
        (op_count(op) - 1) as u64
    } else {
        0
    }
}

/// The next phase and step once a scroll point `(x, y)` is known: the page
/// count is checked before anything is measured.
pub open spec fn scroll_from(p: Perform, x: i32, y: i32, next: Phase, step: Step) -> bool {
    if op_pages_valid(p.op) {
        next == (Phase::ScrollMeasuring { x, y }) && step == Step::ScrollAmount
    } else {
        next == Phase::Finished && refused(step, false, "invalid_argument"@, "pages must be greater than zero and at most 20"@)
    }
}

/// The next phase and step once an element lookup answered `r`: the
/// element's bounds, or why it could not be resolved.
pub open spec fn bounds_next(p: Perform, r: Result<Option<[i32; 4]>, ToolError>, next: Phase, step: Step) -> bool {
    match r {
        Err(e) => next == Phase::Finished && step == early(e),
        Ok(b) => match p.phase {
            Phase::ClickResolved => if op_button(p.op) == Button::Left && op_count(p.op) == 1 {
                next == Phase::ClickAction && step == Step::Action(None)
            } else {
                next == Phase::ClickFocused && step == Step::Focus
            },
            Phase::ClickBounds => match center_of(b) {
                Some((x, y)) => next == (Phase::ClickInput { x, y }) && step == Step::RequireInput,
                None => next == Phase::Finished && refused(
                    step,
                    false,
                    "unsupported"@,
                    "Element has neither an action nor usable bounds"@,
                ),
            },
            Phase::ClickVerified { x, y } => next == (Phase::Clicking { x, y, left: more_clicks(p.op) })
                && step == Step::Click(x, y, op_button(p.op)),
            Phase::ScrollAt => match center_of(b) {
                Some((x, y)) => scroll_from(p, x, y, next, step),
                None => next == Phase::Finished && refused(step, false, "unsupported"@, "Element has no usable scroll bounds"@),
            },
            Phase::ElementResolved => next == Phase::ElementCall && match p.op {
                Operation::SetValue { value, .. } => step matches Step::SetValue(v) && v@ == value@,
                Operation::SelectText { .. } => step == Step::SelectText,
                Operation::SecondaryAction { action, .. } => step matches Step::Action(Some(a)) && a@ == action@,
                _ => refused(step, true, "unsupported"@, "Operation is not supported by a desktop application"@),
            },
            // No other phase waits for bounds.
            _ => false,
        },
    }
}

/// The next phase and step once a coordinate step answered `r`: a point
/// resolved on the desktop, or the scroll deltas.
pub open spec fn coords_next(p: Perform, r: Result<(i32, i32), ToolError>, next: Phase, step: Step) -> bool {
    match r {
        Err(e) => next == Phase::Finished && step == early(e),
        Ok((x, y)) => match p.phase {
            Phase::PointResolved => next == (Phase::PointPositioning { x, y }) && step == Step::Position(x, y),
            Phase::PointVerifying { x: px, y: py } => next == (Phase::PointInput { x: px, y: py, left: more_clicks(p.op) })
                && step == Step::RequireInput,
            Phase::DragFrom => next == (Phase::DragTo { x, y }) && step == Step::Point(PointOf::To),
            Phase::DragTo { x: sx, y: sy } => next == (Phase::DragPositioning { sx, sy, ex: x, ey: y }) && step
                == Step::Position(sx, sy),
            Phase::DragVerifying { sx, sy, ex, ey } => next == (Phase::DragInput { sx, sy, ex, ey }) && step
                == Step::RequireInput,
            Phase::ScrollPoint => scroll_from(p, x, y, next, step),
            Phase::ScrollMeasuring { x: sx, y: sy } => next == (Phase::ScrollRefocused { x: sx, y: sy, dx: x, dy: y })
                && step == Step::Focus,
            // No other phase waits for coordinates.
            _ => false,
        },
    }
}

fn is_unsupported(e: &ToolError) -> (b: bool)
    ensures
        b == (e.code@ == "unsupported"@),
{
    let c = chars_of(e.code.as_str());
    eq_lit(c.as_slice(), "unsupported")
}

/// How many outcomes a request may still wait for before its answer: every
/// outcome handed back lowers it, so each request ends.
pub open spec fn steps_left(p: Perform) -> nat {
    let mc = more_clicks(p.op) as nat;
    match p.phase {
        Phase::Finished => 0,
        Phase::ClickResolved => 8 + mc,
        Phase::ClickAction => 7 + mc,
        Phase::ClickFocused => 6 + mc,
        Phase::ClickBounds => 5 + mc,
        Phase::ClickInput { .. } => 4 + mc,
        Phase::ClickPositioning { .. } => 3 + mc,
        Phase::ClickVerified { .. } => 2 + mc,
        Phase::Clicking { left, .. } => 1 + left as nat,
        Phase::PointFocused => 6 + 2 * mc,
        Phase::PointResolved => 5 + 2 * mc,
        Phase::PointPositioning { .. } => 4 + 2 * mc,
        Phase::PointVerifying { .. } => 3 + 2 * mc,
        Phase::PointInput { left, .. } => 2 + 2 * (left as nat),
        Phase::PointClicking { left, .. } => 1 + 2 * (left as nat),
        Phase::DragFocused => 7,
        Phase::DragFrom => 6,
        Phase::DragTo { .. } => 5,
        Phase::DragPositioning { .. } => 4,
        Phase::DragVerifying { .. } => 3,
        Phase::DragInput { .. } => 2,
        Phase::Dragging => 1,
        Phase::ScrollFocused => 7,
        Phase::ScrollAt | Phase::ScrollPoint => 6,
        Phase::ScrollMeasuring { .. } => 5,
        Phase::ScrollRefocused { .. } => 4,
        Phase::ScrollPositioning { .. } => 3,
        Phase::ScrollInput { .. } => 2,
        Phase::Scrolling => 1,
        Phase::KeyFocused => 3,
        Phase::KeyInput => 2,
        Phase::Keying => 1,
        Phase::TypeFocused => 9,
        Phase::TypeInput => 8,
        Phase::Typing => 7,
        Phase::PasteFocused => 6,
        Phase::PasteReplaced => 5,
        Phase::PasteInput => 4,
        Phase::PastePressed => 3,
        Phase::PasteSettled => 2,
        Phase::PasteRestoring => 1,
        Phase::ElementResolved => 2,
        Phase::ElementCall => 1,
    }
}

/// The first phase and step of a request: its checks, then its first step.
pub open spec fn start_step(op: Operation, p: Perform, step: Step) -> bool {
    &&& p.pressed is None
    &&& match op {
        Operation::Click { element, button, count } => if !(1 <= count <= 3) {
            step matches Step::Finish { result: Err(e), invalidate: false } && is_refusal(
                e,
                "invalid_argument"@,
                "clickCount must be 1..3"@,
            ) && p.phase == Phase::Finished
        } else {
            match element {
                Some(i) => step == Step::Element(i) && p.phase == Phase::ClickResolved,
                None => step == Step::Focus && p.phase == Phase::PointFocused,
            }
        },
        Operation::Drag => step == Step::Focus && p.phase == Phase::DragFocused,
        Operation::Scroll { element, pages_valid } => step == Step::Focus && p.phase
            == Phase::ScrollFocused && p.at_element == (element is Some),
        Operation::PressKey { key } => match chord_verdict(key@) {
            Err(m) => step matches Step::Finish { result: Err(e), invalidate: false }
                && is_refusal(e, "unsupported"@, m) && p.phase == Phase::Finished,
            Ok(_) => step == Step::Focus && p.phase == Phase::KeyFocused,
        },
        Operation::TypeText { text } => if utf8(text@).len() > MAX_TYPED_BYTES {
            step matches Step::Finish { result: Err(e), invalidate: false } && is_refusal(
                e,
                "invalid_argument"@,
                "Text exceeds 100000 bytes"@,
            ) && p.phase == Phase::Finished
        } else if text@.len() == 0 {
            step == finish(Ok(()), false) && p.phase == Phase::Finished
        } else {
            step == Step::Focus && p.phase == Phase::TypeFocused
        },
        Operation::Paste { text, format } => if format@ != "text"@ {
            step matches Step::Finish { result: Err(e), invalidate: false } && is_refusal(
                e,
                "unsupported"@,
                "Native rich clipboard formats are not available"@,
            ) && p.phase == Phase::Finished
        } else {
            step == Step::Focus && p.phase == Phase::PasteFocused
        },
        Operation::SetValue { element, value } => step == Step::Element(element) && p.phase
            == Phase::ElementResolved,
        Operation::SelectText { element } => step == Step::Element(element) && p.phase
            == Phase::ElementResolved,
        Operation::SecondaryAction { element, action } => step == Step::Element(element)
            && p.phase == Phase::ElementResolved,
        Operation::Unsupported => step matches Step::Finish { result: Err(e), invalidate: true }
            && is_refusal(e, "unsupported"@, "Operation is not supported by a desktop application"@)
            && p.phase == Phase::Finished,
    }
}

/// What the paste's saved failure is after an outcome `r`: the failure of
/// the input check or of the paste chord is kept until the clipboard is put
/// back, and then handed out.
pub open spec fn pressed_after(p: Perform, r: Result<(), ToolError>) -> Option<ToolError> {
    match p.phase {
        Phase::PasteInput => match r {
            Err(e) => Some(e),
            Ok(_) => p.pressed,
        },
        Phase::PastePressed => match r {
            Err(e) => Some(e),
            Ok(_) => None,
        },
        Phase::PasteRestoring => None,
        _ => p.pressed,
    }
}

/// An outcome handed back to a request.
pub enum Outcome {
    /// Of a step without data.
    Done(Result<(), ToolError>),
    /// Of an element lookup.
    Bounds(Result<Option<[i32; 4]>, ToolError>),
    /// Of a coordinate step.
    Point(Result<(i32, i32), ToolError>),
}

/// One move of a request: the outcome `o`, of the kind its phase waits for,
/// takes it from `p` to `q` with the next step `step`.
pub open spec fn moves(p: Perform, o: Outcome, q: Perform, step: Step) -> bool {
    &&& q.op == p.op
    &&& q.at_element == p.at_element
    &&& match o {
        Outcome::Done(r) => awaits(p.phase) == Awaits::Done && done_next(p, r, q.phase, step)
            && q.pressed == pressed_after(p, r),
        Outcome::Bounds(b) => awaits(p.phase) == Awaits::Bounds && bounds_next(p, b, q.phase, step)
            && q.pressed == p.pressed,
        Outcome::Point(c) => awaits(p.phase) == Awaits::Coordinates && coords_next(p, c, q.phase, step)
            && q.pressed == p.pressed,
    }
}

/// A whole run of a request for `op`: its start, then one move per outcome;
/// `states[i]` and `steps[i]` are where it stands and what it asks after `i`
/// outcomes.
pub open spec fn run(op: Operation, states: Seq<Perform>, steps: Seq<Step>, outcomes: Seq<Outcome>) -> bool {
    &&& states.len() == outcomes.len() + 1
    &&& steps.len() == states.len()
    &&& start_step(op, states[0], steps[0])
    &&& forall|i: int| 0 <= i < outcomes.len() ==> moves(#[trigger] states[i], outcomes[i], states[i + 1], steps[i + 1])
}

fn element_of(op: &Operation) -> (i: u64)
    ensures
        i == op_element(*op),
{
    match op {
        Operation::Click { element: Some(i), .. } => *i,
        Operation::Scroll { element: Some(i), .. } => *i,
        Operation::SetValue { element, .. } => *element,
        Operation::SelectText { element } => *element,
        Operation::SecondaryAction { element, .. } => *element,
        _ => 0,
    }
}

fn button_of(op: &Operation) -> (b: Button)
    ensures
        b == op_button(*op),
{
    match op {
        Operation::Click { button, .. } => *button,
        _ => Button::Left,
    }
}

fn count_of(op: &Operation) -> (n: u64)
    ensures
        n == op_count(*op),
{
    match op {
        Operation::Click { count, .. } => *count,
        _ => 1,
    }
}

fn clicks_after_first(op: &Operation) -> (n: u64)
    ensures
        n == more_clicks(*op),
{
    match op {
        Operation::Click { count, .. } => if *count > 0 {
            *count - 1
        } else {
            0
        },
        _ => 0,
    }
}

fn text_of(op: &Operation) -> (t: String)
    ensures
        t@ == op_text(*op),
{
    match op {
        Operation::PressKey { key } => key.clone(),
        Operation::TypeText { text } => text.clone(),
        Operation::Paste { text, .. } => text.clone(),
        Operation::SetValue { value, .. } => value.clone(),
        Operation::SecondaryAction { action, .. } => action.clone(),
        _ => String::new(),
    }
}

fn pages_valid_of(op: &Operation) -> (b: bool)
    ensures
        b == op_pages_valid(*op),
{
    match op {
        Operation::Scroll { pages_valid, .. } => *pages_valid,
        _ => false,
    }
}

impl Perform {
    /// Whether the request waits for an outcome of this kind.
    pub open spec fn waits_for(&self, kind: Awaits) -> bool {
        awaits(self.phase) == kind
    }

    /// Starts a request: its checks, then its first step.
    pub fn start(op: Operation) -> (r: (Perform, Step))
        ensures
            start_step(op, r.0, r.1),
    {
        let (phase, step, at_element) = match &op {
            Operation::Click { element, button: _, count } => {
                match check_click_count(*count) {
                    Err(e) => (Phase::Finished, Step::Finish { result: Err(e), invalidate: false }, false),
                    Ok(()) => match element {
                        Some(i) => (Phase::ClickResolved, Step::Element(*i), false),
                        None => (Phase::PointFocused, Step::Focus, false),
                    },
                }
            },
            Operation::Drag => (Phase::DragFocused, Step::Focus, false),
            Operation::Scroll { element, pages_valid: _ } => (Phase::ScrollFocused, Step::Focus, element.is_some()),
            Operation::PressKey { key } => match parse_chord(key.as_str()) {
                Err(e) => (Phase::Finished, Step::Finish { result: Err(e.tool(false)), invalidate: false }, false),
                Ok(_) => (Phase::KeyFocused, Step::Focus, false),
            },
            Operation::TypeText { text } => match check_typed_text(text.as_str()) {
                Err(e) => (Phase::Finished, Step::Finish { result: Err(e), invalidate: false }, false),
                Ok(false) => (Phase::Finished, Step::Finish { result: Ok(()), invalidate: false }, false),
                Ok(true) => (Phase::TypeFocused, Step::Focus, false),
            },
            Operation::Paste { text: _, format } => match check_paste_format(format.as_str()) {
                Err(e) => (Phase::Finished, Step::Finish { result: Err(e), invalidate: false }, false),
                Ok(()) => (Phase::PasteFocused, Step::Focus, false),
            },
            Operation::SetValue { element, value: _ } => (Phase::ElementResolved, Step::Element(*element), false),
            Operation::SelectText { element } => (Phase::ElementResolved, Step::Element(*element), false),
            Operation::SecondaryAction { element, action: _ } => (Phase::ElementResolved, Step::Element(*element), false),
            Operation::Unsupported => (Phase::Finished, Step::Finish { result: Err(unsupported_operation()), invalidate: true }, false),
        };
        (Perform { op, phase, pressed: None, at_element }, step)
    }

    /// The next step once a step without data (focus, input check,
    /// positioning, a desktop call, a clipboard step) answered `r`.
    pub fn after(&mut self, r: Result<(), ToolError>) -> (step: Step)
        requires
            old(self).waits_for(Awaits::Done),
        ensures
            done_next(*old(self), r, final(self).phase, step),
            steps_left(*final(self)) < steps_left(*old(self)),
            final(self).op == old(self).op,
            final(self).at_element == old(self).at_element,
            final(self).pressed == pressed_after(*old(self), r),
            moves(*old(self), Outcome::Done(r), *final(self), step),
    {
        let phase = self.phase;
        let (next, step) = match r {
            Err(e) => match phase {
                Phase::ClickAction => if is_unsupported(&e) {
                    (Phase::ClickFocused, Step::Focus)
                } else {
                    (Phase::Finished, Step::Finish { result: Err(e), invalidate: false })
                },
                Phase::Dragging | Phase::Scrolling | Phase::Keying | Phase::ElementCall | Phase::PasteFocused
                | Phase::PasteReplaced => (Phase::Finished, Step::Finish { result: Err(e), invalidate: true }),
                Phase::Typing => if is_unsupported(&e) {
                    (Phase::PasteFocused, Step::Focus)
                } else {
                    (Phase::Finished, Step::Finish { result: Err(e), invalidate: true })
                },
                Phase::PasteInput => {
                    self.pressed = Some(e);
                    (Phase::PasteRestoring, Step::RestoreClipboard)
                },
                Phase::PastePressed => {
                    self.pressed = Some(e);
                    (Phase::PasteSettled, Step::Settle)
                },
                Phase::PasteSettled => (Phase::PasteRestoring, Step::RestoreClipboard),
                Phase::PasteRestoring => {
                    let result = match self.pressed.take() {
                        Some(pe) => Err(pe),
                        None => Err(e),
                    };
                    (Phase::Finished, Step::Finish { result, invalidate: true })
                },
                _ => (Phase::Finished, Step::Finish { result: Err(e), invalidate: false }),
            },
            Ok(()) => match phase {
                Phase::ClickAction | Phase::Dragging | Phase::Scrolling | Phase::Keying | Phase::ElementCall
                | Phase::Typing => (Phase::Finished, Step::Finish { result: Ok(()), invalidate: true }),
                Phase::ClickFocused => (Phase::ClickBounds, Step::Element(element_of(&self.op))),
                Phase::ClickInput { x, y } => (Phase::ClickPositioning { x, y }, Step::Position(x, y)),
                Phase::ClickPositioning { x, y } => (Phase::ClickVerified { x, y }, Step::Element(element_of(&self.op))),
                Phase::Clicking { x, y, left } => if left > 0 {
                    (Phase::Clicking { x, y, left: left - 1 }, Step::Click(x, y, button_of(&self.op)))
                } else {
                    (Phase::Finished, Step::Finish { result: Ok(()), invalidate: true })
                },
                Phase::PointFocused => (Phase::PointResolved, Step::Point(PointOf::Target)),
                Phase::PointPositioning { x, y } => (Phase::PointVerifying { x, y }, Step::Point(PointOf::Target)),
                Phase::PointInput { x, y, left } => (Phase::PointClicking { x, y, left }, Step::Click(x, y, button_of(&self.op))),
                Phase::PointClicking { x, y, left } => if left > 0 {
                    (Phase::PointInput { x, y, left: left - 1 }, Step::RequireInput)
                } else {
                    (Phase::Finished, Step::Finish { result: Ok(()), invalidate: true })
                },
                Phase::DragFocused => (Phase::DragFrom, Step::Point(PointOf::From)),
                Phase::DragPositioning { sx, sy, ex, ey } => (Phase::DragVerifying { sx, sy, ex, ey }, Step::Point(PointOf::From)),
                Phase::DragInput { sx, sy, ex, ey } => (Phase::Dragging, Step::Drag(drag_path((sx, sy), (ex, ey)))),
                Phase::ScrollFocused => if self.at_element {
                    (Phase::ScrollAt, Step::Element(element_of(&self.op)))
                } else {
                    (Phase::ScrollPoint, Step::Point(PointOf::Target))
                },
                Phase::ScrollRefocused { x, y, dx, dy } => (Phase::ScrollPositioning { x, y, dx, dy }, Step::Position(x, y)),
                Phase::ScrollPositioning { x, y, dx, dy } => (Phase::ScrollInput { x, y, dx, dy }, Step::RequireInput),
                Phase::ScrollInput { x, y, dx, dy } => (Phase::Scrolling, Step::Scroll(x, y, dx, dy)),
                Phase::KeyFocused => (Phase::KeyInput, Step::RequireInput),
                Phase::KeyInput => (Phase::Keying, Step::Key(text_of(&self.op))),
                Phase::TypeFocused => (Phase::TypeInput, Step::RequireInput),
                Phase::TypeInput => (Phase::Typing, Step::Type(text_of(&self.op))),
                Phase::PasteFocused => (Phase::PasteReplaced, Step::ReplaceClipboard(text_of(&self.op))),
                Phase::PasteReplaced => (Phase::PasteInput, Step::RequireInput),
                Phase::PasteInput => (Phase::PastePressed, Step::PressPaste),
                Phase::PastePressed => {
                    self.pressed = None;
                    (Phase::PasteSettled, Step::Settle)
                },
                Phase::PasteSettled => (Phase::PasteRestoring, Step::RestoreClipboard),
                Phase::PasteRestoring => {
                    let result = match self.pressed.take() {
                        Some(pe) => Err(pe),
                        None => Ok(()),
                    };
                    (Phase::Finished, Step::Finish { result, invalidate: true })
                },
                _ => (Phase::Finished, Step::Finish { result: Ok(()), invalidate: false }),
            },
        };
        self.phase = next;
        step
    }

    /// The next step once an element lookup answered `r`: the element's
    /// bounds (`None` where it has none), or why it could not be resolved.
    pub fn after_bounds(&mut self, r: Result<Option<[i32; 4]>, ToolError>) -> (step: Step)
        requires
            old(self).waits_for(Awaits::Bounds),
        ensures
            bounds_next(*old(self), r, final(self).phase, step),
            moves(*old(self), Outcome::Bounds(r), *final(self), step),
            steps_left(*final(self)) < steps_left(*old(self)),
            final(self).op == old(self).op,
            final(self).at_element == old(self).at_element,
            final(self).pressed == old(self).pressed,
    {
        let phase = self.phase;
        let (next, step) = match r {
            Err(e) => (Phase::Finished, Step::Finish { result: Err(e), invalidate: false }),
            Ok(b) => match phase {
                Phase::ClickResolved => if button_of(&self.op) == Button::Left && count_of(&self.op) == 1 {
                    (Phase::ClickAction, Step::Action(None))
                } else {
                    (Phase::ClickFocused, Step::Focus)
                },
                Phase::ClickBounds => match center(b) {
                    Some((x, y)) => (Phase::ClickInput { x, y }, Step::RequireInput),
                    None => (Phase::Finished, Step::Finish {
                        result: Err(fail("unsupported", "Element has neither an action nor usable bounds")),
                        invalidate: false,
                    }),
                },
                Phase::ClickVerified { x, y } => (
                    Phase::Clicking { x, y, left: clicks_after_first(&self.op) },
                    Step::Click(x, y, button_of(&self.op)),
                ),
                Phase::ScrollAt => match center(b) {
                    Some((x, y)) => self.scroll_at(x, y),
                    None => (Phase::Finished, Step::Finish {
                        result: Err(fail("unsupported", "Element has no usable scroll bounds")),
                        invalidate: false,
                    }),
                },
                Phase::ElementResolved => {
                    let step = match &self.op {
                        Operation::SetValue { value, .. } => Step::SetValue(value.clone()),
                        Operation::SelectText { .. } => Step::SelectText,
                        Operation::SecondaryAction { action, .. } => Step::Action(Some(action.clone())),
                        _ => Step::Finish { result: Err(unsupported_operation()), invalidate: true },
                    };
                    (Phase::ElementCall, step)
                },
                _ => (Phase::Finished, Step::Finish { result: Ok(()), invalidate: false }),
            },
        };
        self.phase = next;
        step
    }

    fn scroll_at(&self, x: i32, y: i32) -> (r: (Phase, Step))
        ensures
            scroll_from(*self, x, y, r.0, r.1),
    {
        if pages_valid_of(&self.op) {
            (Phase::ScrollMeasuring { x, y }, Step::ScrollAmount)
        } else {
            (Phase::Finished, Step::Finish {
                result: Err(fail("invalid_argument", "pages must be greater than zero and at most 20")),
                invalidate: false,
            })
        }
    }

    /// The next step once a coordinate step answered `r`: a point on the
    /// desktop, or the scroll deltas `(dx, dy)`.
    pub fn after_point(&mut self, r: Result<(i32, i32), ToolError>) -> (step: Step)
        requires
            old(self).waits_for(Awaits::Coordinates),
        ensures
            coords_next(*old(self), r, final(self).phase, step),
            moves(*old(self), Outcome::Point(r), *final(self), step),
            steps_left(*final(self)) < steps_left(*old(self)),
            final(self).op == old(self).op,
            final(self).at_element == old(self).at_element,
            final(self).pressed == old(self).pressed,
    {
        let phase = self.phase;
        let (next, step) = match r {
            Err(e) => (Phase::Finished, Step::Finish { result: Err(e), invalidate: false }),
            Ok((x, y)) => match phase {
                Phase::PointResolved => (Phase::PointPositioning { x, y }, Step::Position(x, y)),
                Phase::PointVerifying { x: px, y: py } => (
                    Phase::PointInput { x: px, y: py, left: clicks_after_first(&self.op) },
                    Step::RequireInput,
                ),
                Phase::DragFrom => (Phase::DragTo { x, y }, Step::Point(PointOf::To)),
                Phase::DragTo { x: sx, y: sy } => (Phase::DragPositioning { sx, sy, ex: x, ey: y }, Step::Position(sx, sy)),
                Phase::DragVerifying { sx, sy, ex, ey } => (Phase::DragInput { sx, sy, ex, ey }, Step::RequireInput),
                Phase::ScrollPoint => self.scroll_at(x, y),
                Phase::ScrollMeasuring { x: sx, y: sy } => (Phase::ScrollRefocused { x: sx, y: sy, dx: x, dy: y }, Step::Focus),
                _ => (Phase::Finished, Step::Finish { result: Ok(()), invalidate: false }),
            },
        };
        self.phase = next;
        step
    }
}

/// The only request that succeeds without a desktop call, and so without
/// invalidating, is typing empty text: it is answered at once.
pub proof fn law_only_empty_text_succeeds_at_once(op: Operation, p: Perform, step: Step)
    requires
        start_step(op, p, step),
        step matches Step::Finish { result: Ok(_), .. },
    ensures
        op matches Operation::TypeText { text } && text@.len() == 0,
        step == finish(Ok(()), false),
{
}

/// A request that succeeds answers with its observation invalidated, unless
/// it typed empty text (answered at once, with no desktop call); once the
/// engine forgets the application's indices (`invalidated`), no index of it
/// is honoured: every later element lookup answers `stale_element` until the
/// next observation.
pub proof fn law_successful_requests_leave_indices_stale(
    op: Operation,
    states: Seq<Perform>,
    steps: Seq<Step>,
    outcomes: Seq<Outcome>,
    before: Seq<(String, Observation)>,
    after: Seq<(String, Observation)>,
    id: Seq<char>,
    index: u64,
)
    requires
        run(op, states, steps, outcomes),
        steps.last() matches Step::Finish { result: Ok(_), .. },
        !(op matches Operation::TypeText { text } && text@.len() == 0),
        invalidated(before, after, id),
    ensures
        steps.last() matches Step::Finish { invalidate: true, .. },
        match observation_of(after, id) {
            None => true,
            Some(n) => element_at(n.elements@, index) is None,
        },
{
    let n = outcomes.len() as int;
    if n == 0 {
        law_only_empty_text_succeeds_at_once(op, states[0], steps[0]);
    } else {
        assert(moves(states[n - 1], outcomes[n - 1], states[n], steps[n]));
        assert(steps.last() == steps[n]);
    }
    law_no_index_survives_invalidation(before, after, id, index);
}

/// Element lookups and coordinate steps never succeed a request: they lead
/// to a further step or to a refusal.
pub proof fn law_lookups_never_answer_success(
    p: Perform,
    b: Result<Option<[i32; 4]>, ToolError>,
    c: Result<(i32, i32), ToolError>,
    next: Phase,
    step: Step,
)
    ensures
        bounds_next(p, b, next, step) ==> !(step matches Step::Finish { result: Ok(_), .. }),
        coords_next(p, c, next, step) ==> !(step matches Step::Finish { result: Ok(_), .. }),
{
}

} // verus!
