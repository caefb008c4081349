//! The checks and arithmetic of desktop actions, applied before anything is
//! sent to the desktop.
use crate::error::fail;
use crate::text::{chars_of, eq_lit, utf8, utf8_of};
use crate::types::ToolError;
use vstd::prelude::*;

verus! {

/// The largest text typed in one action, in bytes.
pub const MAX_TYPED_BYTES: usize = 100_000;

/// Clicks come one to three at a time.
pub fn check_click_count(count: u64) -> (r: Result<(), ToolError>)
    ensures
        1 <= count <= 3 ==> r is Ok,
        !(1 <= count <= 3) ==> (r matches Err(e) && e.code@ == "invalid_argument"@ && e.message@
            == "clickCount must be 1..3"@ && !e.retryable),
{
    if count < 1 || count > 3 {
        return Err(fail("invalid_argument", "clickCount must be 1..3"));
    }
    Ok(())
}

/// Whether element bounds `[x, y, w, h]` have an area to aim at.
pub open spec fn usable(bbox: Option<[i32; 4]>) -> bool {
    bbox matches Some(b) && b@[2] > 0 && b@[3] > 0
}

/// The centre of usable element bounds; unusable bounds are refused with
/// `message`.
pub fn bbox_center(bbox: Option<[i32; 4]>, message: &str) -> (r: Result<(i32, i32), ToolError>)
    requires
        bbox matches Some(b) ==> b@[0] + b@[2] / 2 <= i32::MAX && b@[1] + b@[3] / 2 <= i32::MAX,
    ensures
        match bbox {
            Some(b) => if b@[2] > 0 && b@[3] > 0 {
                r == Ok::<(i32, i32), ToolError>(((b@[0] + b@[2] / 2) as i32, (b@[1] + b@[3] / 2) as i32))
            } else {
                r matches Err(e) && e.code@ == "unsupported"@ && e.message@ == message@
            },
            None => r matches Err(e) && e.code@ == "unsupported"@ && e.message@ == message@,
        },
{
    match bbox {
        Some(b) => {
            if b[2] > 0 && b[3] > 0 {
                Ok((b[0] + b[2] / 2, b[1] + b[3] / 2))
            } else {
                Err(fail("unsupported", message))
            }
        },
        None => Err(fail("unsupported", message)),
    }
}

/// Rust's integer division, rounding toward zero.
pub open spec fn div_toward_zero(a: int, b: int) -> int {
    if a >= 0 {
        a / b
    } else {
        -((-a) / b)
    }
}

/// Point `step` of the 24 even steps from `a` to `b`.
pub open spec fn drag_point(a: i32, b: i32, step: int) -> i32 {
    (a + div_toward_zero((b - a) * step, 24)) as i32
}

/// The 25 points of a drag from `start` to `end`, both included.
pub fn drag_path(start: (i32, i32), end: (i32, i32)) -> (path: Vec<(i32, i32)>)
    ensures
        path@.len() == 25,
        forall|i: int| 0 <= i < 25 ==> #[trigger] path@[i] == (drag_point(start.0, end.0, i), drag_point(start.1, end.1, i)),
{
    let dx: i64 = end.0 as i64 - start.0 as i64;
    let dy: i64 = end.1 as i64 - start.1 as i64;
    let mut path: Vec<(i32, i32)> = Vec::new();
    let mut step: i64 = 0;
    while step <= 24
        invariant
            0 <= step <= 25,
            dx == end.0 - start.0,
            dy == end.1 - start.1,
            path@.len() == step,
            forall|i: int| 0 <= i < step ==> #[trigger] path@[i] == (drag_point(start.0, end.0, i), drag_point(start.1, end.1, i)),
        decreases 25 - step,
    {
        assert(-103079215080 <= dx * step <= 103079215080) by (nonlinear_arith)
            requires -4294967295 <= dx <= 4294967295, 0 <= step <= 24;
        assert(-103079215080 <= dy * step <= 103079215080) by (nonlinear_arith)
            requires -4294967295 <= dy <= 4294967295, 0 <= step <= 24;
        let px = dx * step;
        let py = dy * step;
        let qx = px / 24;
        let qy = py / 24;
        proof {
            assert(qx == div_toward_zero(px as int, 24));
            assert(qy == div_toward_zero(py as int, 24));
            lemma_step_between(dx as int, step as int);
            lemma_step_between(dy as int, step as int);
        }
        let x = (start.0 as i64 + qx) as i32;
        let y = (start.1 as i64 + qy) as i32;
        path.push((x, y));
        step += 1;
    }
    path
}

proof fn lemma_step_between(d: int, step: int)
    requires
        0 <= step <= 24,
    ensures
        d >= 0 ==> 0 <= div_toward_zero(d * step, 24) <= d,
        d < 0 ==> d <= div_toward_zero(d * step, 24) <= 0,
{
    if d >= 0 {
        assert(0 <= d * step <= d * 24) by (nonlinear_arith)
            requires d >= 0, 0 <= step <= 24;
        assert((d * 24) / 24 == d);
        assert(0 <= (d * step) / 24 <= (d * 24) / 24) by (nonlinear_arith)
            requires 0 <= d * step <= d * 24;
    } else {
        assert(0 <= (-d) * step <= (-d) * 24) by (nonlinear_arith)
            requires d < 0, 0 <= step <= 24;
        assert(d * step == -((-d) * step)) by (nonlinear_arith);
        assert(((-d) * 24) / 24 == -d);
        assert(0 <= ((-d) * step) / 24 <= ((-d) * 24) / 24) by (nonlinear_arith)
            requires 0 <= (-d) * step <= (-d) * 24;
    }
}

/// Typed text is refused beyond 100000 bytes of UTF-8; empty text types
/// nothing (the answer is `false`).
pub fn check_typed_text(text: &str) -> (r: Result<bool, ToolError>)
    ensures
        utf8(text@).len() > MAX_TYPED_BYTES ==> (r matches Err(e) && e.code@ == "invalid_argument"@
            && e.message@ == "Text exceeds 100000 bytes"@ && !e.retryable),
        utf8(text@).len() <= MAX_TYPED_BYTES ==> r == Ok::<bool, ToolError>(text@.len() > 0),
{
    let c = chars_of(text);
    let bytes = utf8_of(c.as_slice());
    if bytes.len() > MAX_TYPED_BYTES {
        return Err(fail("invalid_argument", "Text exceeds 100000 bytes"));
    }
    Ok(c.len() > 0)
}

/// Only plain text can be pasted.
pub fn check_paste_format(format: &str) -> (r: Result<(), ToolError>)
    ensures
        format@ == "text"@ ==> r is Ok,
        format@ != "text"@ ==> (r matches Err(e) && e.code@ == "unsupported"@ && e.message@
            == "Native rich clipboard formats are not available"@ && !e.retryable),
{
    let f = chars_of(format);
    if !eq_lit(f.as_slice(), "text") {
        return Err(fail("unsupported", "Native rich clipboard formats are not available"));
    }
    Ok(())
}

/// The refusal of a request an application cannot perform.
pub fn unsupported_operation() -> (e: ToolError)
    ensures
        e.code@ == "unsupported"@,
        e.message@ == "Operation is not supported by a desktop application"@,
        !e.retryable,
{
    fail("unsupported", "Operation is not supported by a desktop application")
}

} // verus!
