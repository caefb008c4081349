//! The parts of a desktop request that carry no coordinates: the target,
//! observation options, text selections and scroll directions.
use crate::error::fail;
use crate::text::{chars_of, debug_quoted, debug_text, eq_lit, lower, lower_vec, string_of};
use crate::types::ToolError;
use vstd::prelude::*;

verus! {

#[derive(Debug, Clone, Copy, PartialEq, Eq, Structural)]
pub enum Direction {
    Up,
    Down,
    Left,
    Right,
}

/// The direction a scroll request names, in any case: `u`/`up`, `d`/`down`,
/// `l`/`left`, `r`/`right`.
pub open spec fn direction_of(value: Seq<char>) -> Option<Direction> {
    let v = lower(value);
    if v == "u"@ || v == "up"@ {
        Some(Direction::Up)
    } else if v == "d"@ || v == "down"@ {
        Some(Direction::Down)
    } else if v == "l"@ || v == "left"@ {
        Some(Direction::Left)
    } else if v == "r"@ || v == "right"@ {
        Some(Direction::Right)
    } else {
        None
    }
}

impl Direction {
    /// Reads a scroll direction; anything else is refused with a message
    /// that quotes it (lower-cased) and lists the choices.
    pub fn parse(value: &str) -> (r: Result<Direction, String>)
        ensures
            match direction_of(value@) {
                Some(d) => r == Ok::<Direction, String>(d),
                None => r matches Err(m) && m@ == "unknown scroll direction "@ + debug_text(lower(value@))
                    + " (use up, down, left, or right)"@,
            },
    {
        let v = chars_of(value);
        let l = lower_vec(v.as_slice());
        let s = l.as_slice();
        if eq_lit(s, "u") || eq_lit(s, "up") {
            Ok(Direction::Up)
        } else if eq_lit(s, "d") || eq_lit(s, "down") {
            Ok(Direction::Down)
        } else if eq_lit(s, "l") || eq_lit(s, "left") {
            Ok(Direction::Left)
        } else if eq_lit(s, "r") || eq_lit(s, "right") {
            Ok(Direction::Right)
        } else {
            let mut m = String::from_str("unknown scroll direction ");
            let text = string_of(s);
            let q = debug_quoted(text.as_str());
            m.append(q.as_str());
            m.append(" (use up, down, left, or right)");
            Err(m)
        }
    }

    /// Whether the direction scrolls sideways.
    pub fn horizontal(self) -> (b: bool)
        ensures
            b == (self == Direction::Left || self == Direction::Right),
    {
        match self {
            Direction::Left | Direction::Right => true,
            _ => false,
        }
    }
}

/// Options of an accessibility observation.
#[derive(Debug, Clone, Copy, PartialEq, Eq, Structural)]
pub struct ObservationOptions {
    /// Report the whole state instead of a diff against the last one.
    pub disable_diffing: bool,
}

impl ObservationOptions {
    /// Diffing is on unless disabled.
    pub fn new() -> (o: ObservationOptions)
        ensures
            !o.disable_diffing,
    {
        ObservationOptions { disable_diffing: false }
    }
}

/// A text to select in an element, singled out by the text around it.
#[derive(Debug)]
pub struct Selection {
    pub element_index: u64,
    pub text: String,
    pub prefix: String,
    pub suffix: String,
    /// `text`, `cursor_before` or `cursor_after`.
    pub selection_type: String,
}

/// The default click count.
pub fn one() -> (n: u64)
    ensures
        n == 1,
{
    1
}

/// The default clipboard and selection format.
pub fn text_format() -> (s: String)
    ensures
        s@ == "text"@,
{
    String::from_str("text")
}

/// The target a request must name.
pub fn require_target(target: &Option<String>) -> (r: Result<&str, ToolError>)
    ensures
        match target {
            Some(t) => r matches Ok(s) && s@ == t@,
            None => r matches Err(e) && e.code@ == "invalid_argument"@ && e.message@ == "Target is required"@,
        },
{
    match target {
        Some(t) => Ok(t.as_str()),
        None => Err(fail("invalid_argument", "Target is required")),
    }
}

} // verus!
