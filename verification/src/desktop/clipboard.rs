//! Pasting through the clipboard without losing what it held: which
//! clipboard contents can be saved and put back, the commands that read and
//! write it, and what restoring does once the paste is over.
use crate::drivers::SessionType;
use crate::error::fail;
use crate::text::{chars_of, lines, lines_vec, starts_with_lit, trim, trim_vec, views, eq_lit};
use crate::types::ToolError;
use vstd::prelude::*;

verus! {

/// Clipboard targets that a text clipboard advertises besides its text.
pub open spec fn plain_target(m: Seq<char>) -> bool {
    m == "TARGETS"@ || m == "TIMESTAMP"@ || m == "MULTIPLE"@ || m == "SAVE_TARGETS"@ || m
        == "UTF8_STRING"@ || m == "STRING"@ || m == "TEXT"@ || m == "COMPOUND_TEXT"@
}

pub open spec fn starts_with(s: Seq<char>, p: Seq<char>) -> bool {
    p.len() <= s.len() && s.take(p.len() as int) == p
}

/// A listed type (trimmed) that is neither plain text nor a plain target.
pub open spec fn foreign_type(line: Seq<char>) -> bool {
    !plain_target(trim(line)) && !starts_with(trim(line), "text/plain"@)
}

/// Whether a type listing names a format that could not be put back.
pub open spec fn holds_foreign(listing: Seq<char>) -> bool {
    exists|i: int| 0 <= i < lines(listing).len() && foreign_type(#[trigger] lines(listing)[i])
}

fn is_plain_target(m: &[char]) -> (b: bool)
    ensures
        b == plain_target(m@),
{
    eq_lit(m, "TARGETS") || eq_lit(m, "TIMESTAMP") || eq_lit(m, "MULTIPLE") || eq_lit(m, "SAVE_TARGETS")
        || eq_lit(m, "UTF8_STRING") || eq_lit(m, "STRING") || eq_lit(m, "TEXT") || eq_lit(m, "COMPOUND_TEXT")
}

pub fn has_foreign_type(listing: &str) -> (b: bool)
    ensures
        b == holds_foreign(listing@),
{
    let c = chars_of(listing);
    let ls = lines_vec(c.as_slice());
    let mut i: usize = 0;
    while i < ls.len()
        invariant
            i <= ls@.len(),
            views(ls@) == lines(listing@),
            forall|k: int| 0 <= k < i ==> !foreign_type(#[trigger] lines(listing@)[k]),
        decreases ls@.len() - i,
    {
        let m = trim_vec(ls[i].as_slice());
        proof {
            assert(views(ls@)[i as int] == ls@[i as int]@);
        }
        if !is_plain_target(m.as_slice()) && !starts_with_lit(m.as_slice(), "text/plain") {
            return true;
        }
        i += 1;
    }
    false
}

/// The commands that list the clipboard's types, read its text and write it.
pub open spec fn types_command(session: SessionType) -> Seq<Seq<char>> {
    match session {
        SessionType::Wayland => seq!["wl-paste"@, "--list-types"@],
        SessionType::X11 => seq!["xclip"@, "-o"@, "-selection"@, "clipboard"@, "-target"@, "TARGETS"@],
    }
}

pub open spec fn read_command(session: SessionType) -> Seq<Seq<char>> {
    match session {
        SessionType::Wayland => seq!["wl-paste"@, "--no-newline"@, "--type"@, "text"@],
        SessionType::X11 => seq!["xclip"@, "-o"@, "-selection"@, "clipboard"@, "-target"@, "UTF8_STRING"@],
    }
}

pub open spec fn write_command(session: SessionType) -> Seq<Seq<char>> {
    match session {
        SessionType::Wayland => seq!["wl-copy"@, "--type"@, "text/plain;charset=utf-8"@],
        SessionType::X11 => seq!["xclip"@, "-selection"@, "clipboard"@, "-target"@, "UTF8_STRING"@],
    }
}

pub open spec fn literal_views(v: Seq<&str>) -> Seq<Seq<char>> {
    v.map_values(|s: &str| s@)
}

/// Program and arguments that list the clipboard's types.
pub fn list_types_command(session: SessionType) -> (r: Vec<&'static str>)
    ensures
        literal_views(r@) == types_command(session),
{
    let r = match session {
        SessionType::Wayland => vec!["wl-paste", "--list-types"],
        SessionType::X11 => vec!["xclip", "-o", "-selection", "clipboard", "-target", "TARGETS"],
    };
    proof {
        assert(literal_views(r@) =~= types_command(session));
    }
    r
}

/// Program and arguments that print the clipboard's text.
pub fn read_text_command(session: SessionType) -> (r: Vec<&'static str>)
    ensures
        literal_views(r@) == read_command(session),
{
    let r = match session {
        SessionType::Wayland => vec!["wl-paste", "--no-newline", "--type", "text"],
        SessionType::X11 => vec!["xclip", "-o", "-selection", "clipboard", "-target", "UTF8_STRING"],
    };
    proof {
        assert(literal_views(r@) =~= read_command(session));
    }
    r
}

/// Program and arguments that take new clipboard text on standard input.
pub fn write_text_command(session: SessionType) -> (r: Vec<&'static str>)
    ensures
        literal_views(r@) == write_command(session),
{
    let r = match session {
        SessionType::Wayland => vec!["wl-copy", "--type", "text/plain;charset=utf-8"],
        SessionType::X11 => vec!["xclip", "-selection", "clipboard", "-target", "UTF8_STRING"],
    };
    proof {
        assert(literal_views(r@) =~= write_command(session));
    }
    r
}

/// What the clipboard held before a paste, from the two reads: the type
/// listing (`listed`: whether that command succeeded, and its output) and
/// the text read (`text`: `None` when that command failed).
pub fn saved_contents(listed: bool, listing: &str, text: Option<String>) -> (r: Result<Option<String>, ToolError>)
    ensures
        listed && holds_foreign(listing@) ==> (r matches Err(e) && e.code@ == "unsupported"@
            && e.message@ == "Clipboard contains formats this provider cannot restore; use a semantic text edit"@
            && !e.retryable),
        !(listed && holds_foreign(listing@)) && text is Some ==> r == Ok::<Option<String>, ToolError>(text),
        !(listed && holds_foreign(listing@)) && text is None && listed && listing@.len() > 0 ==> (r matches Err(e)
            && e.code@ == "unsupported"@
            && e.message@ == "Clipboard contains non-text data; cannot safely replace it for paste"@
            && !e.retryable),
        !(listed && holds_foreign(listing@)) && text is None && !(listed && listing@.len() > 0) ==> r
            == Ok::<Option<String>, ToolError>(None),
{
    if listed && has_foreign_type(listing) {
        return Err(fail("unsupported", "Clipboard contains formats this provider cannot restore; use a semantic text edit"));
    }
    match text {
        Some(t) => Ok(Some(t)),
        None => {
            let c = chars_of(listing);
            if listed && c.len() > 0 {
                Err(fail("unsupported", "Clipboard contains non-text data; cannot safely replace it for paste"))
            } else {
                Ok(None)
            }
        },
    }
}

/// What restoring the clipboard after a paste does.
pub enum Restore {
    /// Someone else changed the clipboard since: leave it alone.
    Leave,
    /// Put the earlier text back.
    Write(String),
    /// Empty it (`wl-copy --clear`), as it held nothing before.
    Clear,
}

/// Restores only while the clipboard still holds the inserted text: the
/// earlier text goes back; where there was none, Wayland clears the
/// clipboard and X11 writes empty text.
pub fn restore_plan(session: SessionType, current: Option<String>, inserted: &str, previous: Option<String>) -> (r: Restore)
    ensures
        !(current matches Some(c) && c@ == inserted@) ==> r is Leave,
        (current matches Some(c) && c@ == inserted@) ==> match previous {
            Some(p) => r matches Restore::Write(t) && t == p,
            None => match session {
                SessionType::Wayland => r is Clear,
                SessionType::X11 => r matches Restore::Write(t) && t@.len() == 0,
            },
        },
{
    let unchanged = match &current {
        Some(c) => {
            let a = chars_of(c.as_str());
            let b = chars_of(inserted);
            crate::text::eq_chars(a.as_slice(), b.as_slice())
        },
        None => false,
    };
    if !unchanged {
        return Restore::Leave;
    }
    match previous {
        Some(p) => Restore::Write(p),
        None => match session {
            SessionType::Wayland => Restore::Clear,
            SessionType::X11 => Restore::Write(String::new()),
        },
    }
}


pub open spec fn paste_command(session: SessionType) -> Seq<Seq<char>> {
    match session {
        SessionType::Wayland => seq!["wl-paste"@, "--no-newline"@],
        SessionType::X11 => seq!["xclip"@, "-o"@, "-sel"@, "clip"@],
    }
}

pub open spec fn copy_command(session: SessionType) -> Seq<Seq<char>> {
    match session {
        SessionType::Wayland => seq!["wl-copy"@],
        SessionType::X11 => seq!["xclip"@, "-i"@, "-sel"@, "clip"@],
    }
}

/// The plain reader of the clipboard: program and arguments.
pub fn paste_program(session: SessionType) -> (r: Vec<&'static str>)
    ensures
        literal_views(r@) == paste_command(session),
{
    let r = match session {
        SessionType::Wayland => vec!["wl-paste", "--no-newline"],
        SessionType::X11 => vec!["xclip", "-o", "-sel", "clip"],
    };
    proof {
        assert(literal_views(r@) =~= paste_command(session));
    }
    r
}

/// The plain writer of the clipboard (text on standard input).
pub fn copy_program(session: SessionType) -> (r: Vec<&'static str>)
    ensures
        literal_views(r@) == copy_command(session),
{
    let r = match session {
        SessionType::Wayland => vec!["wl-copy"],
        SessionType::X11 => vec!["xclip", "-i", "-sel", "clip"],
    };
    proof {
        assert(literal_views(r@) =~= copy_command(session));
    }
    r
}

/// A paste in progress: the text put on the clipboard and what it held
/// before, to be restored once, when the paste is over.
#[derive(Debug)]
pub struct Clipboard {
    pub session: SessionType,
    pub previous: Option<String>,
    pub inserted: String,
    pub armed: bool,
}

impl Clipboard {
    /// The guard of a paste of `inserted` over a clipboard that held
    /// `previous`; armed until restored.
    pub fn replace(session: SessionType, previous: Option<String>, inserted: &str) -> (c: Clipboard)
        ensures
            c.session == session,
            c.previous == previous,
            c.inserted@ == inserted@,
            c.armed,
    {
        Clipboard { session, previous, inserted: String::from_str(inserted), armed: true }
    }

    /// What restoring does given what the clipboard holds now; the guard is
    /// disarmed, so nothing is restored a second time.
    pub fn restore(&mut self, current: Option<String>) -> (r: Restore)
        ensures
            !final(self).armed,
            final(self).session == old(self).session,
            final(self).inserted == old(self).inserted,
            !old(self).armed ==> r is Leave,
            old(self).armed && !(current matches Some(c) && c@ == old(self).inserted@) ==> r is Leave,
            old(self).armed && (current matches Some(c) && c@ == old(self).inserted@) ==> match old(self).previous {
                Some(p) => r matches Restore::Write(t) && t == p,
                None => match old(self).session {
                    SessionType::Wayland => r is Clear,
                    SessionType::X11 => r matches Restore::Write(t) && t@.len() == 0,
                },
            },
    {
        if !self.armed {
            return Restore::Leave;
        }
        self.armed = false;
        let previous = self.previous.take();
        restore_plan(self.session, current, self.inserted.as_str(), previous)
    }
}

} // verus!
