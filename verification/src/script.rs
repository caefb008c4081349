//! The limits and decisions around running a user's script: how large a
//! script may be, what it may emit, what an interrupted desktop call or a
//! failed run answers, and when the script state is thrown away.
use crate::error::fail;
use crate::text::{chars_of, utf8, utf8_of};
use crate::types::ToolError;
use vstd::prelude::*;

verus! {

/// The largest script accepted, in bytes of UTF-8.
pub const MAX_SCRIPT_BYTES: usize = 131072;

/// How many values one run may emit.
pub const MAX_OUTPUT_ITEMS: usize = 64;

/// How many bytes of UTF-8 the emitted values may take together.
pub const MAX_OUTPUT_BYTES: usize = 16777216;

/// A script is refused beyond 128 KiB of UTF-8.
pub fn check_script(code: &str) -> (r: Result<(), String>)
    ensures
        utf8(code@).len() <= MAX_SCRIPT_BYTES ==> r is Ok,
        utf8(code@).len() > MAX_SCRIPT_BYTES ==> (r matches Err(m) && m@ == "Script exceeds 128 KiB"@),
{
    let c = chars_of(code);
    let bytes = utf8_of(c.as_slice());
    if bytes.len() > MAX_SCRIPT_BYTES {
        Err(String::from_str("Script exceeds 128 KiB"))
    } else {
        Ok(())
    }
}

/// Whether `text` is one JSON value.
pub uninterp spec fn is_json(text: Seq<char>) -> bool;

/// `serde_json::from_str::<serde_json::Value>`, read as whether it
/// succeeded.
#[verifier::external_body]
fn parses_as_json(text: &str) -> (b: bool)
    ensures
        b == is_json(text@),
{
    serde_json::from_str::<serde_json::Value>(text).is_ok()
}

pub open spec fn texts(v: Seq<String>) -> Seq<Seq<char>> {
    v.map_values(|s: String| s@)
}

/// The bytes of UTF-8 that some texts take together.
pub open spec fn total_bytes(items: Seq<Seq<char>>) -> nat
    decreases items.len(),
{
    if items.len() == 0 {
        0
    } else {
        total_bytes(items.drop_last()) + utf8(items.last()).len()
    }
}

/// What one run emitted: JSON texts, at most 64 of them and at most 16 MiB
/// together.
pub struct Output {
    items: Vec<String>,
    bytes: usize,
}

impl Output {
    #[verifier::type_invariant]
    spec fn within_limits(self) -> bool {
        &&& self.items@.len() <= MAX_OUTPUT_ITEMS
        &&& self.bytes <= MAX_OUTPUT_BYTES
        &&& self.bytes == total_bytes(texts(self.items@))
    }

    /// The texts kept so far, in the order they were emitted.
    pub closed spec fn emitted(&self) -> Seq<Seq<char>> {
        texts(self.items@)
    }

    /// Nothing emitted yet.
    pub fn new() -> (o: Output)
        ensures
            o.emitted() == Seq::<Seq<char>>::empty(),
    {
        let o = Output { items: Vec::new(), bytes: 0 };
        assert(texts(o.items@) =~= Seq::<Seq<char>>::empty());
        o
    }

    /// Keeps `payload`, which `parsed` says is JSON, if fewer than 64 values
    /// are kept and the kept texts stay within 16 MiB; answers whether it was
    /// kept. A refused payload changes nothing.
    pub fn accept(&mut self, payload: String, parsed: bool) -> (kept: bool)
        ensures
            kept == (parsed && old(self).emitted().len() < MAX_OUTPUT_ITEMS && total_bytes(old(self).emitted())
                + utf8(payload@).len() <= MAX_OUTPUT_BYTES),
            kept ==> final(self).emitted() == old(self).emitted().push(payload@),
            !kept ==> final(self).emitted() == old(self).emitted(),
            final(self).emitted().len() <= MAX_OUTPUT_ITEMS,
            total_bytes(final(self).emitted()) <= MAX_OUTPUT_BYTES,
    {
        proof {
            use_type_invariant(&*self);
        }
        if !parsed || self.items.len() >= MAX_OUTPUT_ITEMS {
            return false;
        }
        let c = chars_of(payload.as_str());
        let size = utf8_of(c.as_slice()).len();
        if size > MAX_OUTPUT_BYTES - self.bytes {
            return false;
        }
        let mut fresh = Output::new();
        std::mem::swap(self, &mut fresh);
        let Output { mut items, bytes } = fresh;
        let ghost before = texts(items@);
        items.push(payload);
        proof {
            assert(texts(items@) =~= before.push(payload@));
            assert(texts(items@).drop_last() =~= before);
        }
        *self = Output { items, bytes: bytes + size };
        true
    }

    /// Keeps `payload` if it is JSON and within the limits, as `accept` says.
    pub fn emit(&mut self, payload: String) -> (kept: bool)
        ensures
            kept == (is_json(payload@) && old(self).emitted().len() < MAX_OUTPUT_ITEMS && total_bytes(
                old(self).emitted(),
            ) + utf8(payload@).len() <= MAX_OUTPUT_BYTES),
            kept ==> final(self).emitted() == old(self).emitted().push(payload@),
            !kept ==> final(self).emitted() == old(self).emitted(),
            final(self).emitted().len() <= MAX_OUTPUT_ITEMS,
            total_bytes(final(self).emitted()) <= MAX_OUTPUT_BYTES,
    {
        let parsed = parses_as_json(payload.as_str());
        self.accept(payload, parsed)
    }

    /// Hands out what was emitted and starts over.
    pub fn take(&mut self) -> (items: Vec<String>)
        ensures
            texts(items@) == old(self).emitted(),
            final(self).emitted() == Seq::<Seq<char>>::empty(),
    {
        let mut fresh = Output::new();
        std::mem::swap(self, &mut fresh);
        let Output { items, bytes: _ } = fresh;
        items
    }
}

/// How a desktop call made from a script ended early.
#[derive(Debug, Clone, Copy, PartialEq, Eq, Structural)]
pub enum Interruption {
    /// The run was cancelled before the call started.
    CancelledBefore,
    /// The run was cancelled while the call was under way.
    Cancelled,
    /// The run's time ran out during the call.
    TimedOut,
}

/// The answer a script gets for an interrupted desktop call.
pub fn interruption_error(i: Interruption) -> (e: ToolError)
    ensures
        !e.retryable,
        match i {
            Interruption::CancelledBefore => e.code@ == "cancelled"@ && e.message@ == "Request cancelled"@,
            Interruption::Cancelled => e.code@ == "cancelled"@ && e.message@
                == "Request cancelled; observe before deciding whether to retry"@,
            Interruption::TimedOut => e.code@ == "timeout"@ && e.message@
                == "Operation timed out; observe before deciding whether to retry"@,
        },
{
    match i {
        Interruption::CancelledBefore => fail("cancelled", "Request cancelled"),
        Interruption::Cancelled => fail("cancelled", "Request cancelled; observe before deciding whether to retry"),
        Interruption::TimedOut => fail("timeout", "Operation timed out; observe before deciding whether to retry"),
    }
}

/// A desktop call whose request text did not read as a request.
pub fn malformed_call(error: &str) -> (e: ToolError)
    ensures
        e.code@ == "invalid_argument"@,
        e.message@ == error@,
        !e.retryable,
{
    fail("invalid_argument", error)
}

/// What a failed run reports: the cancellation, the script's own error
/// `detail` marked as a timeout when its time ran out, or `detail` alone.
pub open spec fn failure_text(detail: Seq<char>, cancelled: bool, past_deadline: bool) -> Seq<char> {
    if cancelled {
        "Request cancelled. JavaScript state has been reset."@
    } else if past_deadline {
        detail + ". JavaScript state has been reset after timeout."@
    } else {
        detail
    }
}

/// The message of a failed run.
pub fn failure_message(detail: String, cancelled: bool, past_deadline: bool) -> (m: String)
    ensures
        m@ == failure_text(detail@, cancelled, past_deadline),
{
    if cancelled {
        String::from_str("Request cancelled. JavaScript state has been reset.")
    } else if past_deadline {
        let mut m = detail;
        m.append(". JavaScript state has been reset after timeout.");
        m
    } else {
        detail
    }
}

/// Whether a run leaves its script state behind to be thrown away: after a
/// cancellation, or after a failure once its time ran out.
pub fn discard_state(cancelled: bool, failed: bool, past_deadline: bool) -> (b: bool)
    ensures
        b == (cancelled || (failed && past_deadline)),
{
    cancelled || (failed && past_deadline)
}

} // verus!
