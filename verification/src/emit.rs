//! Streaming emission of incrementally decoded text.
//!
//! Decoding an in-progress token buffer may end in replacement characters
//! where the last token stops mid-way through a multi-byte sequence; those
//! must be stripped before computing the emittable suffix and re-attempted on
//! the next token.  The tracker remembers how much of the decoded text has
//! already been emitted and hands out only the new suffix each step.

use vstd::prelude::*;

verus! {

/// `s` with every trailing replacement character (U+FFFD) removed.
pub open spec fn strip_trailing_replacement(s: Seq<char>) -> Seq<char>
    decreases s.len(),
{
    if s.len() > 0 && s.last() == '\u{FFFD}' {
        strip_trailing_replacement(s.drop_last())
    } else {
        s
    }
}

/// How one emission step relates the decode of the in-progress text to
/// what is handed out: after stripping trailing replacement characters, the
/// suffix past what was already emitted goes out and the emitted count
/// advances to the stripped length; decoded text shorter than what was
/// already emitted emits nothing and advances nothing.
pub open spec fn emit_step_rel(
    decoded: Seq<char>,
    emitted_before: usize,
    out: Seq<char>,
    emitted_after: usize,
) -> bool {
    let s = strip_trailing_replacement(decoded);
    if s.len() >= emitted_before {
        out == s.skip(emitted_before as int) && emitted_after == s.len()
    } else {
        out.len() == 0 && emitted_after == emitted_before
    }
}

/// Some decode of the in-progress text relates what was already emitted,
/// what goes out and where the emitted count lands, as one emission step.
pub open spec fn emit_step_possible(
    emitted_before: usize,
    out: Seq<char>,
    emitted_after: usize,
) -> bool {
    exists|d: Seq<char>| #[trigger] emit_step_rel(d, emitted_before, out, emitted_after)
}

/// Tracks how much decoded text has been emitted within the current turn.
pub struct EmitTracker {
    emitted: usize,
}

impl EmitTracker {
    /// The number of characters already emitted this turn.
    pub closed spec fn emitted(&self) -> usize {
        self.emitted
    }

    /// A tracker with nothing emitted yet.
    pub fn new() -> (t: EmitTracker)
        ensures
            t.emitted() == 0,
    {
        EmitTracker { emitted: 0 }
    }

    /// Starts a fresh turn: nothing of the new turn's text is emitted yet.
    pub fn reset(&mut self)
        ensures
            final(self).emitted() == 0,
    {
        self.emitted = 0;
    }

    /// Given the full decode of the in-progress turn, returns exactly the
    /// text that has not been emitted before, with trailing replacement
    /// characters held back for the next attempt.  If stripping leaves less
    /// text than was already emitted, nothing is emitted and nothing
    /// advances.
    pub fn emit_window(&mut self, decoded: &Vec<char>) -> (out: Vec<char>)
        ensures
            ({
                let s = strip_trailing_replacement(decoded@);
                if s.len() >= old(self).emitted() {
                    &&& out@ == s.skip(old(self).emitted() as int)
                    &&& final(self).emitted() == s.len()
                } else {
                    &&& out@.len() == 0
                    &&& final(self).emitted() == old(self).emitted()
                }
            }),
    {
        let ghost s = strip_trailing_replacement(decoded@);
        let mut end: usize = decoded.len();
        proof {
            assert(decoded@.take(end as int) =~= decoded@);
        }
        while end > 0 && decoded[end - 1] == '\u{FFFD}'
            invariant
                end <= decoded@.len(),
                strip_trailing_replacement(decoded@.take(end as int)) == s,
            decreases end,
        {
            proof {
                assert(decoded@.take(end as int).last() == '\u{FFFD}');
                assert(decoded@.take(end as int).drop_last() =~= decoded@.take(end - 1));
            }
            end = end - 1;
        }
        proof {
            assert(decoded@.take(end as int) == s);
        }
        if end < self.emitted {
            return Vec::new();
        }
        let mut out: Vec<char> = Vec::new();
        let mut i: usize = self.emitted;
        while i < end
            invariant
                self.emitted <= i <= end <= decoded@.len(),
                out@ == decoded@.subrange(self.emitted as int, i as int),
            decreases end - i,
        {
            out.push(decoded[i]);
            proof {
                assert(out@ =~= decoded@.subrange(self.emitted as int, i + 1));
            }
            i = i + 1;
        }
        proof {
            assert(out@ =~= s.skip(self.emitted as int));
        }
        self.emitted = end;
        out
    }
}

} // verus!
