//! The chat generation loop: one turn at a time, streaming.
//!
//! A turn begins with the templated prompt evaluated into the primary
//! session (and, when guidance is active, the negative prompt into the
//! negative session) and recorded as an input turn.  Each sampled token is
//! then committed and either ends the turn (the end-of-sequence token, which
//! is not kept in context; or the mode's stop marker, which is) or joins the
//! in-progress response, whose freshly decodable text is emitted
//! incrementally.  Turn completion records the generated tokens, so that the
//! transcript's history always equals the token history committed to the
//! primary session.

use vstd::prelude::*;
use crate::emit::{EmitTracker, emit_step_possible, emit_step_rel, strip_trailing_replacement};
use crate::minmpt::{MinMPT, MinMPTError};
use crate::transcript::Transcript;

verus! {

/// The reserved end-of-sequence token id, common to all modes.
pub const EOS_TOKEN: u32 = 0;

/// What one accepted token did to the turn.
#[derive(Clone, Copy, Debug, PartialEq, Eq, Structural)]
pub enum TokenOutcome {
    /// The token joined the response; its newly decodable text should be
    /// emitted and the next token sampled.
    Emit,
    /// The token was the end-of-sequence id: the turn is over and the token
    /// is neither kept in context, nor recorded, nor emitted.
    FinishedEos,
    /// The token was the mode's stop marker: the turn is over and the token
    /// stays committed and recorded, but is not emitted.
    FinishedStop,
}

/// One chat conversation: a primary session, an optional negative-guidance
/// session evaluated in lockstep, and the transcript of committed turns.
pub struct Chat {
    session: MinMPT,
    negative: Option<MinMPT>,
    transcript: Transcript,
    stop_token: Option<u32>,
    resp: Vec<u32>,
    emit: EmitTracker,
    in_turn: bool,
}

impl Chat {
    /// The primary session's committed context.
    pub closed spec fn committed(&self) -> Seq<u32> {
        self.session.committed()
    }

    /// The negative session's committed context, when guidance is active.
    pub closed spec fn neg_committed(&self) -> Option<Seq<u32>> {
        match self.negative {
            Some(n) => Some(n.committed()),
            None => None,
        }
    }

    /// Whether a negative-guidance session is driven in lockstep.
    pub closed spec fn has_negative(&self) -> bool {
        self.negative is Some
    }

    /// The recorded turns.
    pub closed spec fn turns(&self) -> Seq<crate::transcript::Turn> {
        self.transcript.turns()
    }

    /// The recorded turns as plain views: token sequence and input marking.
    pub closed spec fn records(&self) -> Seq<(Seq<u32>, bool)> {
        self.transcript.records()
    }

    /// The token history the transcript stands for.
    pub open spec fn history(&self) -> Seq<u32> {
        crate::transcript::concat_turns(self.turns())
    }

    /// The in-progress response of the current turn.
    pub closed spec fn response(&self) -> Seq<u32> {
        self.resp@
    }

    /// Whether a turn is in progress.
    pub closed spec fn in_turn(&self) -> bool {
        self.in_turn
    }

    /// The configured stop marker.
    pub closed spec fn stop_token(&self) -> Option<u32> {
        self.stop_token
    }

    /// How much of the current turn's decoded text is already emitted.
    pub closed spec fn emitted(&self) -> usize {
        self.emit.emitted()
    }

    /// The primary session's capacity.
    pub closed spec fn capacity(&self) -> usize {
        self.session.capacity()
    }

    /// The controller's invariant: the sessions are well formed and the
    /// committed history of the primary session is exactly the transcript's
    /// history followed by the in-progress response; outside a turn the
    /// response is empty.
    pub closed spec fn wf(&self) -> bool {
        &&& self.session.wf()
        &&& (match self.negative {
            Some(n) => n.wf(),
            None => true,
        })
        &&& self.session.committed() == self.transcript.history() + self.resp@
        &&& !self.in_turn ==> self.resp@.len() == 0
    }

    /// Starts a conversation over a freshly loaded (and, for guidance, a
    /// freshly forked) pair of sessions.
    pub fn new(session: MinMPT, negative: Option<MinMPT>, stop_token: Option<u32>) -> (c: Chat)
        requires
            session.wf(),
            session.committed().len() == 0,
            (match negative {
                Some(n) => n.wf() && n.committed().len() == 0,
                None => true,
            }),
        ensures
            c.wf(),
            c.committed().len() == 0,
            c.turns().len() == 0,
            c.records() == Seq::<(Seq<u32>, bool)>::empty(),
            !c.in_turn(),
            c.has_negative() == (negative is Some),
            c.stop_token() == stop_token,
            c.capacity() == session.capacity(),
            c.neg_capacity() == (match negative {
                Some(n) => n.capacity(),
                None => session.capacity(),
            }),
            (negative matches Some(n) ==> c.neg_committed() == Some(n.committed())),
            negative is None ==> c.neg_committed() is None,
    {
        let c = Chat {
            session,
            negative,
            transcript: Transcript::new(),
            stop_token,
            resp: Vec::new(),
            emit: EmitTracker::new(),
            in_turn: false,
        };
        proof {
            assert(c.session.committed() =~= c.transcript.history() + c.resp@);
        }
        c
    }

    /// The committed-context length of the primary session.
    pub fn n_past(&self) -> (n: usize)
        ensures
            n == self.committed().len(),
    {
        self.session.n_past()
    }

    /// The context capacity of the primary session.
    pub fn n_ctx(&self) -> (n: usize)
        ensures
            n == self.capacity(),
    {
        self.session.n_ctx()
    }

    /// The number of recorded turns.
    pub fn transcript_len(&self) -> (n: usize)
        ensures
            n == self.turns().len(),
    {
        self.transcript.len()
    }

    /// The `i`-th recorded turn.
    pub fn turn(&self, i: usize) -> (t: &crate::transcript::Turn)
        requires
            i < self.turns().len(),
        ensures
            *t == self.turns()[i as int],
    {
        self.transcript.get(i)
    }

    /// The in-progress response tokens of the current turn.
    pub fn response_tokens(&self) -> (r: &Vec<u32>)
        ensures
            r@ == self.response(),
    {
        &self.resp
    }

    /// Begins a turn: evaluates the templated input into the primary
    /// session and records it, then evaluates the negative input into the
    /// negative session when guidance is active.  A `ContextLimit` error
    /// aborts the turn and leaves the transcript consistent with whatever
    /// was actually evaluated: nothing, if the primary session has no room;
    /// the input turn alone, if only the negative session has none.
    pub fn begin_turn(&mut self, input_ids: Vec<u32>, neg_input_ids: Option<Vec<u32>>) -> (r:
        Result<(), MinMPTError>)
        requires
            old(self).wf(),
            !old(self).in_turn(),
            input_ids@.len() > 0,
            old(self).has_negative() <==> neg_input_ids is Some,
            neg_input_ids matches Some(n) ==> n@.len() > 0,
        ensures
            final(self).wf(),
            final(self).has_negative() == old(self).has_negative(),
            final(self).stop_token() == old(self).stop_token(),
            final(self).capacity() == old(self).capacity(),
            old(self).committed().len() + input_ids@.len() > old(self).capacity() ==> {
                &&& r == Result::<(), MinMPTError>::Err(MinMPTError::ContextLimit)
                &&& final(self).committed() == old(self).committed()
                &&& final(self).records() == old(self).records()
                &&& final(self).neg_committed() == old(self).neg_committed()
                &&& !final(self).in_turn()
            },
            old(self).committed().len() + input_ids@.len() <= old(self).capacity() ==> {
                &&& final(self).committed() == old(self).committed() + input_ids@
                &&& final(self).records() == old(self).records().push((input_ids@, true))
                &&& (match (old(self).neg_committed(), neg_input_ids) {
                    (Some(nc), Some(ids)) => {
                        if nc.len() + ids@.len() <= old(self).neg_capacity() {
                            &&& r is Ok
                            &&& final(self).neg_committed() == Some(nc + ids@)
                            &&& final(self).in_turn()
                            &&& final(self).response().len() == 0
                            &&& final(self).emitted() == 0
                        } else {
                            &&& r == Result::<(), MinMPTError>::Err(MinMPTError::ContextLimit)
                            &&& final(self).neg_committed() == old(self).neg_committed()
                            &&& !final(self).in_turn()
                        }
                    },
                    (None, None) => {
                        &&& r is Ok
                        &&& final(self).neg_committed() is None
                        &&& final(self).in_turn()
                        &&& final(self).response().len() == 0
                        &&& final(self).emitted() == 0
                    },
                    _ => false,
                })
            },
    {
        match self.session.eval(&input_ids) {
            Err(e) => {
                proof {
                    assert(self.session.committed() =~= self.transcript.history() + self.resp@);
                }
                Err(e)
            },
            Ok(()) => {
                self.transcript.push_input(input_ids);
                proof {
                    assert(self.session.committed() =~= self.transcript.history() + self.resp@);
                }
                match (&mut self.negative, neg_input_ids) {
                    (Some(neg), Some(ids)) => {
                        match neg.eval(&ids) {
                            Err(e) => Err(e),
                            Ok(()) => {
                                self.in_turn = true;
                                self.emit.reset();
                                Ok(())
                            },
                        }
                    },
                    _ => {
                        self.in_turn = true;
                        self.emit.reset();
                        Ok(())
                    },
                }
            },
        }
    }

    /// `post` is `pre` with a turn just begun on the encoded input `ids`
    /// (and `nids` for the negative session, where guidance is active):
    /// both sessions extended, the input recorded.
    pub open spec fn begun_with(
        pre: Chat,
        post: Chat,
        ids: Seq<u32>,
        nids: Option<Seq<u32>>,
    ) -> bool {
        &&& ids.len() > 0
        &&& post.committed() == pre.committed() + ids
        &&& post.records() == pre.records().push((ids, true))
        &&& (match (pre.neg_committed(), nids) {
            (Some(nc), Some(nv)) => nv.len() > 0 && post.neg_committed() == Some(nc + nv),
            (None, None) => post.neg_committed() is None,
            _ => false,
        })
    }

    /// Begins a turn from templated prompt text: encodes it (and the
    /// negative prompt, where guidance is active) through the tokenizer and
    /// evaluates and records the encodings.  A tokenizer failure, or an
    /// encoding with no tokens, is an `InvalidInput` error detected before
    /// any evaluation: the sessions and the transcript are then untouched.
    /// What token ids the text encodes to is the loaded vocabulary's
    /// business; the contract carries them existentially.
    pub fn begin_turn_text(
        &mut self,
        tok: &tokenizers::Tokenizer,
        wrapped: &str,
        wrapped_neg: Option<&String>,
    ) -> (r: Result<(), MinMPTError>)
        requires
            old(self).wf(),
            !old(self).in_turn(),
            old(self).has_negative() <==> wrapped_neg is Some,
        ensures
            final(self).wf(),
            final(self).has_negative() == old(self).has_negative(),
            final(self).stop_token() == old(self).stop_token(),
            final(self).capacity() == old(self).capacity(),
            r == Result::<(), MinMPTError>::Err(MinMPTError::InvalidInput) ==> {
                &&& final(self).committed() == old(self).committed()
                &&& final(self).neg_committed() == old(self).neg_committed()
                &&& final(self).records() == old(self).records()
                &&& !final(self).in_turn()
            },
            r is Ok ==> {
                &&& final(self).in_turn()
                &&& final(self).response().len() == 0
                &&& final(self).emitted() == 0
                &&& exists|ids: Seq<u32>, nids: Option<Seq<u32>>|
                    #[trigger] Self::begun_with(*old(self), *final(self), ids, nids)
            },
            r is Err ==> !final(self).in_turn(),
            r matches Err(e) ==> e == MinMPTError::InvalidInput || e == MinMPTError::ContextLimit,
    {
        let input_ids = match crate::tokenize::encode_text(tok, wrapped, true) {
            Some(ids) => ids,
            None => {
                return Err(MinMPTError::InvalidInput);
            },
        };
        if input_ids.len() == 0 {
            return Err(MinMPTError::InvalidInput);
        }
        let neg_input_ids = match wrapped_neg {
            Some(neg_text) => {
                match crate::tokenize::encode_text(tok, neg_text.as_str(), true) {
                    Some(ids) => {
                        if ids.len() == 0 {
                            return Err(MinMPTError::InvalidInput);
                        }
                        Some(ids)
                    },
                    None => {
                        return Err(MinMPTError::InvalidInput);
                    },
                }
            },
            None => None,
        };
        let ghost ids_view = input_ids@;
        let ghost nids_view: Option<Seq<u32>> = match &neg_input_ids {
            Some(v) => Some(v@),
            None => None,
        };
        let res = self.begin_turn(input_ids, neg_input_ids);
        match res {
            Ok(()) => {
                proof {
                    assert(Self::begun_with(*old(self), *self, ids_view, nids_view));
                }
                Ok(())
            },
            Err(e) => Err(e),
        }
    }

    /// The negative session's capacity, when guidance is active (otherwise
    /// the primary's, immaterial).
    pub closed spec fn neg_capacity(&self) -> usize {
        match self.negative {
            Some(n) => n.capacity(),
            None => self.session.capacity(),
        }
    }

    /// Accepts one sampled token.  The end-of-sequence id ends the turn
    /// without being kept in context or recorded; the stop marker ends the
    /// turn committed and recorded; any other token is committed to both
    /// sessions and joins the response.  An evaluation failure aborts the
    /// turn, recording exactly the tokens that were committed.
    pub fn accept_token(&mut self, t: u32) -> (r: Result<TokenOutcome, MinMPTError>)
        requires
            old(self).wf(),
            old(self).in_turn(),
        ensures
            final(self).wf(),
            final(self).has_negative() == old(self).has_negative(),
            final(self).stop_token() == old(self).stop_token(),
            final(self).capacity() == old(self).capacity(),
            final(self).emitted() == old(self).emitted(),
            t == EOS_TOKEN ==> {
                &&& r == Result::<TokenOutcome, MinMPTError>::Ok(TokenOutcome::FinishedEos)
                &&& final(self).committed() == old(self).committed()
                &&& final(self).neg_committed() == old(self).neg_committed()
                &&& final(self).records() == old(self).records().push(
                    (old(self).response(), false),
                )
                &&& !final(self).in_turn()
            },
            t != EOS_TOKEN && old(self).committed().len() + 1 > old(self).capacity() ==> {
                &&& r == Result::<TokenOutcome, MinMPTError>::Err(MinMPTError::ContextLimit)
                &&& final(self).committed() == old(self).committed()
                &&& final(self).neg_committed() == old(self).neg_committed()
                &&& final(self).records() == old(self).records().push(
                    (old(self).response(), false),
                )
                &&& !final(self).in_turn()
            },
            t != EOS_TOKEN && old(self).committed().len() + 1 <= old(self).capacity() ==> {
                &&& final(self).committed() == old(self).committed() + seq![t]
                &&& (match old(self).neg_committed() {
                    Some(nc) => {
                        if nc.len() + 1 <= old(self).neg_capacity() {
                            final(self).neg_committed() == Some(nc + seq![t]) && r is Ok
                        } else {
                            &&& r == Result::<TokenOutcome, MinMPTError>::Err(
                                MinMPTError::ContextLimit,
                            )
                            &&& final(self).neg_committed() == old(self).neg_committed()
                            &&& !final(self).in_turn()
                        }
                    },
                    None => r is Ok && final(self).neg_committed() is None,
                })
                &&& (r is Ok ==> (if old(self).stop_token() == Some(t) {
                    &&& r == Result::<TokenOutcome, MinMPTError>::Ok(TokenOutcome::FinishedStop)
                    &&& final(self).records() == old(self).records().push(
                        (old(self).response().push(t), false),
                    )
                    &&& !final(self).in_turn()
                } else {
                    &&& r == Result::<TokenOutcome, MinMPTError>::Ok(TokenOutcome::Emit)
                    &&& final(self).response() == old(self).response().push(t)
                    &&& final(self).records() == old(self).records()
                    &&& final(self).in_turn()
                }))
                &&& (r is Err ==> final(self).records() == old(self).records().push(
                    (old(self).response().push(t), false),
                ))
            },
    {
        if t == EOS_TOKEN {
            let mut done: Vec<u32> = Vec::new();
            core::mem::swap(&mut self.resp, &mut done);
            self.transcript.push_generated(done);
            self.in_turn = false;
            proof {
                assert(self.session.committed() =~= self.transcript.history() + self.resp@);
            }
            return Ok(TokenOutcome::FinishedEos);
        }
        let mut one: Vec<u32> = Vec::new();
        one.push(t);
        match self.session.eval(&one) {
            Err(e) => {
                let mut done: Vec<u32> = Vec::new();
                core::mem::swap(&mut self.resp, &mut done);
                self.transcript.push_generated(done);
                self.in_turn = false;
                proof {
                    assert(self.session.committed() =~= self.transcript.history() + self.resp@);
                }
                Err(e)
            },
            Ok(()) => {
                let neg_err = match &mut self.negative {
                    Some(neg) => {
                        match neg.eval(&one) {
                            Err(e) => Some(e),
                            Ok(()) => None,
                        }
                    },
                    None => None,
                };
                self.resp.push(t);
                proof {
                    assert(old(self).committed() + seq![t] =~= old(self).committed() + one@);
                    assert(self.session.committed() =~= self.transcript.history() + self.resp@);
                }
                match neg_err {
                    Some(e) => {
                        let mut done: Vec<u32> = Vec::new();
                        core::mem::swap(&mut self.resp, &mut done);
                        self.transcript.push_generated(done);
                        self.in_turn = false;
                        proof {
                            assert(self.session.committed() =~= self.transcript.history()
                                + self.resp@);
                        }
                        Err(e)
                    },
                    None => {
                        let is_stop = match self.stop_token {
                            Some(s) => s == t,
                            None => false,
                        };
                        if is_stop {
                            let mut done: Vec<u32> = Vec::new();
                            core::mem::swap(&mut self.resp, &mut done);
                            self.transcript.push_generated(done);
                            self.in_turn = false;
                            proof {
                                assert(self.session.committed() =~= self.transcript.history()
                                    + self.resp@);
                            }
                            Ok(TokenOutcome::FinishedStop)
                        } else {
                            Ok(TokenOutcome::Emit)
                        }
                    },
                }
            },
        }
    }

    /// Ends the turn on the operator's cancellation: already-committed
    /// tokens stay in place (no rewind) and the response so far is recorded.
    pub fn interrupt_turn(&mut self)
        requires
            old(self).wf(),
            old(self).in_turn(),
        ensures
            final(self).wf(),
            final(self).has_negative() == old(self).has_negative(),
            final(self).stop_token() == old(self).stop_token(),
            final(self).capacity() == old(self).capacity(),
            final(self).committed() == old(self).committed(),
            final(self).neg_committed() == old(self).neg_committed(),
            final(self).records() == old(self).records().push((old(self).response(), false)),
            !final(self).in_turn(),
    {
        let mut done: Vec<u32> = Vec::new();
        core::mem::swap(&mut self.resp, &mut done);
        self.transcript.push_generated(done);
        self.in_turn = false;
        proof {
            assert(self.session.committed() =~= self.transcript.history() + self.resp@);
        }
    }

    /// Emits the turn's newly decodable text: given the decode of the whole
    /// in-progress response, returns exactly the suffix not yet emitted,
    /// holding trailing replacement characters back for the next token.
    pub fn emit_window(&mut self, decoded: &Vec<char>) -> (out: Vec<char>)
        requires
            old(self).wf(),
        ensures
            final(self).wf(),
            final(self).committed() == old(self).committed(),
            final(self).neg_committed() == old(self).neg_committed(),
            final(self).records() == old(self).records(),
            final(self).response() == old(self).response(),
            final(self).in_turn() == old(self).in_turn(),
            final(self).has_negative() == old(self).has_negative(),
            final(self).stop_token() == old(self).stop_token(),
            final(self).capacity() == old(self).capacity(),
            ({
                let s = strip_trailing_replacement(decoded@);
                if s.len() >= old(self).emitted() {
                    out@ == s.skip(old(self).emitted() as int) && final(self).emitted() == s.len()
                } else {
                    out@.len() == 0 && final(self).emitted() == old(self).emitted()
                }
            }),
    {
        self.emit.emit_window(decoded)
    }

    /// Decodes the in-progress response through the tokenizer and emits the
    /// newly decodable text, or nothing when decoding fails.
    pub fn emit_step(&mut self, tok: &tokenizers::Tokenizer) -> (r: Option<Vec<char>>)
        requires
            old(self).wf(),
        ensures
            final(self).wf(),
            final(self).committed() == old(self).committed(),
            final(self).neg_committed() == old(self).neg_committed(),
            final(self).records() == old(self).records(),
            final(self).response() == old(self).response(),
            final(self).in_turn() == old(self).in_turn(),
            final(self).has_negative() == old(self).has_negative(),
            final(self).stop_token() == old(self).stop_token(),
            final(self).capacity() == old(self).capacity(),
            r is None ==> final(self).emitted() == old(self).emitted(),
            r matches Some(out) ==> emit_step_possible(
                old(self).emitted(),
                out@,
                final(self).emitted(),
            ),
    {
        match crate::tokenize::decode_tokens(tok, &self.resp, false) {
            Some(decoded) => {
                let out = self.emit.emit_window(&decoded);
                proof {
                    assert(emit_step_rel(decoded@, old(self).emitted(), out@, self.emitted()));
                    assert(emit_step_possible(old(self).emitted(), out@, self.emitted()));
                }
                Some(out)
            },
            None => None,
        }
    }

    /// Rejects the most recent generated turn: drops it from the transcript
    /// and rewinds the primary session by exactly its length, leaving the
    /// committed context as it stood before that turn began.  With no
    /// generated turn last, nothing changes.
    pub fn reject_last_generation(&mut self) -> (r: Option<usize>)
        requires
            old(self).wf(),
            !old(self).in_turn(),
        ensures
            final(self).wf(),
            !final(self).in_turn(),
            final(self).has_negative() == old(self).has_negative(),
            final(self).stop_token() == old(self).stop_token(),
            final(self).capacity() == old(self).capacity(),
            final(self).neg_committed() == old(self).neg_committed(),
            ({
                let ts = old(self).turns();
                if ts.len() > 0 && !ts.last().is_input {
                    &&& r is Some
                    &&& r->Some_0 == ts.last().tokens@.len()
                    &&& final(self).records() == old(self).records().drop_last()
                    &&& final(self).committed() == old(self).committed().take(
                        old(self).committed().len() - ts.last().tokens@.len(),
                    )
                    &&& final(self).committed() == final(self).history()
                } else {
                    &&& r is None
                    &&& final(self).records() == old(self).records()
                    &&& final(self).committed() == old(self).committed()
                }
            }),
    {
        match self.transcript.reject_last_generated() {
            None => None,
            Some(g) => {
                proof {
                    assert(old(self).transcript.history() + old(self).resp@
                        =~= old(self).transcript.history());
                    assert(old(self).committed().len() == self.transcript.history().len()
                        + g as int);
                }
                let res = self.session.rewind(g);
                proof {
                    assert(res is Ok);
                    assert(self.session.committed() =~= self.transcript.history());
                    assert(self.session.committed() =~= self.transcript.history() + self.resp@);
                }
                Some(g)
            },
        }
    }

    /// Clears the conversation: resets both sessions' contexts and the
    /// transcript.
    pub fn reset(&mut self)
        requires
            old(self).wf(),
        ensures
            final(self).wf(),
            final(self).committed().len() == 0,
            final(self).turns().len() == 0,
            (final(self).neg_committed() matches Some(nc) ==> nc.len() == 0),
            final(self).has_negative() == old(self).has_negative(),
            final(self).stop_token() == old(self).stop_token(),
            final(self).capacity() == old(self).capacity(),
            !final(self).in_turn(),
    {
        self.session.reset_ctx();
        match &mut self.negative {
            Some(neg) => neg.reset_ctx(),
            None => {},
        }
        self.transcript.clear();
        self.resp.clear();
        self.emit.reset();
        self.in_turn = false;
        proof {
            assert(self.session.committed() =~= self.transcript.history() + self.resp@);
        }
    }
}

} // verus!
