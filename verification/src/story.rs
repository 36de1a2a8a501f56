//! The story-writer generation loop: one narrative, extended in rounds.
//!
//! The whole story lives as one token sequence; the session's committed
//! context is always a prefix of it, and catching up evaluates the pending
//! suffix in batches.  A generation round appends sampled tokens up to a
//! budget, an end-of-sequence token or a cancellation.  The source text may
//! be edited externally and resynchronized: the session rewinds to just
//! before the longest common token prefix and replays only the divergent
//! suffix.  The most recent generated block can be rejected wholesale.

use vstd::prelude::*;
use crate::emit::{EmitTracker, emit_step_possible, emit_step_rel, strip_trailing_replacement};
use crate::minmpt::{MinMPT, MinMPTError};

verus! {

/// What one generated token did to the round.
#[derive(Clone, Copy, Debug, PartialEq, Eq, Structural)]
pub enum StoryStep {
    /// The token joined the story and was committed; its newly decodable
    /// text should be emitted and the next token sampled.
    Emit,
    /// The token was the end-of-sequence id: the round is over and the token
    /// is neither kept, nor committed, nor emitted.
    FinishedEos,
    /// The token reached the generation budget: it joined the story but its
    /// evaluation is left pending for the next catch-up.
    FinishedBudget,
}

/// The length of the longest common prefix of `a` and `b`.
pub open spec fn common_prefix(a: Seq<u32>, b: Seq<u32>) -> int
    decreases a.len(),
{
    if a.len() == 0 || b.len() == 0 || a[0] != b[0] {
        0
    } else {
        1 + common_prefix(a.drop_first(), b.drop_first())
    }
}

/// The resynchronization target: one less than the common prefix length
/// (the token after the prefix must be re-derived, its score vector never
/// having been cached), floored at zero.
pub open spec fn resync_keep(cpl: int) -> int {
    if cpl == 0 {
        0
    } else {
        cpl - 1
    }
}

proof fn lemma_common_prefix_step(a: Seq<u32>, b: Seq<u32>, i: int)
    requires
        0 <= i < a.len(),
        i < b.len(),
        forall|j: int| 0 <= j < i ==> a[j] == b[j],
    ensures
        a[i] == b[i] ==> common_prefix(a.skip(i), b.skip(i)) == 1 + common_prefix(
            a.skip(i + 1),
            b.skip(i + 1),
        ),
        a[i] != b[i] ==> common_prefix(a.skip(i), b.skip(i)) == 0,
    decreases a.len() - i,
{
    assert(a.skip(i)[0] == a[i]);
    assert(b.skip(i)[0] == b[i]);
    if a[i] == b[i] {
        assert(a.skip(i).drop_first() =~= a.skip(i + 1));
        assert(b.skip(i).drop_first() =~= b.skip(i + 1));
    }
}

/// The length of the longest common prefix of two token sequences.
pub fn common_prefix_len(a: &Vec<u32>, b: &Vec<u32>) -> (n: usize)
    ensures
        n == common_prefix(a@, b@),
        n <= a@.len() && n <= b@.len(),
        forall|j: int| 0 <= j < n ==> a@[j] == b@[j],
{
    let mut i: usize = 0;
    proof {
        assert(a@.skip(0) =~= a@);
        assert(b@.skip(0) =~= b@);
    }
    loop
        invariant
            i <= a@.len(),
            i <= b@.len(),
            forall|j: int| 0 <= j < i ==> a@[j] == b@[j],
            common_prefix(a@, b@) == i + common_prefix(a@.skip(i as int), b@.skip(i as int)),
        decreases a@.len() - i,
    {
        if i >= a.len() || i >= b.len() {
            proof {
                assert(common_prefix(a@.skip(i as int), b@.skip(i as int)) == 0);
            }
            return i;
        }
        if a[i] != b[i] {
            proof {
                lemma_common_prefix_step(a@, b@, i as int);
            }
            return i;
        }
        proof {
            lemma_common_prefix_step(a@, b@, i as int);
        }
        i = i + 1;
    }
}

/// The token sequence a story's source text stands for: its encoding under
/// the loaded vocabulary, or, for empty text, the single end-of-sequence
/// token the vocabulary names `<|endoftext|>`.  `None` when the tokenizer
/// fails or lacks that name.
pub fn story_source_tokens(tok: &tokenizers::Tokenizer, text: &str) -> (r: Option<Vec<u32>>)
    ensures
        text@.len() == 0 ==> (r matches Some(v) ==> v@.len() == 1),
{
    if text.is_empty() {
        match crate::tokenize::lookup_token(tok, "<|endoftext|>") {
            Some(eos) => {
                let mut v: Vec<u32> = Vec::new();
                v.push(eos);
                Some(v)
            },
            None => None,
        }
    } else {
        crate::tokenize::encode_text(tok, text, false)
    }
}

/// One story-writing session: the narrative's token sequence, the engine
/// session whose committed context is always a prefix of it, and the state
/// of the current generation round.
pub struct Story {
    session: MinMPT,
    tokens: Vec<u32>,
    gen_len: usize,
    run_len: usize,
    stop_at: usize,
    emit: EmitTracker,
    in_run: bool,
}

impl Story {
    /// The narrative's tokens, oldest first.
    pub closed spec fn tokens(&self) -> Seq<u32> {
        self.tokens@
    }

    /// The session's committed context.
    pub closed spec fn committed(&self) -> Seq<u32> {
        self.session.committed()
    }

    /// The session's context capacity.
    pub closed spec fn capacity(&self) -> usize {
        self.session.capacity()
    }

    /// The length of the most recently finished generated block.
    pub closed spec fn gen_len(&self) -> usize {
        self.gen_len
    }

    /// The length of the in-progress generation run.
    pub closed spec fn run_len(&self) -> usize {
        self.run_len
    }

    /// The story length at which generation pauses.
    pub closed spec fn stop_at(&self) -> usize {
        self.stop_at
    }

    /// Whether a generation round is in progress.
    pub closed spec fn in_run(&self) -> bool {
        self.in_run
    }

    /// How much of the round's decoded text is already emitted.
    pub closed spec fn emitted(&self) -> usize {
        self.emit.emitted()
    }

    /// The controller's invariant: the committed context is exactly the
    /// story's first `n_past` tokens, and the finished and in-progress
    /// generated blocks lie within the story.
    pub closed spec fn wf(&self) -> bool {
        &&& self.session.wf()
        &&& self.session.committed().len() <= self.tokens@.len()
        &&& self.session.committed() == self.tokens@.take(self.session.committed().len() as int)
        &&& self.gen_len <= self.tokens@.len()
        &&& self.run_len <= self.tokens@.len()
        &&& self.in_run ==> self.session.committed() == self.tokens@
    }

    /// Opens a story over a fresh session: the source text's tokens are all
    /// pending, and the first round may generate `n_gen` tokens past them.
    pub fn new(session: MinMPT, story_tokens: Vec<u32>, n_gen: usize) -> (s: Story)
        requires
            session.wf(),
            session.committed().len() == 0,
            story_tokens@.len() + n_gen <= usize::MAX,
        ensures
            s.wf(),
            s.tokens() == story_tokens@,
            s.committed().len() == 0,
            s.capacity() == session.capacity(),
            s.stop_at() == story_tokens@.len() + n_gen,
            s.gen_len() == 0,
            !s.in_run(),
    {
        let stop_at = story_tokens.len() + n_gen;
        let s = Story {
            session,
            tokens: story_tokens,
            gen_len: 0,
            run_len: 0,
            stop_at,
            emit: EmitTracker::new(),
            in_run: false,
        };
        proof {
            assert(s.session.committed() =~= s.tokens@.take(0));
        }
        s
    }

    /// The committed-context length.
    pub fn n_past(&self) -> (n: usize)
        ensures
            n == self.committed().len(),
    {
        self.session.n_past()
    }

    /// The context capacity.
    pub fn n_ctx(&self) -> (n: usize)
        ensures
            n == self.capacity(),
    {
        self.session.n_ctx()
    }

    /// The story length at which generation pauses.
    pub fn budget(&self) -> (n: usize)
        ensures
            n == self.stop_at(),
    {
        self.stop_at
    }

    /// The story's length in tokens.
    pub fn len(&self) -> (n: usize)
        ensures
            n == self.tokens().len(),
    {
        self.tokens.len()
    }

    /// The story's tokens.
    pub fn story_tokens(&self) -> (t: &Vec<u32>)
        ensures
            t@ == self.tokens(),
    {
        &self.tokens
    }

    /// Extends the generation budget: the next rounds stop once the story
    /// holds `n_gen` tokens more than now.
    pub fn more(&mut self, n_gen: usize)
        requires
            old(self).wf(),
            old(self).tokens().len() + n_gen <= usize::MAX,
        ensures
            final(self).wf(),
            final(self).stop_at() == old(self).tokens().len() + n_gen,
            final(self).tokens() == old(self).tokens(),
            final(self).committed() == old(self).committed(),
            final(self).gen_len() == old(self).gen_len(),
            final(self).in_run() == old(self).in_run(),
    {
        self.stop_at = self.tokens.len() + n_gen;
    }

    /// Evaluates the story's pending suffix in batches of `batch_size`
    /// tokens, so that the committed context catches up with the story.
    /// Stops with `ContextLimit` as soon as a batch does not fit, the
    /// context then holding as many whole batches as have room.
    pub fn catch_up(&mut self, batch_size: usize) -> (r: Result<(), MinMPTError>)
        requires
            old(self).wf(),
            batch_size > 0,
        ensures
            final(self).wf(),
            final(self).tokens() == old(self).tokens(),
            final(self).capacity() == old(self).capacity(),
            final(self).gen_len() == old(self).gen_len(),
            final(self).stop_at() == old(self).stop_at(),
            final(self).in_run() == old(self).in_run(),
            r is Ok <==> final(self).committed() == final(self).tokens(),
            r is Err ==> r == Result::<(), MinMPTError>::Err(MinMPTError::ContextLimit)
                && final(self).committed().len() + batch_size > final(self).capacity()
                && final(self).tokens().len() > final(self).capacity(),
    {
        loop
            invariant
                self.wf(),
                batch_size > 0,
                self.tokens@ == old(self).tokens@,
                self.session.capacity() == old(self).capacity(),
                self.gen_len == old(self).gen_len,
                self.stop_at == old(self).stop_at,
                self.in_run == old(self).in_run,
                self.emit == old(self).emit,
                self.in_run ==> self.session.committed() == self.tokens@,
            decreases self.tokens@.len() - self.session.committed().len(),
        {
            let past = self.session.n_past();
            let total = self.tokens.len();
            if past >= total {
                proof {
                    assert(self.session.committed() =~= self.tokens@);
                }
                return Ok(());
            }
            let remaining = total - past;
            let chunk = if batch_size < remaining {
                batch_size
            } else {
                remaining
            };
            let end = past + chunk;
            let mut batch: Vec<u32> = Vec::new();
            let mut j: usize = past;
            while j < end
                invariant
                    past <= j <= end,
                    end <= self.tokens@.len(),
                    batch@ == self.tokens@.subrange(past as int, j as int),
                decreases end - j,
            {
                batch.push(self.tokens[j]);
                proof {
                    assert(batch@ =~= self.tokens@.subrange(past as int, j + 1));
                }
                j = j + 1;
            }
            let res = self.session.eval(&batch);
            match res {
                Ok(()) => {
                    proof {
                        assert(self.session.committed() =~= self.tokens@.take(
                            self.session.committed().len() as int,
                        ));
                    }
                },
                Err(_) => {
                    proof {
                        assert(self.tokens@.len() > self.session.capacity());
                        assert(self.session.committed() != self.tokens@);
                    }
                    return Err(MinMPTError::ContextLimit);
                },
            }
        }
    }

    /// Begins a generation round.  The committed context must have caught up
    /// with the story: the last evaluation's score vector is what the round
    /// samples from.
    pub fn begin_run(&mut self)
        requires
            old(self).wf(),
            !old(self).in_run(),
            old(self).committed() == old(self).tokens(),
        ensures
            final(self).wf(),
            final(self).in_run(),
            final(self).run_len() == 0,
            final(self).emitted() == 0,
            final(self).tokens() == old(self).tokens(),
            final(self).committed() == old(self).committed(),
            final(self).gen_len() == old(self).gen_len(),
            final(self).stop_at() == old(self).stop_at(),
    {
        self.run_len = 0;
        self.emit.reset();
        self.in_run = true;
    }

    /// Accepts one sampled token into the round.  The end-of-sequence id
    /// ends the round, kept out of the story and the context.  Any other
    /// token joins the story; reaching the generation budget ends the round
    /// with the token's evaluation left pending, and otherwise the token is
    /// committed so that the next score vector follows from it alone.  An
    /// evaluation failure ends the round with the token pending.
    pub fn gen_token(&mut self, t: u32) -> (r: Result<StoryStep, MinMPTError>)
        requires
            old(self).wf(),
            old(self).in_run(),
            old(self).tokens().len() < usize::MAX,
            old(self).run_len() < usize::MAX,
        ensures
            final(self).wf(),
            final(self).capacity() == old(self).capacity(),
            final(self).stop_at() == old(self).stop_at(),
            final(self).emitted() == old(self).emitted(),
            t == crate::chat::EOS_TOKEN ==> {
                &&& r == Result::<StoryStep, MinMPTError>::Ok(StoryStep::FinishedEos)
                &&& final(self).tokens() == old(self).tokens()
                &&& final(self).committed() == old(self).committed()
                &&& final(self).gen_len() == old(self).run_len()
                &&& !final(self).in_run()
            },
            t != crate::chat::EOS_TOKEN ==> final(self).tokens() == old(self).tokens().push(t)
                && final(self).run_len() == old(self).run_len() + 1,
            t != crate::chat::EOS_TOKEN && old(self).tokens().len() + 1 >= old(self).stop_at()
                ==> {
                &&& r == Result::<StoryStep, MinMPTError>::Ok(StoryStep::FinishedBudget)
                &&& final(self).committed() == old(self).committed()
                &&& final(self).gen_len() == old(self).run_len() + 1
                &&& !final(self).in_run()
            },
            t != crate::chat::EOS_TOKEN && old(self).tokens().len() + 1 < old(self).stop_at()
                ==> {
                &&& (old(self).tokens().len() + 1 <= old(self).capacity() ==> {
                    &&& r == Result::<StoryStep, MinMPTError>::Ok(StoryStep::Emit)
                    &&& final(self).committed() == old(self).committed() + seq![t]
                    &&& final(self).in_run()
                })
                &&& (old(self).tokens().len() + 1 > old(self).capacity() ==> {
                    &&& r == Result::<StoryStep, MinMPTError>::Err(MinMPTError::ContextLimit)
                    &&& final(self).committed() == old(self).committed()
                    &&& final(self).gen_len() == old(self).run_len() + 1
                    &&& !final(self).in_run()
                })
            },
    {
        if t == crate::chat::EOS_TOKEN {
            self.gen_len = self.run_len;
            self.in_run = false;
            return Ok(StoryStep::FinishedEos);
        }
        self.tokens.push(t);
        self.run_len = self.run_len + 1;
        proof {
            assert(self.session.committed() =~= self.tokens@.take(
                self.session.committed().len() as int,
            ));
        }
        if self.tokens.len() >= self.stop_at {
            self.gen_len = self.run_len;
            self.in_run = false;
            return Ok(StoryStep::FinishedBudget);
        }
        let mut one: Vec<u32> = Vec::new();
        one.push(t);
        match self.session.eval(&one) {
            Ok(()) => {
                proof {
                    assert(self.session.committed() =~= self.tokens@);
                    assert(self.session.committed() =~= self.tokens@.take(
                        self.session.committed().len() as int,
                    ));
                }
                Ok(StoryStep::Emit)
            },
            Err(_) => {
                self.gen_len = self.run_len;
                self.in_run = false;
                proof {
                    assert(self.session.committed() =~= self.tokens@.take(
                        self.session.committed().len() as int,
                    ));
                }
                Err(MinMPTError::ContextLimit)
            },
        }
    }

    /// Ends the round on the operator's cancellation: the story and the
    /// context keep everything already accepted, with no rewind.
    pub fn interrupt_run(&mut self)
        requires
            old(self).wf(),
            old(self).in_run(),
        ensures
            final(self).wf(),
            final(self).tokens() == old(self).tokens(),
            final(self).committed() == old(self).committed(),
            final(self).gen_len() == old(self).run_len(),
            final(self).stop_at() == old(self).stop_at(),
            !final(self).in_run(),
    {
        self.gen_len = self.run_len;
        self.in_run = false;
    }

    /// The current round's tokens: the story's trailing `run_len` entries,
    /// in progress or just finished.
    pub fn run_tokens(&self) -> (r: Vec<u32>)
        requires
            self.wf(),
        ensures
            r@ == self.tokens().skip(self.tokens().len() - self.run_len()),
    {
        let start = self.tokens.len() - self.run_len;
        let mut r: Vec<u32> = Vec::new();
        let mut i: usize = start;
        while i < self.tokens.len()
            invariant
                start <= i <= self.tokens@.len(),
                start == self.tokens@.len() - self.run_len,
                r@ == self.tokens@.subrange(start as int, i as int),
            decreases self.tokens@.len() - i,
        {
            r.push(self.tokens[i]);
            proof {
                assert(r@ =~= self.tokens@.subrange(start as int, i + 1));
            }
            i = i + 1;
        }
        proof {
            assert(r@ =~= self.tokens@.skip(start as int));
        }
        r
    }

    /// Emits the round's newly decodable text: given the decode of the
    /// whole round so far, returns exactly the suffix not yet emitted,
    /// holding trailing replacement characters back for the next token.
    pub fn emit_window(&mut self, decoded: &Vec<char>) -> (out: Vec<char>)
        requires
            old(self).wf(),
        ensures
            final(self).wf(),
            final(self).tokens() == old(self).tokens(),
            final(self).committed() == old(self).committed(),
            final(self).gen_len() == old(self).gen_len(),
            final(self).run_len() == old(self).run_len(),
            final(self).stop_at() == old(self).stop_at(),
            final(self).in_run() == old(self).in_run(),
            ({
                let s = strip_trailing_replacement(decoded@);
                if s.len() >= old(self).emitted() {
                    out@ == s.skip(old(self).emitted() as int) && final(self).emitted() == s.len()
                } else {
                    out@.len() == 0 && final(self).emitted() == old(self).emitted()
                }
            }),
    {
        self.emit.emit_window(decoded)
    }

    /// Decodes the in-progress round through the tokenizer and emits the
    /// newly decodable text, or nothing when decoding fails.
    pub fn emit_step(&mut self, tok: &tokenizers::Tokenizer) -> (r: Option<Vec<char>>)
        requires
            old(self).wf(),
        ensures
            final(self).wf(),
            final(self).tokens() == old(self).tokens(),
            final(self).committed() == old(self).committed(),
            final(self).gen_len() == old(self).gen_len(),
            final(self).run_len() == old(self).run_len(),
            final(self).stop_at() == old(self).stop_at(),
            final(self).in_run() == old(self).in_run(),
            r is None ==> final(self).emitted() == old(self).emitted(),
            r matches Some(out) ==> emit_step_possible(
                old(self).emitted(),
                out@,
                final(self).emitted(),
            ),
    {
        let run = self.run_tokens();
        match crate::tokenize::decode_tokens(tok, &run, false) {
            Some(decoded) => {
                let out = self.emit.emit_window(&decoded);
                proof {
                    assert(emit_step_rel(decoded@, old(self).emitted(), out@, self.emitted()));
                    assert(emit_step_possible(old(self).emitted(), out@, self.emitted()));
                }
                Some(out)
            },
            None => None,
        }
    }

    /// Resynchronizes against externally edited source text: the session
    /// rewinds to just before the longest common token prefix of the new
    /// text and the committed history (the token after the prefix must be
    /// re-derived, its score vector never having been cached), the story
    /// becomes the new text, and the divergent suffix is left pending for
    /// the next catch-up.  Returns how many tokens were rewound.
    pub fn resync(&mut self, new_tokens: Vec<u32>) -> (rw: usize)
        requires
            old(self).wf(),
            !old(self).in_run(),
        ensures
            final(self).wf(),
            final(self).capacity() == old(self).capacity(),
            final(self).stop_at() == old(self).stop_at(),
            final(self).tokens() == new_tokens@,
            final(self).gen_len() == 0,
            final(self).run_len() == 0,
            !final(self).in_run(),
            rw == old(self).committed().len() - resync_keep(
                common_prefix(new_tokens@, old(self).committed()),
            ),
            final(self).committed().len() == resync_keep(
                common_prefix(new_tokens@, old(self).committed()),
            ),
            final(self).committed() == new_tokens@.take(final(self).committed().len() as int),
    {
        let past = self.session.n_past();
        let mut committed_now: Vec<u32> = Vec::new();
        let mut i: usize = 0;
        while i < past
            invariant
                i <= past,
                past == self.session.committed().len(),
                past <= self.tokens@.len(),
                self.session.committed() == self.tokens@.take(past as int),
                committed_now@ == self.session.committed().take(i as int),
            decreases past - i,
        {
            proof {
                assert(self.session.committed()[i as int] == self.tokens@[i as int]);
            }
            committed_now.push(self.tokens[i]);
            proof {
                assert(committed_now@ =~= self.session.committed().take(i + 1));
            }
            i = i + 1;
        }
        proof {
            assert(committed_now@ =~= self.session.committed());
        }
        let cpl = common_prefix_len(&new_tokens, &committed_now);
        let keep = if cpl == 0 {
            0
        } else {
            cpl - 1
        };
        let rw = past - keep;
        let res = self.session.rewind(rw);
        proof {
            assert(res is Ok);
        }
        self.tokens = new_tokens;
        self.gen_len = 0;
        self.run_len = 0;
        proof {
            let k = self.session.committed().len() as int;
            assert(self.session.committed() =~= self.tokens@.take(k));
        }
        rw
    }

    /// `post` is `pre` resynchronized against source text that decoded to
    /// `ids`, the session rewound by `rw`.
    pub open spec fn resynced_with(pre: Story, post: Story, ids: Seq<u32>, rw: usize) -> bool {
        &&& post.tokens() == ids
        &&& post.gen_len() == 0
        &&& rw == pre.committed().len() - resync_keep(common_prefix(ids, pre.committed()))
        &&& post.committed().len() == resync_keep(common_prefix(ids, pre.committed()))
        &&& post.committed() == ids.take(post.committed().len() as int)
    }

    /// Some decode of the source text yields `post` from `pre` with `rw`
    /// tokens rewound.
    pub open spec fn resync_possible(pre: Story, post: Story, rw: usize) -> bool {
        exists|ids: Seq<u32>| #[trigger] Self::resynced_with(pre, post, ids, rw)
    }

    /// Resynchronizes against the re-read source text itself: decodes it to
    /// tokens through the tokenizer (empty text standing for the single
    /// end-of-sequence token) and resynchronizes against them, returning how
    /// many tokens were rewound.  A tokenizer failure is an `InvalidInput`
    /// error detected before any session mutation: everything is then
    /// untouched.  What tokens the text decodes to is the loaded
    /// vocabulary's business; the contract carries them existentially.
    pub fn resync_text(&mut self, tok: &tokenizers::Tokenizer, text: &str) -> (r: Result<
        usize,
        MinMPTError,
    >)
        requires
            old(self).wf(),
            !old(self).in_run(),
        ensures
            final(self).wf(),
            final(self).capacity() == old(self).capacity(),
            final(self).stop_at() == old(self).stop_at(),
            !final(self).in_run(),
            r is Err ==> r == Result::<usize, MinMPTError>::Err(MinMPTError::InvalidInput)
                && final(self).tokens() == old(self).tokens() && final(self).committed() == old(
                self,
            ).committed() && final(self).gen_len() == old(self).gen_len(),
            r matches Ok(rw) ==> Self::resync_possible(*old(self), *final(self), rw),
    {
        match story_source_tokens(tok, text) {
            None => Err(MinMPTError::InvalidInput),
            Some(ids) => {
                let ghost ids_view = ids@;
                let rw = self.resync(ids);
                proof {
                    assert(Self::resynced_with(*old(self), *self, ids_view, rw));
                    assert(Self::resync_possible(*old(self), *self, rw));
                }
                Ok(rw)
            },
        }
    }

    /// Rejects the most recently generated block: removes its tokens from
    /// the story and rewinds the session past every one of them that was
    /// committed, leaving the context as it stood before the block began.
    /// Returns the block's length.
    pub fn reject_last(&mut self) -> (g: usize)
        requires
            old(self).wf(),
            !old(self).in_run(),
        ensures
            final(self).wf(),
            final(self).capacity() == old(self).capacity(),
            final(self).stop_at() == old(self).stop_at(),
            g == old(self).gen_len(),
            final(self).gen_len() == 0,
            final(self).run_len() == 0,
            !final(self).in_run(),
            final(self).tokens() == old(self).tokens().take(
                old(self).tokens().len() - old(self).gen_len(),
            ),
            final(self).committed().len() == (if old(self).committed().len() <= old(
                self,
            ).tokens().len() - old(self).gen_len() {
                old(self).committed().len() as int
            } else {
                old(self).tokens().len() - old(self).gen_len()
            }),
            old(self).committed() == old(self).tokens() ==> final(self).committed().len() == old(
                self,
            ).committed().len() - old(self).gen_len(),
            final(self).committed() == final(self).tokens().take(
                final(self).committed().len() as int,
            ),
    {
        let g = self.gen_len;
        let new_len = self.tokens.len() - g;
        let past = self.session.n_past();
        let rw = if past > new_len {
            past - new_len
        } else {
            0
        };
        let res = self.session.rewind(rw);
        proof {
            assert(res is Ok);
        }
        self.tokens.truncate(new_len);
        self.gen_len = 0;
        self.run_len = 0;
        proof {
            let k = self.session.committed().len() as int;
            assert(old(self).committed().take(k) =~= old(self).tokens@.take(k));
            assert(self.session.committed() =~= self.tokens@.take(k));
        }
        g
    }
}

} // verus!
