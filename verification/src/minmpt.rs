//! Session/context controller for the native inference engine.
//!
//! The engine exposes an append-only evaluation cache: every evaluated token
//! advances the committed-context length `n_past`, bounded by the capacity
//! `n_ctx`; `rewind` retreats `n_past` without recomputation and `reset_ctx`
//! clears it.  This module tracks that committed context precisely, so that
//! the generation loops can reason about exactly which tokens stand in the
//! engine's cache at every point.  The forward pass itself (weights, scores)
//! is the engine's own work and is out of scope here; the adapter that owns
//! the native handle mirrors every state change made through this controller.

use vstd::prelude::*;

verus! {

/// Status code the native engine reports on success.
pub const MINMPT_OK: i32 = 0;
/// Status code for an internal engine fault (for example a failed weight load).
pub const MINMPT_FAILURE: i32 = 1;
/// Status code for a malformed request (for example an empty evaluation).
pub const MINMPT_INVALID: i32 = 2;
/// Status code for a request that would exceed the context capacity.
pub const MINMPT_CTX_LIMIT: i32 = 3;

/// Errors surfaced from the engine boundary.
#[derive(Clone, Copy, Debug, PartialEq, Eq, Structural)]
pub enum MinMPTError {
    /// Further evaluation would exceed the context capacity; recoverable by
    /// rewinding or resetting.
    ContextLimit,
    /// An empty or malformed evaluation request; a caller bug, never retried.
    InvalidInput,
    /// An internal engine fault; fatal to the current session.
    Failure,
    /// An unrecognized status code; treated as fatal.
    Unknown,
}

/// The error that a given native status code denotes.
pub open spec fn error_of_code(code: i32) -> MinMPTError {
    if code == MINMPT_FAILURE {
        MinMPTError::Failure
    } else if code == MINMPT_INVALID {
        MinMPTError::InvalidInput
    } else if code == MINMPT_CTX_LIMIT {
        MinMPTError::ContextLimit
    } else {
        MinMPTError::Unknown
    }
}

impl MinMPTError {
    /// Maps a native status code to the error it denotes.
    pub fn from_code(code: i32) -> (e: Self)
        ensures
            e == error_of_code(code),
    {
        if code == MINMPT_FAILURE {
            Self::Failure
        } else if code == MINMPT_INVALID {
            Self::InvalidInput
        } else if code == MINMPT_CTX_LIMIT {
            Self::ContextLimit
        } else {
            Self::Unknown
        }
    }

    /// A short description of the error, for the operator-facing layer.
    pub fn message(&self) -> (m: String)
        ensures
            self is ContextLimit ==> m@ == "Exceeded model context size"@,
            self is InvalidInput ==> m@ == "Invalid input"@,
            self is Failure ==> m@ == "Internal failure"@,
            self is Unknown ==> m@ == "Unknown error"@,
    {
        match self {
            Self::ContextLimit => String::from_str("Exceeded model context size"),
            Self::InvalidInput => String::from_str("Invalid input"),
            Self::Failure => String::from_str("Internal failure"),
            Self::Unknown => String::from_str("Unknown error"),
        }
    }
}

/// Options for loading a model: an optional context-length override and an
/// optional thread-count hint.
#[derive(Clone, Copy, Debug)]
pub struct MinMPTOptions {
    pub n_ctx_override: Option<usize>,
    pub n_threads: Option<u32>,
}

impl Default for MinMPTOptions {
    /// The default options: no override, no thread hint.
    fn default() -> (r: Self)
        ensures
            r.n_ctx_override is None,
            r.n_threads is None,
    {
        MinMPTOptions { n_ctx_override: None, n_threads: None }
    }
}

impl MinMPTOptions {
    /// Requests the given context length instead of the model's native one.
    /// An override of 0 is the engine's convention for "no override".
    pub fn override_n_ctx(self, n_ctx: usize) -> (r: Self)
        ensures
            r.n_ctx_override == Some(n_ctx),
            r.n_threads == self.n_threads,
    {
        Self { n_ctx_override: Some(n_ctx), ..self }
    }

    /// Requests the given number of engine worker threads.
    pub fn n_threads(self, n_threads: u32) -> (r: Self)
        ensures
            r.n_threads == Some(n_threads),
            r.n_ctx_override == self.n_ctx_override,
    {
        Self { n_threads: Some(n_threads), ..self }
    }
}

/// What the engine reports about a loaded model: its native context capacity
/// and its vocabulary size.
#[derive(Clone, Copy, Debug)]
pub struct ModelInfo {
    pub n_ctx: usize,
    pub n_vocab: usize,
}

/// One engine session: a committed token context bounded by a capacity, with
/// a vocabulary size and a thread-count hint.
///
/// The committed context is the exact, ordered sequence of tokens evaluated
/// and not yet rewound; `n_past` is its length.
pub struct MinMPT {
    committed: Vec<u32>,
    capacity: usize,
    vocab: usize,
    threads: Option<u32>,
}

impl MinMPT {
    /// The tokens standing in the session's committed context, oldest first.
    pub closed spec fn committed(&self) -> Seq<u32> {
        self.committed@
    }

    /// The context capacity the session was loaded with.
    pub closed spec fn capacity(&self) -> usize {
        self.capacity
    }

    /// The vocabulary size the session was loaded with.
    pub closed spec fn vocab(&self) -> usize {
        self.vocab
    }

    /// The thread-count hint in force, if any.
    pub closed spec fn threads(&self) -> Option<u32> {
        self.threads
    }

    /// A session never holds more committed tokens than its capacity.
    pub closed spec fn wf(&self) -> bool {
        self.committed@.len() <= self.capacity
    }

    /// Opens a session over a freshly loaded model.  The weight file itself
    /// is read by the engine adapter, which reports the model's native
    /// figures as `info`; a context-length override in `load_options` (other
    /// than the reserved value 0) replaces the native capacity, and a thread
    /// hint is put in force.  The session starts with an empty committed
    /// context.
    pub fn load_model(info: ModelInfo, load_options: Option<MinMPTOptions>) -> (r: Result<
        MinMPT,
        MinMPTError,
    >)
        ensures
            r is Ok,
            ({
                let s = r->Ok_0;
                &&& s.wf()
                &&& s.committed() == Seq::<u32>::empty()
                &&& s.vocab() == info.n_vocab
                &&& (match load_options {
                    Some(o) => {
                        &&& s.capacity() == (match o.n_ctx_override {
                            Some(n) => if n == 0 { info.n_ctx } else { n },
                            None => info.n_ctx,
                        })
                        &&& s.threads() == o.n_threads
                    },
                    None => s.capacity() == info.n_ctx && s.threads() is None,
                })
            }),
    {
        let opts = match load_options {
            Some(o) => o,
            None => MinMPTOptions { n_ctx_override: None, n_threads: None },
        };
        let capacity = match opts.n_ctx_override {
            Some(n) => if n == 0 { info.n_ctx } else { n },
            None => info.n_ctx,
        };
        Ok(MinMPT { committed: Vec::new(), capacity, vocab: info.n_vocab, threads: opts.n_threads })
    }

    /// Creates a second session over the same immutable weight data with its
    /// own, independently rewindable and resettable cache.  The fork starts
    /// from the parent's committed context and the two sessions never alias
    /// cache state afterwards: the parent is untouched by anything done to
    /// the fork, and vice versa.
    pub fn fork(&self) -> (child: MinMPT)
        ensures
            child.committed() == self.committed(),
            child.capacity() == self.capacity(),
            child.vocab() == self.vocab(),
            child.threads() == self.threads(),
            self.wf() ==> child.wf(),
    {
        MinMPT {
            committed: self.committed.clone(),
            capacity: self.capacity,
            vocab: self.vocab,
            threads: self.threads,
        }
    }

    /// Puts a new thread-count hint in force.
    pub fn set_n_threads(&mut self, n_threads: u32)
        ensures
            final(self).threads() == Some(n_threads),
            final(self).committed() == old(self).committed(),
            final(self).capacity() == old(self).capacity(),
            final(self).vocab() == old(self).vocab(),
            final(self).wf() == old(self).wf(),
    {
        self.threads = Some(n_threads);
    }

    /// The vocabulary size: one score per vocabulary entry in every
    /// evaluation result.
    pub fn n_vocab(&self) -> (n: usize)
        ensures
            n == self.vocab(),
    {
        self.vocab
    }

    /// The committed-context length.
    pub fn n_past(&self) -> (n: usize)
        ensures
            n == self.committed().len(),
    {
        self.committed.len()
    }

    /// The context capacity.
    pub fn n_ctx(&self) -> (n: usize)
        ensures
            n == self.capacity(),
    {
        self.capacity
    }

    /// Appends `ids` to the committed context.  An empty request is rejected
    /// as `InvalidInput`, and one that would exceed the capacity as
    /// `ContextLimit`; in both cases the session is unchanged.  On success
    /// the committed context is exactly the old one followed by `ids`, and
    /// the engine's answering score vector (one value per vocabulary entry)
    /// is the adapter's to hand on.
    pub fn eval(&mut self, ids: &Vec<u32>) -> (r: Result<(), MinMPTError>)
        requires
            old(self).wf(),
        ensures
            final(self).wf(),
            final(self).capacity() == old(self).capacity(),
            final(self).vocab() == old(self).vocab(),
            final(self).threads() == old(self).threads(),
            ids@.len() == 0 ==> r == Result::<(), MinMPTError>::Err(MinMPTError::InvalidInput),
            ids@.len() > 0 && old(self).committed().len() + ids@.len() > old(self).capacity()
                ==> r == Result::<(), MinMPTError>::Err(MinMPTError::ContextLimit),
            ids@.len() > 0 && old(self).committed().len() + ids@.len() <= old(self).capacity()
                ==> r is Ok,
            r is Ok ==> final(self).committed() == old(self).committed() + ids@,
            r is Err ==> final(self).committed() == old(self).committed(),
    {
        if ids.len() == 0 {
            return Err(MinMPTError::InvalidInput);
        }
        if ids.len() > self.capacity - self.committed.len() {
            return Err(MinMPTError::ContextLimit);
        }
        self.committed.extend_from_slice(ids.as_slice());
        Ok(())
    }

    /// Removes the last `n` committed tokens from the context without
    /// re-evaluation.  Rewinding by 0 is a no-op; rewinding more tokens than
    /// are committed is rejected as `InvalidInput` and leaves the session
    /// unchanged.
    pub fn rewind(&mut self, n: usize) -> (r: Result<(), MinMPTError>)
        ensures
            final(self).capacity() == old(self).capacity(),
            final(self).vocab() == old(self).vocab(),
            final(self).threads() == old(self).threads(),
            old(self).wf() ==> final(self).wf(),
            n <= old(self).committed().len() ==> r is Ok && final(self).committed()
                == old(self).committed().take(old(self).committed().len() - n),
            n > old(self).committed().len() ==> r == Result::<(), MinMPTError>::Err(
                MinMPTError::InvalidInput,
            ) && final(self).committed() == old(self).committed(),
    {
        if n > self.committed.len() {
            return Err(MinMPTError::InvalidInput);
        }
        let new_len = self.committed.len() - n;
        self.committed.truncate(new_len);
        Ok(())
    }

    /// Clears all committed context back to empty, independently of any
    /// forked sibling.
    pub fn reset_ctx(&mut self)
        ensures
            final(self).committed() == Seq::<u32>::empty(),
            final(self).capacity() == old(self).capacity(),
            final(self).vocab() == old(self).vocab(),
            final(self).threads() == old(self).threads(),
            final(self).wf(),
    {
        self.committed.clear();
    }
}

/// Rewind is the exact inverse of evaluation with respect to the committed
/// context: after evaluations appending `appended` on top of `history`,
/// rewinding by `appended.len()` restores `history` exactly.
pub proof fn lemma_rewind_inverts_eval(history: Seq<u32>, appended: Seq<u32>)
    ensures
        (history + appended).take(history.len() as int) == history,
{
    assert((history + appended).take(history.len() as int) =~= history);
}

/// Rewinding by 0 is a no-op on the committed context.
pub proof fn lemma_rewind_zero(history: Seq<u32>)
    ensures
        history.take(history.len() as int) == history,
{
    assert(history.take(history.len() as int) =~= history);
}

} // verus!
