//! Transcript of committed token sequences, one record per turn.
//!
//! The transcript is append-only except for an explicit reset, which clears
//! it, and the reject-last-generation operation, which drops the most recent
//! generated record.  The generation loops keep the concatenation of all
//! records equal to the token history committed to the primary session.

use vstd::prelude::*;

verus! {

/// One turn's worth of committed tokens, marked input or generated.
#[derive(Debug)]
pub struct Turn {
    pub tokens: Vec<u32>,
    pub is_input: bool,
}

/// The ordered sequence of turn records.
#[derive(Debug)]
pub struct Transcript {
    turns: Vec<Turn>,
}

/// The view of one record: its token sequence and its input marking.
pub open spec fn turn_view(t: Turn) -> (Seq<u32>, bool) {
    (t.tokens@, t.is_input)
}

/// The views of a sequence of records.
pub open spec fn turn_views(turns: Seq<Turn>) -> Seq<(Seq<u32>, bool)> {
    turns.map_values(|t: Turn| turn_view(t))
}

/// The concatenation of the token sequences of `turns`, in order.
pub open spec fn concat_turns(turns: Seq<Turn>) -> Seq<u32>
    decreases turns.len(),
{
    if turns.len() == 0 {
        Seq::empty()
    } else {
        concat_turns(turns.drop_last()) + turns.last().tokens@
    }
}

impl Transcript {
    /// The recorded turns, oldest first.
    pub closed spec fn turns(&self) -> Seq<Turn> {
        self.turns@
    }

    /// The token history the transcript stands for: all records' tokens,
    /// concatenated in order.
    pub open spec fn history(&self) -> Seq<u32> {
        concat_turns(self.turns())
    }

    /// The recorded turns as plain views.
    pub open spec fn records(&self) -> Seq<(Seq<u32>, bool)> {
        turn_views(self.turns())
    }

    /// An empty transcript.
    pub fn new() -> (t: Transcript)
        ensures
            t.turns() == Seq::<Turn>::empty(),
            t.history() == Seq::<u32>::empty(),
            t.records() == Seq::<(Seq<u32>, bool)>::empty(),
    {
        let t = Transcript { turns: Vec::new() };
        proof {
            assert(turn_views(t.turns@) =~= Seq::<(Seq<u32>, bool)>::empty());
        }
        t
    }

    /// The number of recorded turns.
    pub fn len(&self) -> (n: usize)
        ensures
            n == self.turns().len(),
    {
        self.turns.len()
    }

    /// The `i`-th record, oldest first.
    pub fn get(&self, i: usize) -> (t: &Turn)
        requires
            i < self.turns().len(),
        ensures
            *t == self.turns()[i as int],
    {
        &self.turns[i]
    }

    /// Appends a record of evaluated input tokens.
    pub fn push_input(&mut self, tokens: Vec<u32>)
        ensures
            final(self).turns() == old(self).turns().push(
                Turn { tokens, is_input: true },
            ),
            final(self).history() == old(self).history() + tokens@,
            final(self).records() == old(self).records().push((tokens@, true)),
    {
        self.turns.push(Turn { tokens, is_input: true });
        proof {
            assert(self.turns@.drop_last() =~= old(self).turns@);
            assert(turn_views(self.turns@) =~= turn_views(old(self).turns@).push(
                (self.turns@.last().tokens@, true),
            ));
        }
    }

    /// Appends a record of generated tokens.
    pub fn push_generated(&mut self, tokens: Vec<u32>)
        ensures
            final(self).turns() == old(self).turns().push(
                Turn { tokens, is_input: false },
            ),
            final(self).history() == old(self).history() + tokens@,
            final(self).records() == old(self).records().push((tokens@, false)),
    {
        self.turns.push(Turn { tokens, is_input: false });
        proof {
            assert(self.turns@.drop_last() =~= old(self).turns@);
            assert(turn_views(self.turns@) =~= turn_views(old(self).turns@).push(
                (self.turns@.last().tokens@, false),
            ));
        }
    }

    /// Clears the transcript.
    pub fn clear(&mut self)
        ensures
            final(self).turns() == Seq::<Turn>::empty(),
            final(self).history() == Seq::<u32>::empty(),
            final(self).records() == Seq::<(Seq<u32>, bool)>::empty(),
    {
        self.turns.clear();
        proof {
            assert(turn_views(self.turns@) =~= Seq::<(Seq<u32>, bool)>::empty());
        }
    }

    /// Drops the most recent record if it is a generated one, returning the
    /// number of tokens it held (the amount the session must be rewound by).
    /// With no record, or with an input record last, nothing changes.
    pub fn reject_last_generated(&mut self) -> (r: Option<usize>)
        ensures
            ({
                let ts = old(self).turns();
                if ts.len() > 0 && !ts.last().is_input {
                    &&& r is Some
                    &&& r->Some_0 == ts.last().tokens@.len()
                    &&& final(self).turns() == ts.drop_last()
                    &&& final(self).records() == old(self).records().drop_last()
                    &&& old(self).history() == final(self).history() + ts.last().tokens@
                } else {
                    r is None && final(self).turns() == ts
                }
            }),
    {
        let n = self.turns.len();
        if n == 0 {
            return None;
        }
        if self.turns[n - 1].is_input {
            return None;
        }
        let turn = self.turns.remove(n - 1);
        assert(old(self).turns@.drop_last() =~= self.turns@);
        assert(turn_views(self.turns@) =~= turn_views(old(self).turns@).drop_last());
        Some(turn.tokens.len())
    }
}

/// Appending a record and then rejecting it restores the transcript's
/// history exactly: reject-last-generation is the inverse of committing a
/// generated turn.
pub proof fn lemma_reject_inverts_commit(turns: Seq<Turn>, generated: Vec<u32>)
    ensures
        concat_turns(turns.push(Turn { tokens: generated, is_input: false }))
            == concat_turns(turns) + generated@,
        concat_turns(turns.push(Turn { tokens: generated, is_input: false })).take(
            concat_turns(turns).len() as int,
        ) == concat_turns(turns),
{
    let pushed = turns.push(Turn { tokens: generated, is_input: false });
    assert(pushed.drop_last() =~= turns);
    assert(concat_turns(pushed) == concat_turns(turns) + generated@);
    assert(concat_turns(pushed).take(concat_turns(turns).len() as int) =~= concat_turns(
        turns,
    ));
}

} // verus!
