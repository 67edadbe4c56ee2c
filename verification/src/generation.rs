//! Bookkeeping of the greedy decode loop that follows a multimodal prompt:
//! which logits to sample, when to stop, at which position each sampled
//! token is fed back, and the text gathered so far.

use vstd::prelude::*;
use crate::text::{trim, trimmed};

verus! {

broadcast use Seq::lemma_flatten_push;

/// The state of one greedy decode.
pub struct Generation {
    n_past: i32,
    limit: usize,
    produced: usize,
    finished: bool,
    text: String,
    pieces: Ghost<Seq<Seq<char>>>,
}

/// A decode as values: the position after the prompt, the most tokens to
/// produce, the text piece of each token produced, and whether the end of
/// sequence was sampled.
pub struct GenerationView {
    pub n_past: int,
    pub limit: nat,
    pub pieces: Seq<Seq<char>>,
    pub finished: bool,
}

impl View for Generation {
    type V = GenerationView;

    closed spec fn view(&self) -> GenerationView {
        GenerationView {
            n_past: self.n_past as int,
            limit: self.limit as nat,
            pieces: self.pieces@,
            finished: self.finished,
        }
    }
}

/// Which logits the next sample reads, or `None` once the decode is over:
/// the last logits of the prompt (`-1`) first, then those of the single
/// token just fed back (`0`).
pub open spec fn next_sample_index(g: GenerationView) -> Option<int> {
    if g.finished || g.pieces.len() >= g.limit {
        None
    } else if g.pieces.len() == 0 {
        Some(-1)
    } else {
        Some(0)
    }
}

impl Generation {
    pub closed spec fn well_formed(&self) -> bool {
        &&& self.produced == self.pieces@.len()
        &&& self.produced <= self.limit
        &&& self.n_past + self.limit <= i32::MAX
        &&& self.limit <= i32::MAX
        &&& self.text@ == self.pieces@.flatten()
    }

    /// A decode that starts after `n_past` prompt positions and produces at
    /// most `limit` tokens.
    pub fn new(n_past: i32, limit: usize) -> (g: Generation)
        requires
            n_past + limit <= i32::MAX,
            limit <= i32::MAX,
        ensures
            g.well_formed(),
            g@ == (GenerationView {
                n_past: n_past as int,
                limit: limit as nat,
                pieces: Seq::empty(),
                finished: false,
            }),
    {
        Generation {
            n_past,
            limit,
            produced: 0,
            finished: false,
            text: String::new(),
            pieces: Ghost(Seq::empty()),
        }
    }

    /// Which logits to sample next, or `None` once the decode is over.
    pub fn next_sample(&self) -> (index: Option<i32>)
        requires
            self.well_formed(),
        ensures
            match index {
                Some(i) => next_sample_index(self@) == Some(i as int),
                None => next_sample_index(self@) is None,
            },
    {
        if self.finished || self.produced >= self.limit {
            None
        } else if self.produced == 0 {
            Some(-1)
        } else {
            Some(0)
        }
    }

    /// The end of sequence was sampled: the decode is over.
    pub fn stop(&mut self)
        requires
            old(self).well_formed(),
        ensures
            final(self).well_formed(),
            final(self)@ == (GenerationView { finished: true, ..old(self)@ }),
    {
        self.finished = true;
    }

    /// Records the text of the token just sampled and returns the position
    /// at which that token is fed back.
    pub fn push_piece(&mut self, piece: &str) -> (position: i32)
        requires
            old(self).well_formed(),
            next_sample_index(old(self)@) is Some,
        ensures
            final(self).well_formed(),
            final(self)@ == (GenerationView {
                pieces: old(self)@.pieces.push(piece@),
                ..old(self)@
            }),
            position == old(self)@.n_past + old(self)@.pieces.len(),
    {
        let position = self.n_past + self.produced as i32;
        self.text.append(piece);
        self.produced = self.produced + 1;
        self.pieces = Ghost(self.pieces@.push(piece@));
        position
    }

    /// The text produced so far.
    pub fn text(&self) -> (text: &str)
        requires
            self.well_formed(),
        ensures
            text@ == self@.pieces.flatten(),
    {
        self.text.as_str()
    }

    /// The reply: the text produced, trimmed.
    pub fn reply(&self) -> (reply: String)
        requires
            self.well_formed(),
        ensures
            reply@ == trimmed(self@.pieces.flatten()),
    {
        trim(self.text.as_str()).to_owned()
    }

    /// How many tokens were produced.
    pub fn produced(&self) -> (n: usize)
        requires
            self.well_formed(),
        ensures
            n == self@.pieces.len(),
    {
        self.produced
    }
}

/// A decode never holds more pieces than its limit, and every position it
/// hands out fits in an `i32`.
pub proof fn lemma_generation_bounded(g: &Generation)
    requires
        g.well_formed(),
    ensures
        g@.pieces.len() <= g@.limit,
        g@.n_past + g@.limit <= i32::MAX,
{
}

/// A decode samples the prompt's last logits first and the logits of the
/// token just fed back after that; it samples nothing once the end of
/// sequence was seen or the limit is reached, and goes on while neither
/// holds.
pub proof fn lemma_sample_order(g: GenerationView)
    ensures
        (!g.finished && g.pieces.len() == 0 && g.limit > 0) ==> next_sample_index(g) == Some(-1int),
        (!g.finished && 0 < g.pieces.len() < g.limit) ==> next_sample_index(g) == Some(0int),
        g.finished ==> next_sample_index(g) is None,
        g.pieces.len() >= g.limit ==> next_sample_index(g) is None,
{
}

} // verus!
