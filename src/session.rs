use crate::composer::{compose, session_drawn, SESSION_SIZE};
use crate::exercise::{next_knowledge, next_knowledge_spec};
use crate::word::Word;
use vstd::prelude::*;

verus! {

/// One training session: the composed words, how many have been exercised,
/// and how many of those were answered right.
pub struct Session {
    words: Vec<Word>,
    position: usize,
    score: usize,
}

pub struct SessionView {
    pub words: Seq<Word>,
    pub position: nat,
    pub score: nat,
}

impl View for Session {
    type V = SessionView;

    closed spec fn view(&self) -> SessionView {
        SessionView { words: self.words@, position: self.position as nat, score: self.score as nat }
    }
}

impl Session {
    /// Ten words; the position never passes the end, nor the score the position.
    #[verifier::type_invariant]
    spec fn inv(&self) -> bool {
        &&& self.words@.len() == SESSION_SIZE
        &&& self.position <= self.words@.len()
        &&& self.score <= self.position
    }

    /// What the invariant says, in terms of the view.
    pub open spec fn wf(&self) -> bool {
        &&& self@.words.len() == SESSION_SIZE
        &&& self@.position <= self@.words.len()
        &&& self@.score <= self@.position
    }

    /// Starts a session on the whole word set. With fewer than ten words it
    /// does not start, and the count comes back as the error.
    pub fn start(all: &Vec<Word>) -> (r: Result<Session, usize>)
        ensures
            r is Err <==> all@.len() < SESSION_SIZE,
            r matches Err(n) ==> n == all@.len(),
            r matches Ok(s) ==> {
                &&& s.wf()
                &&& session_drawn(all@, s@.words)
                &&& s@.position == 0
                &&& s@.score == 0
            },
    {
        match compose(all) {
            Err(n) => Err(n),
            Ok(words) => Ok(Session { words, position: 0, score: 0 }),
        }
    }

    /// The word to exercise next; none once the session is over.
    pub fn current(&self) -> (r: Option<&Word>)
        ensures
            r is Some <==> self@.position < self@.words.len(),
            r matches Some(w) ==> *w == self@.words[self@.position as int],
    {
        proof {
            use_type_invariant(self);
        }
        if self.position < self.words.len() {
            Some(&self.words[self.position])
        } else {
            None
        }
    }

    /// Records the answer to the current word, moves on to the next, and
    /// returns the current word's new mastery, which the store should keep.
    pub fn answer(&mut self, correct: bool) -> (r: i32)
        requires
            old(self)@.position < old(self)@.words.len(),
        ensures
            final(self)@.words == old(self)@.words,
            final(self)@.position == old(self)@.position + 1,
            final(self)@.score == old(self)@.score + if correct { 1nat } else { 0nat },
            r == next_knowledge_spec(old(self)@.words[old(self)@.position as int].knowledge as int, correct),
    {
        proof {
            use_type_invariant(&*self);
        }
        let r = next_knowledge(self.words[self.position].knowledge, correct);
        self.position = self.position + 1;
        if correct {
            self.score = self.score + 1;
        }
        r
    }

    /// Whether every word of the session has been exercised.
    pub fn finished(&self) -> (r: bool)
        ensures
            r == (self@.position == self@.words.len()),
    {
        self.position == self.words.len()
    }

    /// Right answers so far.
    pub fn score(&self) -> (r: usize)
        ensures
            r == self@.score,
            r <= self@.position,
    {
        proof {
            use_type_invariant(self);
        }
        self.score
    }

    /// The best score a session can reach: one per word.
    pub fn max_score(&self) -> (r: usize)
        ensures
            r == self@.words.len(),
            r == SESSION_SIZE,
    {
        proof {
            use_type_invariant(self);
        }
        self.words.len()
    }

    /// The words of the session, in the order they are exercised.
    pub fn words(&self) -> (r: &Vec<Word>)
        ensures
            r@ == self@.words,
    {
        &self.words
    }
}

} // verus!
