use crate::word::Word;
use vstd::prelude::*;

verus! {

/// A word with the given term occurs in `s`.
pub open spec fn has_term(s: Seq<Word>, term: Seq<char>) -> bool {
    exists|i: int| 0 <= i < s.len() && (#[trigger] s[i]).word@ == term
}

/// No two words of `s` share a term.
pub open spec fn terms_unique(s: Seq<Word>) -> bool {
    forall|i: int, j: int| 0 <= i < s.len() && 0 <= j < s.len() && i != j ==> (#[trigger] s[i]).word@ != (#[trigger] s[j]).word@
}

/// An in-memory word store, keyed by term: the words in the order they were
/// added, no two with the same term.
pub struct Vocabulary {
    words: Vec<Word>,
}

impl View for Vocabulary {
    type V = Seq<Word>;

    closed spec fn view(&self) -> Seq<Word> {
        self.words@
    }
}

impl Vocabulary {
    pub open spec fn wf(&self) -> bool {
        terms_unique(self@)
    }

    /// An empty store.
    pub fn new() -> (r: Vocabulary)
        ensures
            r.wf(),
            r@.len() == 0,
    {
        Vocabulary { words: Vec::new() }
    }

    /// Where the word with the given term stands, if any.
    fn find(&self, term: &String) -> (r: Option<usize>)
        requires
            self.wf(),
        ensures
            r is Some <==> has_term(self@, term@),
            r matches Some(i) ==> i < self@.len() && self@[i as int].word@ == term@,
    {
        let mut i: usize = 0;
        while i < self.words.len()
            invariant
                i <= self.words@.len(),
                forall|j: int| 0 <= j < i ==> (#[trigger] self.words@[j]).word@ != term@,
            decreases self.words@.len() - i,
        {
            if self.words[i].word == *term {
                return Some(i);
            }
            i += 1;
        }
        None
    }

    /// Adds a word with mastery 0, unless its term is already stored: then
    /// nothing changes. Returns whether it was added.
    pub fn add(&mut self, word: String, translation: String) -> (r: bool)
        requires
            old(self).wf(),
        ensures
            final(self).wf(),
            r == !has_term(old(self)@, word@),
            r ==> final(self)@ == old(self)@.push(Word { word, translation, knowledge: 0 }),
            !r ==> final(self)@ == old(self)@,
    {
        match self.find(&word) {
            Some(_) => false,
            None => {
                self.words.push(Word::new(word, translation));
                true
            },
        }
    }

    /// Removes the word with the given term. Returns whether there was one.
    pub fn remove(&mut self, term: &String) -> (r: bool)
        requires
            old(self).wf(),
        ensures
            final(self).wf(),
            r == has_term(old(self)@, term@),
            final(self)@.len() == old(self)@.len() - if r { 1int } else { 0int },
            forall|w: Word| #[trigger] final(self)@.contains(w) <==> old(self)@.contains(w) && w.word@ != term@,
    {
        match self.find(term) {
            None => false,
            Some(i) => {
                let ghost before = self.words@;
                self.words.remove(i);
                assert forall|w: Word| #[trigger] self.words@.contains(w) <==> before.contains(w) && w.word@ != term@ by {
                    if before.contains(w) && w.word@ != term@ {
                        let k = choose|k: int| 0 <= k < before.len() && before[k] == w;
                        if k < i {
                            assert(self.words@[k] == w);
                        } else {
                            assert(k != i);
                            assert(self.words@[k - 1] == w);
                        }
                    }
                    if self.words@.contains(w) {
                        let k = choose|k: int| 0 <= k < self.words@.len() && self.words@[k] == w;
                        if k < i {
                            assert(before[k] == w);
                        } else {
                            assert(before[k + 1] == w);
                        }
                    }
                }
                true
            },
        }
    }

    /// Removes every word.
    pub fn clear(&mut self)
        ensures
            final(self).wf(),
            final(self)@.len() == 0,
    {
        self.words = Vec::new();
    }

    /// Sets the mastery of the word with the given term. Returns whether
    /// there was one; the other words do not change.
    pub fn set_knowledge(&mut self, term: &String, knowledge: i32) -> (r: bool)
        requires
            old(self).wf(),
        ensures
            final(self).wf(),
            r == has_term(old(self)@, term@),
            final(self)@.len() == old(self)@.len(),
            forall|i: int|
                0 <= i < old(self)@.len() ==> {
                    &&& (#[trigger] final(self)@[i]).word == old(self)@[i].word
                    &&& final(self)@[i].translation == old(self)@[i].translation
                    &&& final(self)@[i].knowledge == if old(self)@[i].word@ == term@ {
                        knowledge
                    } else {
                        old(self)@[i].knowledge
                    }
                },
    {
        match self.find(term) {
            None => false,
            Some(i) => {
                let w = Word { word: self.words[i].word.clone(), translation: self.words[i].translation.clone(), knowledge };
                self.words.set(i, w);
                true
            },
        }
    }

    /// The stored words, in the order they were added.
    pub fn words(&self) -> (r: &Vec<Word>)
        ensures
            r@ == self@,
    {
        &self.words
    }

    /// How many words are stored.
    pub fn len(&self) -> (r: usize)
        ensures
            r == self@.len(),
    {
        self.words.len()
    }
}

} // verus!
