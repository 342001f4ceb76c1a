use vstd::prelude::*;

verus! {

/// The highest mastery level a word can reach.
pub const MAX_KNOWLEDGE: i32 = 4;

/// A word of the source language, its translation, and how well it is known
/// (0 = new, 4 = mastered).
pub struct Word {
    pub word: String,
    pub translation: String,
    pub knowledge: i32,
}

impl Word {
    /// A word that is still being learned: mastery 0 to 3.
    pub open spec fn is_learning(self) -> bool {
        0 <= self.knowledge <= 3
    }

    /// A word that is fully known: mastery 4.
    pub open spec fn is_mastered(self) -> bool {
        self.knowledge == MAX_KNOWLEDGE
    }

    /// A word as first added: mastery 0.
    pub fn new(word: String, translation: String) -> (r: Word)
        ensures
            r.word == word,
            r.translation == translation,
            r.knowledge == 0,
    {
        Word { word, translation, knowledge: 0 }
    }

    pub fn learning(&self) -> (r: bool)
        ensures
            r == self.is_learning(),
    {
        0 <= self.knowledge && self.knowledge <= 3
    }

    pub fn mastered(&self) -> (r: bool)
        ensures
            r == self.is_mastered(),
    {
        self.knowledge == MAX_KNOWLEDGE
    }
}

/// `s` is a reordering of `t`.
pub open spec fn is_reordering(s: Seq<Word>, t: Seq<Word>) -> bool {
    s.to_multiset() == t.to_multiset()
}

impl Clone for Word {
    fn clone(&self) -> (r: Self)
        ensures
            r == *self,
    {
        Word { word: self.word.clone(), translation: self.translation.clone(), knowledge: self.knowledge }
    }
}

} // verus!
