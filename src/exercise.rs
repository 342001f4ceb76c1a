use crate::random::shuffle;
use crate::text::{is_usize_text, digits_value, unsigned_digits, parse_usize, trim, trimmed};
use crate::word::{is_reordering, Word, MAX_KNOWLEDGE};
use vstd::prelude::*;

verus! {

broadcast use vstd::seq_lib::group_to_multiset_ensures;

/// Most other words shown as wrong choices in a multiple-choice round.
pub const DISTRACTORS: usize = 3;

/// The kind of exercise a word gets, by how well it is known.
#[derive(PartialEq, Eq, Structural, Clone, Copy, Debug)]
pub enum Exercise {
    /// Shown the word, pick the matching translation out of a numbered list.
    ChooseTranslation,
    /// Shown the translation, pick the word from a list.
    ChooseTerm,
    /// Shown the word, type its translation.
    WriteTranslation,
    /// Shown the translation, type the word.
    WriteTerm,
}

/// The exercise for a mastery level; none outside 0 to 4.
pub open spec fn exercise_spec(knowledge: int) -> Option<Exercise> {
    if knowledge == 0 {
        Some(Exercise::ChooseTranslation)
    } else if knowledge == 1 {
        Some(Exercise::ChooseTerm)
    } else if knowledge == 2 {
        Some(Exercise::WriteTranslation)
    } else if knowledge == 3 || knowledge == 4 {
        Some(Exercise::WriteTerm)
    } else {
        None
    }
}

/// Mastery after one exercise: one up when the answer was right, one down
/// when it was wrong, never above 4 nor below 0.
pub open spec fn next_knowledge_spec(knowledge: int, correct: bool) -> int {
    if correct {
        if knowledge + 1 < MAX_KNOWLEDGE { knowledge + 1 } else { MAX_KNOWLEDGE as int }
    } else {
        if knowledge - 1 > 0 { knowledge - 1 } else { 0 }
    }
}

impl Exercise {
    pub open spec fn is_choice(self) -> bool {
        self is ChooseTranslation || self is ChooseTerm
    }

    pub open spec fn asks_translation(self) -> bool {
        self is ChooseTranslation || self is WriteTranslation
    }

    /// Whether the answer is picked from a list rather than typed.
    pub fn multiple_choice(&self) -> (r: bool)
        ensures
            r == self.is_choice(),
    {
        match self {
            Exercise::ChooseTranslation | Exercise::ChooseTerm => true,
            _ => false,
        }
    }

    /// Whether the expected answer is the translation (otherwise it is the word).
    pub fn to_translation(&self) -> (r: bool)
        ensures
            r == self.asks_translation(),
    {
        match self {
            Exercise::ChooseTranslation | Exercise::WriteTranslation => true,
            _ => false,
        }
    }
}

/// The exercise that a word of the given mastery gets.
pub fn exercise_for(knowledge: i32) -> (r: Option<Exercise>)
    ensures
        r == exercise_spec(knowledge as int),
        0 <= knowledge <= 1 ==> (r matches Some(e) && e.is_choice()),
        2 <= knowledge <= 4 ==> (r matches Some(e) && !e.is_choice()),
{
    match knowledge {
        0 => Some(Exercise::ChooseTranslation),
        1 => Some(Exercise::ChooseTerm),
        2 => Some(Exercise::WriteTranslation),
        3 | 4 => Some(Exercise::WriteTerm),
        _ => None,
    }
}

/// The new mastery of a word after an answer.
pub fn next_knowledge(knowledge: i32, correct: bool) -> (r: i32)
    ensures
        r == next_knowledge_spec(knowledge as int, correct),
        0 <= knowledge <= MAX_KNOWLEDGE ==> 0 <= r <= MAX_KNOWLEDGE,
{
    if correct {
        if knowledge < MAX_KNOWLEDGE - 1 { knowledge + 1 } else { MAX_KNOWLEDGE }
    } else {
        if knowledge > 1 { knowledge - 1 } else { 0 }
    }
}

/// The field of a word that answers an exercise in the given direction.
pub open spec fn answer_field(w: Word, to_translation: bool) -> Seq<char> {
    if to_translation { w.translation@ } else { w.word@ }
}

/// The field of a word that the prompt shows.
pub open spec fn prompt_field(w: Word, to_translation: bool) -> Seq<char> {
    answer_field(w, !to_translation)
}

/// The expected answer.
pub fn expected_answer(w: &Word, to_translation: bool) -> (r: &String)
    ensures
        r@ == answer_field(*w, to_translation),
{
    if to_translation { &w.translation } else { &w.word }
}

/// What the prompt shows.
pub fn prompt(w: &Word, to_translation: bool) -> (r: &String)
    ensures
        r@ == prompt_field(*w, to_translation),
{
    if to_translation { &w.word } else { &w.translation }
}

/// Grades a typed answer that was already trimmed: only the exact text is right.
pub fn grade_written(w: &Word, to_translation: bool, answer: &String) -> (r: bool)
    ensures
        r == (answer@ == answer_field(*w, to_translation)),
{
    *answer == *expected_answer(w, to_translation)
}

/// Grades a typed line: white space round it is dropped, then only the exact
/// text is right, case included.
pub fn check_written(w: &Word, to_translation: bool, line: &str) -> (r: bool)
    ensures
        r == (trimmed(line@) == answer_field(*w, to_translation)),
{
    let answer = trim(line);
    grade_written(w, to_translation, &answer)
}

/// The texts of a list of strings.
pub open spec fn texts(v: Seq<String>) -> Seq<Seq<char>> {
    v.map_values(|s: String| s@)
}

/// Grades a pick from a numbered list (numbered from 1): right when the
/// number is on the list and names the expected text.
pub fn grade_choice(options: &Vec<String>, correct: &String, choice: usize) -> (r: bool)
    ensures
        r == (1 <= choice <= options@.len() && options@[choice - 1]@ == correct@),
{
    choice > 0 && choice <= options.len() && options[choice - 1] == *correct
}

/// The number a typed line picks: what it spells once trimmed, or 0 when it
/// spells no number.
pub open spec fn choice_of(line: Seq<char>) -> int {
    let t = trimmed(line);
    if is_usize_text(t) { digits_value(unsigned_digits(t)) as int } else { 0 }
}

/// Grades a typed pick from a numbered list; text that is no number on the
/// list is wrong.
pub fn check_choice(options: &Vec<String>, correct: &String, line: &str) -> (r: bool)
    ensures
        r == (1 <= choice_of(line@) <= options@.len() && options@[choice_of(line@) - 1]@ == correct@),
{
    let t = trim(line);
    let choice = match parse_usize(t.as_str()) {
        Some(n) => n,
        None => 0,
    };
    grade_choice(options, correct, choice)
}

pub open spec fn other_pred(term: Seq<char>) -> spec_fn(Word) -> bool {
    |w: Word| w.word@ != term
}

/// The words of `all` other than `target`, in order: the pool of wrong choices.
pub open spec fn others_of(all: Seq<Word>, target: Word) -> Seq<Word> {
    all.filter(other_pred(target.word@))
}

/// How many wrong choices a pool of `n` words gives.
pub open spec fn distractor_count(n: nat) -> nat {
    if n <= DISTRACTORS { n } else { DISTRACTORS as nat }
}

/// The list for a pool of other words in the order drawn: the answer field of
/// the first three of them (or of all, if fewer), then the expected answer.
pub open spec fn listed_of(pool: Seq<Word>, target: Word, to_translation: bool) -> Seq<Seq<char>> {
    answers_of(pool.take(distractor_count(pool.len()) as int), to_translation).push(
        answer_field(target, to_translation),
    )
}

/// The answer field of each word.
pub open spec fn answers_of(s: Seq<Word>, to_translation: bool) -> Seq<Seq<char>> {
    s.map_values(|w: Word| answer_field(w, to_translation))
}

/// The words of `all` whose term differs from the target's.
fn others(all: &Vec<Word>, target: &Word) -> (r: Vec<Word>)
    ensures
        r@ == others_of(all@, *target),
{
    let mut r: Vec<Word> = Vec::new();
    let mut i: usize = 0;
    while i < all.len()
        invariant
            i <= all@.len(),
            r@ == all@.take(i as int).filter(other_pred(target.word@)),
        decreases all@.len() - i,
    {
        assert(all@.take(i + 1) == all@.take(i as int).push(all@[i as int]));
        proof {
            all@.take(i as int).lemma_filter_push(all@[i as int], other_pred(target.word@));
        }
        if all[i].word != target.word {
            r.push(all[i].clone());
        }
        i += 1;
    }
    assert(all@.take(all@.len() as int) == all@);
    r
}

/// The list for a pool already drawn in random order, before it is shuffled.
pub fn list_options(pool: &Vec<Word>, target: &Word, to_translation: bool) -> (r: Vec<String>)
    ensures
        texts(r@) == listed_of(pool@, *target, to_translation),
{
    let n: usize = if pool.len() <= DISTRACTORS { pool.len() } else { DISTRACTORS };
    let mut r: Vec<String> = Vec::new();
    let mut i: usize = 0;
    while i < n
        invariant
            n == distractor_count(pool@.len()),
            i <= n <= pool@.len(),
            r@.len() == i,
            texts(r@) == answers_of(pool@.take(i as int), to_translation),
        decreases n - i,
    {
        let ghost before = r@;
        let ghost before = r@;
        let s = expected_answer(&pool[i], to_translation).clone();
        r.push(s);
        assert forall|j: int| 0 <= j <= i implies texts(r@)[j] == answers_of(pool@.take(i + 1), to_translation)[j] by {
            if j < i {
                assert(texts(before)[j] == answers_of(pool@.take(i as int), to_translation)[j]);
            }
        }
        assert(texts(r@) =~= answers_of(pool@.take(i + 1), to_translation));
        i += 1;
    }
    r.push(expected_answer(target, to_translation).clone());
    assert(texts(r@) =~= listed_of(pool@, *target, to_translation));
    r
}

/// The numbered list of a multiple-choice round: the expected answer and the
/// same field of up to three other words drawn at random, in random order.
pub fn choice_options(all: &Vec<Word>, target: &Word, to_translation: bool) -> (r: Vec<String>)
    ensures
        exists|pool: Seq<Word>, listed: Seq<String>|
            #![trigger texts(listed), listed_of(pool, *target, to_translation)]
            {
                &&& is_reordering(pool, others_of(all@, *target))
                &&& texts(listed) == listed_of(pool, *target, to_translation)
                &&& r@.to_multiset() == listed.to_multiset()
            },
        r@.len() == distractor_count(others_of(all@, *target).len()) + 1,
        exists|i: int| 0 <= i < r@.len() && (#[trigger] r@[i])@ == answer_field(*target, to_translation),
{
    let mut pool = others(all, target);
    shuffle(&mut pool);
    let listed = list_options(&pool, target, to_translation);
    let mut r = listed.clone();
    shuffle(&mut r);
    proof {
        assert(pool@.len() == others_of(all@, *target).len()) by {
            assert(pool@.to_multiset().len() == others_of(all@, *target).to_multiset().len());
        }
        assert(r@.len() == listed@.len()) by {
            assert(r@.to_multiset().len() == listed@.to_multiset().len());
        }
        assert(texts(listed@).len() == listed@.len());
        let last = listed@.len() - 1;
        assert(texts(listed@)[last] == listed@[last]@);
        assert(listed@.contains(listed@[last]));
        assert(r@.to_multiset().count(listed@[last]) > 0);
        assert(r@.contains(listed@[last]));
    }
    r
}

} // verus!
