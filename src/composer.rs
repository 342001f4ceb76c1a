use crate::random::shuffle;
use crate::word::{is_reordering, Word};
use vstd::prelude::*;

verus! {

broadcast use vstd::seq_lib::group_to_multiset_ensures;

/// Number of words in one training session.
pub const SESSION_SIZE: usize = 10;

/// How many words still being learned a session takes first.
pub const LEARNING_QUOTA: usize = 8;

/// How many mastered words a session takes next.
pub const MASTERED_QUOTA: usize = 2;

pub open spec fn learning_pred() -> spec_fn(Word) -> bool {
    |w: Word| w.is_learning()
}

pub open spec fn mastered_pred() -> spec_fn(Word) -> bool {
    |w: Word| w.is_mastered()
}

/// The words of `s` still being learned, in order.
pub open spec fn learning_of(s: Seq<Word>) -> Seq<Word> {
    s.filter(learning_pred())
}

/// The mastered words of `s`, in order.
pub open spec fn mastered_of(s: Seq<Word>) -> Seq<Word> {
    s.filter(mastered_pred())
}

/// The first `n` items of `s`, or all of them if there are fewer.
pub open spec fn take_up_to(s: Seq<Word>, n: int) -> Seq<Word> {
    if s.len() <= n {
        s
    } else {
        s.take(n)
    }
}

/// The session drawn from already shuffled pools: up to eight learning words,
/// then up to two mastered ones, then words of the whole set until there are
/// ten. The padding may repeat a word chosen before.
pub open spec fn session_of(learning: Seq<Word>, mastered: Seq<Word>, all: Seq<Word>) -> Seq<Word> {
    let head = take_up_to(learning, LEARNING_QUOTA as int) + take_up_to(mastered, MASTERED_QUOTA as int);
    head + take_up_to(all, SESSION_SIZE - head.len())
}

/// Appends the first `n` items of `src` (all of them if there are fewer).
fn append_up_to(out: &mut Vec<Word>, src: &Vec<Word>, n: usize)
    ensures
        final(out)@ == old(out)@ + take_up_to(src@, n as int),
{
    let mut i: usize = 0;
    while i < n && i < src.len()
        invariant
            i <= src@.len(),
            i <= n,
            out@ == old(out)@ + src@.take(i as int),
        decreases src@.len() - i,
    {
        out.push(src[i].clone());
        assert(src@.take(i + 1) == src@.take(i as int).push(src@[i as int]));
        i += 1;
    }
    assert(take_up_to(src@, n as int) == src@.take(i as int));
}

/// Builds the session from pools that were shuffled beforehand.
pub fn pick_session(learning: &Vec<Word>, mastered: &Vec<Word>, all: &Vec<Word>) -> (r: Vec<Word>)
    ensures
        r@ == session_of(learning@, mastered@, all@),
{
    let mut r: Vec<Word> = Vec::new();
    append_up_to(&mut r, learning, LEARNING_QUOTA);
    append_up_to(&mut r, mastered, MASTERED_QUOTA);
    let room = SESSION_SIZE - r.len();
    append_up_to(&mut r, all, room);
    r
}

/// Splits the words into those still being learned and those mastered,
/// keeping their order. Words with a mastery outside 0 to 4 join neither.
pub fn partition(all: &Vec<Word>) -> (r: (Vec<Word>, Vec<Word>))
    ensures
        r.0@ == learning_of(all@),
        r.1@ == mastered_of(all@),
{
    let mut learning: Vec<Word> = Vec::new();
    let mut mastered: Vec<Word> = Vec::new();
    let mut i: usize = 0;
    while i < all.len()
        invariant
            i <= all@.len(),
            learning@ == learning_of(all@.take(i as int)),
            mastered@ == mastered_of(all@.take(i as int)),
        decreases all@.len() - i,
    {
        let w = &all[i];
        assert(all@.take(i + 1) == all@.take(i as int).push(all@[i as int]));
        proof {
            all@.take(i as int).lemma_filter_push(all@[i as int], learning_pred());
            all@.take(i as int).lemma_filter_push(all@[i as int], mastered_pred());
        }
        if w.learning() {
            learning.push(w.clone());
        } else if w.mastered() {
            mastered.push(w.clone());
        }
        i += 1;
    }
    assert(all@.take(all@.len() as int) == all@);
    (learning, mastered)
}

/// Every item of a reordering of `s.filter(p)` satisfies `p` and occurs in `s`.
proof fn lemma_reordered_filter(r: Seq<Word>, s: Seq<Word>, p: spec_fn(Word) -> bool)
    requires
        is_reordering(r, s.filter(p)),
    ensures
        forall|i: int| 0 <= i < r.len() ==> p(#[trigger] r[i]) && s.contains(r[i]),
{
    broadcast use vstd::seq_lib::group_filter_ensures;

    assert forall|i: int| 0 <= i < r.len() implies p(#[trigger] r[i]) && s.contains(r[i]) by {
        assert(r.contains(r[i]));
        assert(r.to_multiset().count(r[i]) > 0);
        assert(s.filter(p).contains(r[i]));
        s.lemma_filter_contains_rev(p, r[i]);
    }
}

/// Filtering a sequence whose items all satisfy `p` keeps it whole.
proof fn lemma_filter_keeps_all(s: Seq<Word>, p: spec_fn(Word) -> bool)
    requires
        forall|i: int| 0 <= i < s.len() ==> p(#[trigger] s[i]),
    ensures
        s.filter(p) == s,
    decreases s.len(),
{
    if s.len() == 0 {
        s.lemma_filter_len(p);
        assert(s.filter(p) =~= s);
    } else {
        let init = s.drop_last();
        assert(forall|i: int| 0 <= i < init.len() ==> init[i] == s[i]);
        lemma_filter_keeps_all(init, p);
        init.lemma_filter_push(s.last(), p);
        assert(init.push(s.last()) =~= s);
    }
}

/// Filtering keeps at least as many items as the part of the sequence that
/// comes first and satisfies `p` throughout.
proof fn lemma_filter_prefix_count(a: Seq<Word>, b: Seq<Word>, p: spec_fn(Word) -> bool)
    requires
        forall|i: int| 0 <= i < a.len() ==> p(#[trigger] a[i]),
    ensures
        (a + b).filter(p).len() >= a.len(),
{
    Seq::filter_distributes_over_add(a, b, p);
    lemma_filter_keeps_all(a, p);
}

/// A session drawn from reorderings of the learning words, the mastered words
/// and the whole set has ten words when the set has at least ten, holds only
/// words of the set, and meets both quotas when the set allows it.
proof fn lemma_session_shape(l: Seq<Word>, m: Seq<Word>, p: Seq<Word>, all: Seq<Word>)
    requires
        is_reordering(l, learning_of(all)),
        is_reordering(m, mastered_of(all)),
        is_reordering(p, all),
    ensures
        all.len() >= SESSION_SIZE ==> session_of(l, m, p).len() == SESSION_SIZE,
        forall|i: int| 0 <= i < session_of(l, m, p).len() ==> all.contains(#[trigger] session_of(l, m, p)[i]),
        learning_of(all).len() >= LEARNING_QUOTA && mastered_of(all).len() >= MASTERED_QUOTA ==> {
            &&& learning_of(session_of(l, m, p)).len() >= LEARNING_QUOTA
            &&& mastered_of(session_of(l, m, p)).len() >= MASTERED_QUOTA
        },
{
    lemma_reordered_filter(l, all, learning_pred());
    lemma_reordered_filter(m, all, mastered_pred());
    assert(p.len() == all.len()) by {
        assert(p.to_multiset().len() == all.to_multiset().len());
    }
    assert(l.len() == learning_of(all).len()) by {
        assert(l.to_multiset().len() == learning_of(all).to_multiset().len());
    }
    assert(m.len() == mastered_of(all).len()) by {
        assert(m.to_multiset().len() == mastered_of(all).to_multiset().len());
    }
    let hl = take_up_to(l, LEARNING_QUOTA as int);
    let hm = take_up_to(m, MASTERED_QUOTA as int);
    let pad = take_up_to(p, SESSION_SIZE - (hl + hm).len());
    let s = session_of(l, m, p);
    assert(s == (hl + hm) + pad);
    assert forall|i: int| 0 <= i < s.len() implies all.contains(#[trigger] s[i]) by {
        if i < hl.len() {
            assert(s[i] == l[i]);
        } else if i < hl.len() + hm.len() {
            assert(s[i] == m[i - hl.len()]);
        } else {
            let j = i - hl.len() - hm.len();
            assert(s[i] == p[j]);
            assert(p.contains(p[j]));
            assert(p.to_multiset().count(p[j]) > 0);
        }
    }
    if learning_of(all).len() >= LEARNING_QUOTA && mastered_of(all).len() >= MASTERED_QUOTA {
        assert(pad =~= Seq::<Word>::empty());
        assert(s =~= hl + hm);
        lemma_filter_prefix_count(hl, hm, learning_pred());
        lemma_filter_prefix_count(hm, hl, mastered_pred());
        Seq::filter_distributes_over_add(hl, hm, mastered_pred());
        Seq::filter_distributes_over_add(hm, hl, mastered_pred());
    }
}

/// `s` is a session that `compose` may draw from `all`: `session_of` applied
/// to some shuffle of the learning words, of the mastered words, and of the
/// whole set.
pub open spec fn session_drawn(all: Seq<Word>, s: Seq<Word>) -> bool {
    exists|l: Seq<Word>, m: Seq<Word>, p: Seq<Word>|
        {
            &&& is_reordering(l, learning_of(all))
            &&& is_reordering(m, mastered_of(all))
            &&& is_reordering(p, all)
            &&& s == #[trigger] session_of(l, m, p)
        }
}

/// Any session that `compose` may draw from a set of at least ten words has
/// exactly ten words, all of the set; and when the set holds at least eight
/// words still being learned and two mastered ones, the session holds at
/// least as many of each.
pub proof fn lemma_drawn_session(all: Seq<Word>, s: Seq<Word>)
    requires
        all.len() >= SESSION_SIZE,
        session_drawn(all, s),
    ensures
        s.len() == SESSION_SIZE,
        forall|i: int| 0 <= i < s.len() ==> all.contains(#[trigger] s[i]),
        learning_of(all).len() >= LEARNING_QUOTA && mastered_of(all).len() >= MASTERED_QUOTA ==> {
            &&& learning_of(s).len() >= LEARNING_QUOTA
            &&& mastered_of(s).len() >= MASTERED_QUOTA
        },
{
    let (l, m, p) = choose|l: Seq<Word>, m: Seq<Word>, p: Seq<Word>|
        {
            &&& is_reordering(l, learning_of(all))
            &&& is_reordering(m, mastered_of(all))
            &&& is_reordering(p, all)
            &&& s == #[trigger] session_of(l, m, p)
        };
    lemma_session_shape(l, m, p, all);
}

/// Chooses the words of one training session from the whole word set.
///
/// With fewer than ten words no session is composed, and the count comes
/// back as the error. Otherwise the learning words, the mastered words and
/// the whole set are shuffled, and the session is drawn from them as
/// `session_of` says: ten words of the set, at least eight learning and two
/// mastered ones whenever the set has that many.
pub fn compose(all: &Vec<Word>) -> (r: Result<Vec<Word>, usize>)
    ensures
        r is Err <==> all@.len() < SESSION_SIZE,
        r matches Err(n) ==> n == all@.len(),
        r matches Ok(s) ==> {
            &&& s@.len() == SESSION_SIZE
            &&& forall|i: int| 0 <= i < s@.len() ==> all@.contains(#[trigger] s@[i])
            &&& session_drawn(all@, s@)
            &&& learning_of(all@).len() >= LEARNING_QUOTA && mastered_of(all@).len() >= MASTERED_QUOTA
                ==> learning_of(s@).len() >= LEARNING_QUOTA && mastered_of(s@).len() >= MASTERED_QUOTA
        },
{
    if all.len() < SESSION_SIZE {
        return Err(all.len());
    }
    let (mut learning, mut mastered) = partition(all);
    shuffle(&mut learning);
    shuffle(&mut mastered);
    let mut everything: Vec<Word> = Vec::new();
    append_up_to(&mut everything, all, all.len());
    assert(all@.take(all@.len() as int) == all@);
    shuffle(&mut everything);
    let s = pick_session(&learning, &mastered, &everything);
    proof {
        lemma_session_shape(learning@, mastered@, everything@, all@);
        assert(session_drawn(all@, s@));
    }
    Ok(s)
}

} // verus!
