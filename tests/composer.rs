use rustki::composer::{compose, partition, pick_session, LEARNING_QUOTA, MASTERED_QUOTA, SESSION_SIZE};
use rustki::word::Word;

fn word(term: &str, knowledge: i32) -> Word {
    Word { word: term.to_string(), translation: format!("{}-t", term), knowledge }
}

fn set(learning: usize, mastered: usize) -> Vec<Word> {
    let mut v = Vec::new();
    for i in 0..learning {
        v.push(word(&format!("l{}", i), (i % 4) as i32));
    }
    for i in 0..mastered {
        v.push(word(&format!("m{}", i), 4));
    }
    v
}

fn terms(v: &[Word]) -> Vec<String> {
    v.iter().map(|w| w.word.clone()).collect()
}

#[test]
fn compose_refuses_five_words() {
    assert_eq!(compose(&set(5, 0)).err(), Some(5));
}

#[test]
fn compose_refuses_nine_words() {
    assert_eq!(compose(&set(8, 1)).err(), Some(9));
}

#[test]
fn compose_returns_ten_words_of_the_set() {
    for (l, m) in [(12, 0), (0, 12), (10, 0), (5, 5), (9, 3), (1, 20)] {
        let all = set(l, m);
        let s = compose(&all).unwrap();
        assert_eq!(s.len(), SESSION_SIZE);
        let all_terms = terms(&all);
        for w in &s {
            assert!(all_terms.contains(&w.word));
        }
    }
}

#[test]
fn compose_meets_quota() {
    for _ in 0..20 {
        let s = compose(&set(9, 3)).unwrap();
        let learning = s.iter().filter(|w| w.knowledge <= 3).count();
        let mastered = s.iter().filter(|w| w.knowledge == 4).count();
        assert!(learning >= LEARNING_QUOTA);
        assert!(mastered >= MASTERED_QUOTA);
    }
}

#[test]
fn compose_pads_without_mastered_words() {
    let s = compose(&set(10, 0)).unwrap();
    assert_eq!(s.len(), 10);
    assert!(s.iter().all(|w| w.knowledge <= 3));
}

#[test]
fn pick_session_takes_quotas_in_order() {
    let learning = set(9, 0);
    let mastered: Vec<Word> = (0..3).map(|i| word(&format!("m{}", i), 4)).collect();
    let all = set(9, 3);
    let s = pick_session(&learning, &mastered, &all);
    assert_eq!(terms(&s), vec!["l0", "l1", "l2", "l3", "l4", "l5", "l6", "l7", "m0", "m1"]);
}

#[test]
fn pick_session_pads_from_whole_set_with_repeats() {
    let learning = set(3, 0);
    let mastered: Vec<Word> = vec![word("m0", 4)];
    let all = set(3, 9);
    let s = pick_session(&learning, &mastered, &all);
    assert_eq!(terms(&s), vec!["l0", "l1", "l2", "m0", "l0", "l1", "l2", "m0", "m1", "m2"]);
}

#[test]
fn partition_splits_by_mastery() {
    let all = vec![word("a", 0), word("b", 4), word("c", 3), word("d", 7), word("e", 4), word("f", -1)];
    let (learning, mastered) = partition(&all);
    assert_eq!(terms(&learning), vec!["a", "c"]);
    assert_eq!(terms(&mastered), vec!["b", "e"]);
}
