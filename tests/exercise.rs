use rustki::exercise::{
    check_choice, check_written, choice_options, exercise_for, expected_answer, grade_choice, grade_written,
    next_knowledge, prompt, Exercise,
};
use rustki::word::Word;

fn word(term: &str, translation: &str, knowledge: i32) -> Word {
    Word { word: term.to_string(), translation: translation.to_string(), knowledge }
}

#[test]
fn exercise_by_mastery() {
    assert_eq!(exercise_for(0), Some(Exercise::ChooseTranslation));
    assert_eq!(exercise_for(1), Some(Exercise::ChooseTerm));
    assert_eq!(exercise_for(2), Some(Exercise::WriteTranslation));
    assert_eq!(exercise_for(3), Some(Exercise::WriteTerm));
    assert_eq!(exercise_for(4), Some(Exercise::WriteTerm));
    assert_eq!(exercise_for(5), None);
    assert_eq!(exercise_for(-1), None);
    for k in 0..=4 {
        let e = exercise_for(k).unwrap();
        assert_eq!(e.multiple_choice(), k <= 1);
    }
    assert!(Exercise::ChooseTranslation.to_translation());
    assert!(!Exercise::ChooseTerm.to_translation());
    assert!(Exercise::WriteTranslation.to_translation());
    assert!(!Exercise::WriteTerm.to_translation());
}

#[test]
fn mastery_moves_one_step_within_bounds() {
    assert_eq!(next_knowledge(0, true), 1);
    assert_eq!(next_knowledge(3, true), 4);
    assert_eq!(next_knowledge(4, true), 4);
    assert_eq!(next_knowledge(0, false), 0);
    assert_eq!(next_knowledge(2, false), 1);
    assert_eq!(next_knowledge(4, false), 3);
    for k in 0..=4 {
        for c in [true, false] {
            let n = next_knowledge(k, c);
            assert!((0..=4).contains(&n));
            assert_eq!((n - k).abs() == 1, !(k == 4 && c) && !(k == 0 && !c));
        }
    }
    assert_eq!(next_knowledge(i32::MAX, true), 4);
    assert_eq!(next_knowledge(i32::MIN, false), 0);
}

#[test]
fn prompt_and_answer_fields() {
    let w = word("pas", "собака", 0);
    assert_eq!(expected_answer(&w, true), "собака");
    assert_eq!(expected_answer(&w, false), "pas");
    assert_eq!(prompt(&w, true), "pas");
    assert_eq!(prompt(&w, false), "собака");
}

#[test]
fn choice_grading() {
    let options: Vec<String> = vec!["mačka".to_string(), "pas".to_string(), "kuća".to_string()];
    let correct = "pas".to_string();
    assert!(grade_choice(&options, &correct, 2));
    assert!(!grade_choice(&options, &correct, 1));
    assert!(!grade_choice(&options, &correct, 3));
    assert!(!grade_choice(&options, &correct, 0));
    assert!(!grade_choice(&options, &correct, 4));
    assert!(check_choice(&options, &correct, "2\n"));
    assert!(check_choice(&options, &correct, "  2  "));
    assert!(check_choice(&options, &correct, "+2"));
    assert!(!check_choice(&options, &correct, "1\n"));
    assert!(!check_choice(&options, &correct, "0"));
    assert!(!check_choice(&options, &correct, "7"));
    assert!(!check_choice(&options, &correct, "-2"));
    assert!(!check_choice(&options, &correct, "two"));
    assert!(!check_choice(&options, &correct, ""));
    assert!(!check_choice(&options, &correct, "99999999999999999999999999"));
}

#[test]
fn written_grading() {
    let w = word("kuća", "дом", 2);
    assert!(grade_written(&w, true, &"дом".to_string()));
    assert!(!grade_written(&w, true, &" дом".to_string()));
    assert!(check_written(&w, true, "дом\n"));
    assert!(check_written(&w, true, "  дом \t\n"));
    assert!(!check_written(&w, true, "Дом"));
    assert!(!check_written(&w, true, "до"));
    assert!(!check_written(&w, true, "д о м"));
    assert!(check_written(&w, false, "kuća\n"));
    assert!(!check_written(&w, false, "Kuća"));
    assert!(!check_written(&w, false, "kuca"));
}

#[test]
fn mastered_word_answered_right_stays_mastered() {
    let w = word("kuća", "дом", 4);
    let e = exercise_for(w.knowledge).unwrap();
    assert!(!e.multiple_choice());
    let correct = check_written(&w, e.to_translation(), "kuća\n");
    assert!(correct);
    assert_eq!(next_knowledge(w.knowledge, correct), 4);
}

#[test]
fn choice_options_with_one_word() {
    let all = vec![word("pas", "dog", 0)];
    let options = choice_options(&all, &all[0], true);
    assert_eq!(options, vec!["dog".to_string()]);
    assert!(check_choice(&options, &"dog".to_string(), "1"));
}

#[test]
fn choice_options_draw_three_others() {
    let all: Vec<Word> = (0..6).map(|i| word(&format!("w{}", i), &format!("t{}", i), 0)).collect();
    for dir in [true, false] {
        let options = choice_options(&all, &all[2], dir);
        assert_eq!(options.len(), 4);
        let correct = expected_answer(&all[2], dir).clone();
        assert_eq!(options.iter().filter(|o| **o == correct).count(), 1);
        for o in &options {
            assert!(all.iter().any(|w| expected_answer(w, dir) == o));
        }
        let pick = options.iter().position(|o| *o == correct).unwrap() + 1;
        assert!(check_choice(&options, &correct, &format!("{}\n", pick)));
    }
}

#[test]
fn choice_options_with_two_others() {
    let all = vec![word("a", "x", 0), word("b", "y", 0), word("c", "z", 0)];
    let mut options = choice_options(&all, &all[0], false);
    options.sort();
    assert_eq!(options, vec!["a".to_string(), "b".to_string(), "c".to_string()]);
}
