use lmaobgd::attempt::{resolve_positions, Attempt, AttemptError, Review};
use std::collections::HashMap;

fn known(pairs: &[(i32, i32)]) -> HashMap<i32, i32> {
    pairs.iter().copied().collect()
}

#[test]
fn known_answer_is_selected_never_guessed() {
    for _ in 0..100 {
        let mut attempt = Attempt::new(known(&[(7, 72)]), false);
        let clicks = attempt.answer_question(7, vec![71, 72, 73, 74]).unwrap();
        assert_eq!(clicks, vec![1]);
        let outcome = attempt.finish(String::from("t"), None);
        assert!(outcome.upload.unknown_questions.is_empty());
    }
}

#[test]
fn stored_guess_is_selected_like_a_confirmed_answer() {
    // the known answers hold the choice of every row, reviewed or not
    let mut store = lmaobgd::actions::KnowledgeStore::new();
    let mut first = Attempt::new(HashMap::new(), false);
    first.answer_question_with(7, vec![71, 72, 73], 2).unwrap();
    lmaobgd::convergence::persist(&mut store, first.finish(String::from("t"), None), false);
    let snapshot = lmaobgd::actions::get_data(&store);
    assert_eq!(snapshot.get(&7), Some(&73));
    for _ in 0..100 {
        let mut attempt = Attempt::new(snapshot.clone(), false);
        assert_eq!(attempt.answer_question(7, vec![73, 72, 71]), Ok(vec![0]));
        let outcome = attempt.finish(String::from("t"), None);
        assert!(outcome.upload.unknown_questions.is_empty());
    }
}

#[test]
fn known_answer_offered_twice_is_selected_twice() {
    let mut attempt = Attempt::new(known(&[(7, 72)]), false);
    let clicks = attempt.answer_question_with(7, vec![72, 71, 72], 1).unwrap();
    assert_eq!(clicks, vec![0, 2]);
    let outcome = attempt.finish(String::from("t"), None);
    assert!(outcome.upload.unknown_questions.is_empty());
}

#[test]
fn unknown_question_is_answered_with_an_offered_choice() {
    let choices = vec![11, 12, 13, 14];
    let mut seen = [false; 4];
    for _ in 0..400 {
        let mut attempt = Attempt::new(known(&[(7, 72)]), false);
        let clicks = attempt.answer_question(5, choices.clone()).unwrap();
        assert_eq!(clicks.len(), 1);
        assert!(clicks[0] < choices.len());
        seen[clicks[0]] = true;
        let outcome = attempt.finish(String::from("t"), None);
        let guess = outcome.upload.unknown_questions.get(&5).unwrap();
        assert_eq!(guess.answer_used, choices[clicks[0]]);
        assert_eq!(guess.answers, choices);
        assert!(guess.answers.contains(&guess.answer_used));
        assert_eq!(outcome.upload.unknown_questions.len(), 1);
    }
    // each position comes up in 400 draws, but for a chance below 1e-48
    assert_eq!(seen, [true; 4]);
}

#[test]
fn one_choice_leaves_nothing_to_chance() {
    let mut attempt = Attempt::new(HashMap::new(), false);
    assert_eq!(attempt.answer_question(3, vec![99]), Ok(vec![0]));
    let outcome = attempt.finish(String::new(), None);
    assert_eq!(outcome.upload.unknown_questions.get(&3).unwrap().answer_used, 99);
}

#[test]
fn guess_at_a_given_position() {
    let mut attempt = Attempt::new(HashMap::new(), false);
    assert_eq!(attempt.answer_question_with(5, vec![11, 12, 13], 2), Ok(vec![2]));
    assert_eq!(attempt.answer_question_with(6, vec![21, 22], 0), Ok(vec![0]));
    let outcome = attempt.finish(String::from("t"), None);
    let five = outcome.upload.unknown_questions.get(&5).unwrap();
    assert_eq!((five.answer_used, five.answers.clone()), (13, vec![11, 12, 13]));
    let six = outcome.upload.unknown_questions.get(&6).unwrap();
    assert_eq!((six.answer_used, six.answers.clone()), (21, vec![21, 22]));
}

#[test]
fn known_answer_that_is_not_offered_is_guessed() {
    let mut attempt = Attempt::new(known(&[(7, 72)]), false);
    assert_eq!(attempt.answer_question_with(7, vec![81, 82], 1), Ok(vec![1]));
    let outcome = attempt.finish(String::from("t"), None);
    assert_eq!(outcome.upload.unknown_questions.get(&7).unwrap().answer_used, 82);
}

#[test]
fn question_without_choices_fails() {
    let mut attempt = Attempt::new(known(&[(7, 72)]), false);
    assert_eq!(
        attempt.answer_question(9, Vec::new()),
        Err(AttemptError::NoChoices { question: 9 })
    );
    assert_eq!(
        attempt.answer_question_with(7, Vec::new(), 0),
        Err(AttemptError::NoChoices { question: 7 })
    );
    // the failed question is not listed: position 1 names nothing
    assert_eq!(
        attempt.harvest("1", ""),
        Err(AttemptError::BadPosition { position: 1 })
    );
}

#[test]
fn texts_are_wanted_for_unknown_questions() {
    let attempt = Attempt::new(known(&[(7, 72)]), false);
    assert!(!attempt.wants_text(7));
    assert!(attempt.wants_text(8));
    let forced = Attempt::new(known(&[(7, 72)]), true);
    assert!(forced.wants_text(7));
    assert!(forced.wants_text(8));
}

#[test]
fn texts_go_into_the_upload() {
    let mut attempt = Attempt::new(HashMap::new(), false);
    attempt.record_question_text(1, String::from("first"));
    attempt.record_question_text(2, String::from("second"));
    attempt.record_question_text(1, String::from("first, again"));
    attempt.record_answer_text(10, String::from("ten"));
    let outcome = attempt.finish(String::from("Đề 1"), None);
    assert_eq!(outcome.upload.group, None);
    assert_eq!(outcome.upload.group_text, "Đề 1");
    assert_eq!(outcome.upload.question_map.len(), 2);
    assert_eq!(outcome.upload.question_map[&1], "first, again");
    assert_eq!(outcome.upload.question_map[&2], "second");
    assert_eq!(outcome.upload.answer_map.len(), 1);
    assert_eq!(outcome.upload.answer_map[&10], "ten");
    assert_eq!(outcome.correct, None);
    assert!(!outcome.has_incorrect);
}

fn three_guesses() -> Attempt {
    let mut attempt = Attempt::new(HashMap::new(), false);
    attempt.answer_question_with(101, vec![1, 2, 3, 4], 0).unwrap();
    attempt.answer_question_with(102, vec![5, 6, 7, 8], 1).unwrap();
    attempt.answer_question_with(103, vec![9, 10, 11, 12], 3).unwrap();
    attempt
}

#[test]
fn harvest_maps_positions_to_questions() {
    let mut attempt = three_guesses();
    let review = attempt.harvest("Câu đúng: 1, 3", "Câu sai: 2").unwrap();
    assert_eq!(review, Review { correct: vec![101, 103], has_incorrect: true });
    let outcome = attempt.finish(String::from("t"), Some(review));
    assert_eq!(outcome.correct, Some(vec![101, 103]));
    assert!(outcome.has_incorrect);
    let left = outcome.upload.unknown_questions;
    assert_eq!(left.len(), 2);
    assert_eq!(left[&101].answer_used, 1);
    assert_eq!(left[&103].answer_used, 12);
    assert!(!left.contains_key(&102));
}

#[test]
fn harvest_without_wrong_answers() {
    let mut attempt = three_guesses();
    let review = attempt.harvest("3 2 1", "Câu sai:").unwrap();
    assert_eq!(review, Review { correct: vec![103, 102, 101], has_incorrect: false });
    let outcome = attempt.finish(String::from("t"), Some(review));
    assert_eq!(outcome.upload.unknown_questions.len(), 3);
    assert!(!outcome.has_incorrect);
}

#[test]
fn harvest_confirms_guessed_questions_only() {
    let mut attempt = Attempt::new(known(&[(101, 2)]), false);
    attempt.answer_question_with(101, vec![1, 2, 3, 4], 0).unwrap();
    attempt.answer_question_with(102, vec![5, 6], 0).unwrap();
    let review = attempt.harvest("1 2 2", "").unwrap();
    assert_eq!(review.correct, vec![102, 102]);
    // a wrong mark on a question that was not guessed strikes nothing
    let mut again = Attempt::new(known(&[(101, 2)]), false);
    again.answer_question_with(101, vec![1, 2, 3, 4], 0).unwrap();
    again.answer_question_with(102, vec![5, 6], 0).unwrap();
    let review = again.harvest("2", "1").unwrap();
    assert_eq!(review.correct, vec![102]);
    assert!(review.has_incorrect);
    let outcome = again.finish(String::from("t"), Some(review));
    assert_eq!(outcome.upload.unknown_questions.len(), 1);
    assert!(outcome.upload.unknown_questions.contains_key(&102));
}

#[test]
fn question_listed_as_correct_and_as_wrong_is_not_confirmed() {
    let mut attempt = three_guesses();
    let review = attempt.harvest("1 2", "2 3").unwrap();
    assert_eq!(review, Review { correct: vec![101], has_incorrect: true });
    let outcome = attempt.finish(String::from("t"), Some(review));
    assert_eq!(outcome.upload.unknown_questions.len(), 1);
    assert!(outcome.upload.unknown_questions.contains_key(&101));
}

#[test]
fn harvest_rejects_positions_without_a_question() {
    let mut attempt = three_guesses();
    assert_eq!(
        attempt.harvest("1, 4", "2"),
        Err(AttemptError::BadPosition { position: 4 })
    );
    assert_eq!(
        attempt.harvest("1", "0"),
        Err(AttemptError::BadPosition { position: 0 })
    );
    // the list of correct answers is read first
    assert_eq!(
        attempt.harvest("9", "8"),
        Err(AttemptError::BadPosition { position: 9 })
    );
    // nothing was struck by the failed steps
    let outcome = attempt.finish(String::from("t"), None);
    assert_eq!(outcome.upload.unknown_questions.len(), 3);
}

#[test]
fn positions_count_from_one() {
    let ids = vec![10, 20, 30];
    assert_eq!(resolve_positions(&ids, &vec![1, 2, 3]), Ok(vec![10, 20, 30]));
    assert_eq!(resolve_positions(&ids, &vec![3, 3, 1]), Ok(vec![30, 30, 10]));
    assert_eq!(resolve_positions(&ids, &Vec::new()), Ok(Vec::new()));
    assert_eq!(
        resolve_positions(&ids, &vec![2, 0, 7]),
        Err(AttemptError::BadPosition { position: 0 })
    );
    assert_eq!(
        resolve_positions(&ids, &vec![2, 7, 0]),
        Err(AttemptError::BadPosition { position: 7 })
    );
    assert_eq!(
        resolve_positions(&Vec::new(), &vec![1]),
        Err(AttemptError::BadPosition { position: 1 })
    );
}

#[test]
fn question_shown_twice_keeps_its_last_guess() {
    let mut attempt = Attempt::new(HashMap::new(), false);
    attempt.answer_question_with(5, vec![11, 12], 0).unwrap();
    attempt.answer_question_with(5, vec![13, 14, 15], 2).unwrap();
    let review = attempt.harvest("2", "").unwrap();
    assert_eq!(review.correct, vec![5]);
    let outcome = attempt.finish(String::from("t"), Some(review));
    let guess = &outcome.upload.unknown_questions[&5];
    assert_eq!((guess.answer_used, guess.answers.clone()), (15, vec![13, 14, 15]));
}
