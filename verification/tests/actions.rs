use lmaobgd::actions::{
    check_api_key, check_api_key_r, del_question, gen_api_key, generate_api_key, get_answer,
    get_answer_string, get_data, get_question_string, hash_api_key, key_from_positions, review,
    set_reviewed, store_api_key, upload_call, verdict_of, KnowledgeStore, Verdict, ALPHABET_SIZE,
};
use lmaobgd::models::{Answer, JsApiUpload, UnknownQuestion};
use std::collections::HashMap;

fn upload(group: &str, guesses: &[(i32, &[i32], i32)]) -> JsApiUpload {
    let mut unknown_questions = HashMap::new();
    for (q, answers, used) in guesses {
        unknown_questions.insert(
            *q,
            UnknownQuestion { answers: answers.to_vec(), answer_used: *used },
        );
    }
    JsApiUpload {
        group: None,
        group_text: String::from(group),
        answer_map: HashMap::new(),
        question_map: HashMap::new(),
        unknown_questions,
    }
}

fn row(q: i32, used: i32, reviewed: bool, test: &str, valid: &[i32]) -> Answer {
    Answer {
        question_id: q,
        answer_used: used,
        reviewed,
        test: String::from(test),
        valid_answers: valid.to_vec(),
    }
}

#[test]
fn empty_store() {
    let store = KnowledgeStore::new();
    assert!(get_data(&store).is_empty());
    assert_eq!(get_answer(&store, 1), None);
    assert_eq!(get_answer_string(&store, 1), None);
    assert_eq!(get_question_string(&store, 1), None);
    assert_eq!(check_api_key(&store, "k"), None);
    assert_eq!(check_api_key_r(&store, "k"), None);
}

#[test]
fn guesses_are_stored_unreviewed() {
    let mut store = KnowledgeStore::new();
    upload_call(&mut store, upload("g1", &[(1, &[10, 11], 11), (2, &[20, 21, 22], 20)]));
    assert_eq!(get_answer(&store, 1), Some(row(1, 11, false, "g1", &[10, 11])));
    assert_eq!(get_answer(&store, 2), Some(row(2, 20, false, "g1", &[20, 21, 22])));
    assert_eq!(get_answer(&store, 3), None);
}

#[test]
fn known_answers_cover_unreviewed_rows() {
    let mut store = KnowledgeStore::new();
    upload_call(&mut store, upload("g1", &[(1, &[10, 11], 11), (2, &[20, 21, 22], 20)]));
    let data = get_data(&store);
    assert_eq!(data.len(), 2);
    assert_eq!((data[&1], data[&2]), (11, 20));
    set_reviewed(&mut store, &[1]);
    let data = get_data(&store);
    assert_eq!(data.len(), 2);
    assert_eq!((data[&1], data[&2]), (11, 20));
    del_question(&mut store, 2);
    let data = get_data(&store);
    assert_eq!(data.len(), 1);
    assert_eq!(data[&1], 11);
}

#[test]
fn later_guess_replaces_an_unreviewed_one() {
    let mut store = KnowledgeStore::new();
    upload_call(&mut store, upload("g1", &[(1, &[10, 11], 11)]));
    upload_call(&mut store, upload("g2", &[(1, &[12, 10, 11], 12)]));
    assert_eq!(get_answer(&store, 1), Some(row(1, 12, false, "g2", &[12, 10, 11])));
}

#[test]
fn guess_does_not_touch_a_reviewed_answer() {
    let mut store = KnowledgeStore::new();
    upload_call(&mut store, upload("g1", &[(1, &[10, 11], 11), (2, &[20, 21], 20)]));
    set_reviewed(&mut store, &[1]);
    let confirmed = row(1, 11, true, "g1", &[10, 11]);
    assert_eq!(get_answer(&store, 1), Some(confirmed.clone()));
    upload_call(&mut store, upload("g2", &[(1, &[10, 11], 10), (2, &[20, 21], 21)]));
    assert_eq!(get_answer(&store, 1), Some(confirmed));
    assert_eq!(get_answer(&store, 2), Some(row(2, 21, false, "g2", &[20, 21])));
    let data = get_data(&store);
    assert_eq!(data.len(), 2);
    assert_eq!((data[&1], data[&2]), (11, 21));
}

#[test]
fn confirmation_marks_the_answer_used() {
    let mut store = KnowledgeStore::new();
    upload_call(&mut store, upload("g1", &[(1, &[10, 11], 11), (2, &[20, 21], 20)]));
    set_reviewed(&mut store, &[2, 5, 2]);
    assert_eq!(get_answer(&store, 2), Some(row(2, 20, true, "g1", &[20, 21])));
    assert_eq!(get_answer(&store, 1), Some(row(1, 11, false, "g1", &[10, 11])));
    // a question without a row gets none
    assert_eq!(get_answer(&store, 5), None);
    let data = get_data(&store);
    assert_eq!(data.len(), 2);
    assert_eq!((data[&1], data[&2]), (11, 20));
    set_reviewed(&mut store, &[]);
    assert_eq!(get_answer(&store, 1), Some(row(1, 11, false, "g1", &[10, 11])));
}

#[test]
fn texts_are_filed_and_replaced() {
    let mut store = KnowledgeStore::new();
    let mut first = upload("g", &[]);
    first.question_map.insert(1, String::from("q one"));
    first.question_map.insert(2, String::from("q two"));
    first.answer_map.insert(10, String::from("a ten"));
    upload_call(&mut store, first);
    let mut second = upload("g", &[]);
    second.question_map.insert(2, String::from("q two, mended"));
    second.answer_map.insert(11, String::from("a eleven"));
    upload_call(&mut store, second);
    assert_eq!(get_question_string(&store, 1), Some(String::from("q one")));
    assert_eq!(get_question_string(&store, 2), Some(String::from("q two, mended")));
    assert_eq!(get_question_string(&store, 10), None);
    assert_eq!(get_answer_string(&store, 10), Some(String::from("a ten")));
    assert_eq!(get_answer_string(&store, 11), Some(String::from("a eleven")));
    assert_eq!(get_answer_string(&store, 1), None);
}

#[test]
fn verdicts() {
    assert_eq!(verdict_of(0, 7), Some(Verdict::Confirm));
    assert_eq!(verdict_of(1, 7), Some(Verdict::Correct(7)));
    assert_eq!(verdict_of(2, 7), Some(Verdict::Delete));
    assert_eq!(verdict_of(3, 7), None);
    assert_eq!(verdict_of(255, 7), None);
}

#[test]
fn review_confirms_corrects_and_deletes() {
    let mut store = KnowledgeStore::new();
    upload_call(
        &mut store,
        upload("g", &[(1, &[10, 11], 11), (2, &[20, 21], 20), (3, &[30, 31], 30)]),
    );
    review(&mut store, 1, Verdict::Confirm);
    review(&mut store, 2, Verdict::Correct(21));
    review(&mut store, 3, Verdict::Delete);
    review(&mut store, 4, Verdict::Correct(40));
    assert_eq!(get_answer(&store, 1), Some(row(1, 11, true, "g", &[10, 11])));
    assert_eq!(get_answer(&store, 2), Some(row(2, 21, true, "g", &[20, 21])));
    assert_eq!(get_answer(&store, 3), None);
    assert_eq!(get_answer(&store, 4), None);
    let data = get_data(&store);
    assert_eq!(data.len(), 2);
    assert_eq!((data[&1], data[&2]), (11, 21));
    del_question(&mut store, 1);
    del_question(&mut store, 9);
    assert_eq!(get_answer(&store, 1), None);
    assert_eq!(get_data(&store).len(), 1);
}

#[test]
fn key_hash_is_blake2b() {
    let abc = hash_api_key("abc");
    assert_eq!(abc.len(), 64);
    assert_eq!(abc[..8], [186, 128, 165, 63, 152, 28, 77, 13]);
    assert_eq!(abc[60..], [212, 0, 153, 35]);
    let empty = hash_api_key("");
    assert_eq!(empty.len(), 64);
    assert_eq!(empty[..8], [120, 106, 2, 247, 66, 1, 89, 3]);
    assert_eq!(empty[60..], [254, 155, 226, 206]);
    // the key is hashed as UTF-8
    let key = hash_api_key("khóa");
    assert_eq!(key[..8], [15, 176, 155, 122, 222, 137, 226, 60]);
    assert_eq!(key[60..], [241, 44, 165, 51]);
}

#[test]
fn key_from_positions_spells_in_the_alphabet() {
    assert_eq!(ALPHABET_SIZE, 62);
    assert_eq!(key_from_positions(&Vec::new()), "");
    assert_eq!(key_from_positions(&vec![0, 25, 26, 51, 52, 61]), "AZaz09");
    assert_eq!(key_from_positions(&vec![7, 7, 33, 60]), "HHh8");
    let all: Vec<usize> = (0..62).collect();
    assert_eq!(
        key_from_positions(&all),
        "ABCDEFGHIJKLMNOPQRSTUVWXYZabcdefghijklmnopqrstuvwxyz0123456789"
    );
}

#[test]
fn generated_key_has_the_length_asked_for() {
    assert_eq!(generate_api_key(0), "");
    for length in [1u64, 7, 128, 1000] {
        let key = generate_api_key(length);
        assert_eq!(key.chars().count() as u64, length);
        assert!(key.chars().all(|c| c.is_ascii_alphanumeric()));
    }
}

#[test]
fn generated_key_is_found_again() {
    let mut store = KnowledgeStore::new();
    let reader = gen_api_key(&mut store, Some("reads"), false);
    let writer = gen_api_key(&mut store, None, true);
    for key in [&reader, &writer] {
        assert_eq!(key.chars().count(), 128);
        assert!(key.chars().all(|c| c.is_ascii_alphanumeric()));
    }
    assert_ne!(reader, writer);
    assert_eq!(check_api_key_r(&store, &reader), Some((1, Some(String::from("reads")))));
    assert_eq!(check_api_key(&store, &reader), None);
    assert_eq!(check_api_key_r(&store, &writer), Some((2, None)));
    assert_eq!(check_api_key(&store, &writer), Some((2, None)));
    assert_eq!(check_api_key_r(&store, "no such key"), None);
    assert_eq!(check_api_key(&store, ""), None);
}

#[test]
fn generated_keys_use_the_whole_alphabet() {
    let mut store = KnowledgeStore::new();
    let mut seen = std::collections::HashSet::new();
    for _ in 0..20 {
        seen.extend(gen_api_key(&mut store, None, false).chars());
    }
    // 2560 draws from 62 characters miss one of them with a chance below 1e-16
    assert_eq!(seen.len(), 62);
}

#[test]
fn oldest_matching_key_wins() {
    let mut store = KnowledgeStore::new();
    store_api_key(&mut store, "same", Some("first"), false);
    store_api_key(&mut store, "same", Some("second"), true);
    store_api_key(&mut store, "other", None, true);
    assert_eq!(check_api_key_r(&store, "same"), Some((1, Some(String::from("first")))));
    assert_eq!(check_api_key(&store, "same"), Some((2, Some(String::from("second")))));
    assert_eq!(check_api_key(&store, "other"), Some((3, None)));
    assert_eq!(check_api_key(&store, "Same"), None);
}
