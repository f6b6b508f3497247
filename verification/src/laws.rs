//! What holds of the attempt and the store together, whatever the page
//! shows and whatever is guessed.

use vstd::prelude::*;
use crate::attempt::{lemma_positions_of, lemma_those_in, AttemptModel};
use crate::models::UploadModel;
use crate::actions::StoreModel;

verus! {

/// A question with a confirmed answer is answered with that answer, never
/// with a guess, whenever the answer is among the choices offered.
///
/// For an attempt that starts from the known answers of `store`, the
/// inputs selected for `q` are the same whatever `pick` is; there is at
/// least one; each of them offers the confirmed answer; and no guess is
/// noted.
pub proof fn lemma_confirmed_answer_is_selected(
    store: StoreModel,
    attempt: AttemptModel,
    q: i32,
    choices: Seq<i32>,
    pick: int,
)
    requires
        store.answers.contains_key(q),
        store.answers[q].reviewed,
        attempt.known == store.known(),
        choices.contains(store.answers[q].answer_used),
        choices.len() <= usize::MAX,
    ensures
        attempt.clicks(q, choices, pick).len() > 0,
        forall|other: int| attempt.clicks(q, choices, other) == attempt.clicks(q, choices, pick),
        forall|k: int|
            0 <= k < attempt.clicks(q, choices, pick).len() ==> 0 <= #[trigger] attempt.clicks(
                q,
                choices,
                pick,
            )[k] < choices.len() && choices[attempt.clicks(q, choices, pick)[k] as int]
                == store.answers[q].answer_used,
        attempt.answered(q, choices, pick).unknowns == attempt.unknowns,
{
    lemma_stored_answer_is_selected(store, attempt, q, choices, pick);
}

/// A question with a stored answer, reviewed or not, is answered with that
/// answer, never with a guess, whenever the answer is among the choices
/// offered: what [`lemma_confirmed_answer_is_selected`] says of the
/// confirmed answers holds of every row.
pub proof fn lemma_stored_answer_is_selected(
    store: StoreModel,
    attempt: AttemptModel,
    q: i32,
    choices: Seq<i32>,
    pick: int,
)
    requires
        store.answers.contains_key(q),
        attempt.known == store.known(),
        choices.contains(store.answers[q].answer_used),
        choices.len() <= usize::MAX,
    ensures
        attempt.clicks(q, choices, pick).len() > 0,
        forall|other: int| attempt.clicks(q, choices, other) == attempt.clicks(q, choices, pick),
        forall|k: int|
            0 <= k < attempt.clicks(q, choices, pick).len() ==> 0 <= #[trigger] attempt.clicks(
                q,
                choices,
                pick,
            )[k] < choices.len() && choices[attempt.clicks(q, choices, pick)[k] as int]
                == store.answers[q].answer_used,
        attempt.answered(q, choices, pick).unknowns == attempt.unknowns,
{
    assert(attempt.known.contains_key(q));
    assert(attempt.known[q] == store.answers[q].answer_used);
    lemma_positions_of(choices, attempt.known[q]);
}

/// A question without a known answer is answered with one of the choices
/// that it offers: the one at the position picked, which is noted as the
/// guess together with the choices.
pub proof fn lemma_guess_is_an_offered_choice(
    attempt: AttemptModel,
    q: i32,
    choices: Seq<i32>,
    pick: int,
)
    requires
        !attempt.known.contains_key(q),
        0 <= pick < choices.len(),
        choices.len() <= usize::MAX,
    ensures
        attempt.clicks(q, choices, pick) == seq![pick as usize],
        attempt.answered(q, choices, pick).unknowns.contains_key(q),
        attempt.answered(q, choices, pick).unknowns[q].answer_used == choices[pick],
        attempt.answered(q, choices, pick).unknowns[q].answers == choices,
        choices.contains(attempt.answered(q, choices, pick).unknowns[q].answer_used),
{
}

/// A guess does not touch a confirmed answer: after any upload, the row of
/// a question that was reviewed is the row that it was.
pub proof fn lemma_guess_keeps_confirmed(store: StoreModel, up: UploadModel, q: i32)
    requires
        store.answers.contains_key(q),
        store.answers[q].reviewed,
    ensures
        store.uploaded(up).answers.contains_key(q),
        store.uploaded(up).answers[q] == store.answers[q],
        store.uploaded(up).known().contains_key(q),
        store.uploaded(up).known()[q] == store.known()[q],
{
}

/// A question that is confirmed right after its guess was uploaded is
/// reviewed with the guessed choice, unless the store held another choice
/// for it as confirmed before.
pub proof fn lemma_confirmation_marks_guess(
    store: StoreModel,
    up: UploadModel,
    ids: Set<i32>,
    q: i32,
)
    requires
        up.unknown_questions.contains_key(q),
        ids.contains(q),
        store.answers.contains_key(q) && store.answers[q].reviewed ==> store.answers[q].answer_used
            == up.unknown_questions[q].answer_used,
    ensures
        store.uploaded(up).reviewed(ids).answers.contains_key(q),
        store.uploaded(up).reviewed(ids).answers[q].reviewed,
        store.uploaded(up).reviewed(ids).answers[q].answer_used
            == up.unknown_questions[q].answer_used,
        store.uploaded(up).reviewed(ids).known().contains_key(q),
        store.uploaded(up).reviewed(ids).known()[q] == up.unknown_questions[q].answer_used,
{
}

/// A question that the results page of an attempt confirms is stored as
/// reviewed with the choice that was used for it in that attempt, once the
/// upload of the attempt is taken in and its confirmed questions are marked;
/// unless the store held another choice for it as confirmed before.
pub proof fn lemma_confirmed_question_holds_its_guess(
    store: StoreModel,
    attempt: AttemptModel,
    title: Seq<char>,
    correct: Seq<i32>,
    wrong: Seq<i32>,
    k: int,
)
    requires
        0 <= k < attempt.confirmed(correct, wrong).len(),
        ({
            let q = attempt.confirmed(correct, wrong)[k];
            store.answers.contains_key(q) && store.answers[q].reviewed && attempt.unknowns.contains_key(q)
                ==> store.answers[q].answer_used == attempt.unknowns[q].answer_used
        }),
    ensures
        ({
            let q = attempt.confirmed(correct, wrong)[k];
            let after = store.uploaded(attempt.struck(wrong).upload(title)).reviewed(
                attempt.confirmed(correct, wrong).to_set(),
            );
            &&& attempt.unknowns.contains_key(q)
            &&& after.answers.contains_key(q)
            &&& after.answers[q].reviewed
            &&& after.answers[q].answer_used == attempt.unknowns[q].answer_used
        }),
{
    let confirmed = attempt.confirmed(correct, wrong);
    let q = confirmed[k];
    let up = attempt.struck(wrong).upload(title);
    lemma_those_in(correct, attempt.struck(wrong).unknowns.dom());
    assert(attempt.struck(wrong).unknowns.contains_key(q));
    assert(up.unknown_questions.contains_key(q));
    assert(up.unknown_questions[q] == attempt.unknowns[q]);
    assert(confirmed.to_set().contains(q));
    lemma_confirmation_marks_guess(store, up, confirmed.to_set(), q);
}

/// A question that the results page lists as answered wrongly is neither
/// confirmed nor uploaded by the attempt: the row that the store has for
/// it, if any, stays as it is.
pub proof fn lemma_wrong_question_is_left_alone(
    store: StoreModel,
    attempt: AttemptModel,
    title: Seq<char>,
    correct: Seq<i32>,
    wrong: Seq<i32>,
    q: i32,
)
    requires
        wrong.contains(q),
    ensures
        !attempt.confirmed(correct, wrong).contains(q),
        !attempt.struck(wrong).upload(title).unknown_questions.contains_key(q),
        ({
            let after = store.uploaded(attempt.struck(wrong).upload(title)).reviewed(
                attempt.confirmed(correct, wrong).to_set(),
            );
            after.row(q) == store.row(q)
        }),
{
    let confirmed = attempt.confirmed(correct, wrong);
    lemma_those_in(correct, attempt.struck(wrong).unknowns.dom());
    assert(wrong.to_set().contains(q));
    assert(!attempt.struck(wrong).unknowns.contains_key(q));
    if confirmed.contains(q) {
        let k = choose|k: int| 0 <= k < confirmed.len() && confirmed[k] == q;
        assert(attempt.struck(wrong).unknowns.dom().contains(confirmed[k]));
    }
    assert(!confirmed.to_set().contains(q));
}

/// Confirming changes the reviewed flag only: a confirmed question keeps
/// the choice, the group and the offered choices of its row, and the rows
/// of all other questions stay as they are.
pub proof fn lemma_confirmation_keeps_rows(store: StoreModel, ids: Set<i32>, q: i32)
    requires
        store.answers.contains_key(q),
    ensures
        store.reviewed(ids).answers.contains_key(q),
        store.reviewed(ids).answers[q].answer_used == store.answers[q].answer_used,
        store.reviewed(ids).answers[q].valid_answers == store.answers[q].valid_answers,
        store.reviewed(ids).answers[q].test == store.answers[q].test,
        store.reviewed(ids).answers[q].reviewed == (ids.contains(q) || store.answers[q].reviewed),
        !ids.contains(q) ==> store.reviewed(ids).answers[q] == store.answers[q],
{
}

} // verus!
