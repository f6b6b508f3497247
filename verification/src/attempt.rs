//! One attempt at a test: which choice is picked for each question, what is
//! learnt from the results page, and what the attempt hands to the
//! knowledge store.
//!
//! The caller drives the browser. It tells the attempt what it finds on the
//! page, question by question, and the attempt tells it which inputs to
//! select and which texts to fetch.

use std::collections::HashMap;
use vstd::prelude::*;
use crate::random::random_below;
use crate::models::{guess_map, text_map, GuessModel, JsApiUpload, UnknownQuestion, UploadModel};
use crate::results::{num_list, numbers_in};

verus! {

broadcast use vstd::std_specs::hash::group_hash_axioms;

/// Why an attempt cannot go on.
#[derive(Clone, Copy, Debug, PartialEq, Eq)]
pub enum AttemptError {
    /// A question offers no choice, where one has to be picked.
    NoChoices { question: i32 },
    /// The results page names a position at which this attempt saw no
    /// question.
    BadPosition { position: usize },
}

/// The positions in `choices` at which the choice `a` is offered, in
/// ascending order.
pub open spec fn positions_of(choices: Seq<i32>, a: i32) -> Seq<usize>
    decreases choices.len(),
{
    if choices.len() == 0 {
        Seq::<usize>::empty()
    } else if choices.last() == a {
        positions_of(choices.drop_last(), a).push((choices.len() - 1) as usize)
    } else {
        positions_of(choices.drop_last(), a)
    }
}

/// Every position of [`positions_of`] holds the choice asked for, and the
/// choice is offered exactly if there is such a position.
pub proof fn lemma_positions_of(choices: Seq<i32>, a: i32)
    requires
        choices.len() <= usize::MAX,
    ensures
        forall|k: int|
            0 <= k < positions_of(choices, a).len() ==> 0 <= #[trigger] positions_of(choices, a)[k]
                < choices.len() && choices[positions_of(choices, a)[k] as int] == a,
        choices.contains(a) <==> positions_of(choices, a).len() > 0,
    decreases choices.len(),
{
    if choices.len() > 0 {
        let head = choices.drop_last();
        lemma_positions_of(head, a);
        assert forall|k: int| 0 <= k < positions_of(choices, a).len() implies 0
            <= #[trigger] positions_of(choices, a)[k] < choices.len() && choices[positions_of(
            choices,
            a,
        )[k] as int] == a by {
            if k < positions_of(head, a).len() {
                let p = positions_of(head, a)[k];
                assert(positions_of(choices, a)[k] == p);
                assert(0 <= p < head.len() && head[p as int] == a);
                assert(choices[p as int] == head[p as int]);
            } else {
                assert(choices.last() == a);
                assert(positions_of(choices, a)[k] == choices.len() - 1);
            }
        }
        if choices.contains(a) {
            let i = choose|i: int| 0 <= i < choices.len() && choices[i] == a;
            if i < head.len() {
                assert(head[i] == a);
                assert(head.contains(a));
            }
        }
        if head.contains(a) {
            let i = choose|i: int| 0 <= i < head.len() && head[i] == a;
            assert(choices[i] == a);
        }
        if choices.last() == a {
            assert(choices[choices.len() - 1] == a);
        }
    }
}

/// Whether `p` is the position of one of `count` questions, counted from 1.
pub open spec fn in_range(count: nat, p: usize) -> bool {
    1 <= p <= count
}

/// The first of `positions` that is no position of one of `count`
/// questions.
pub open spec fn first_bad(count: nat, positions: Seq<usize>) -> Option<usize>
    decreases positions.len(),
{
    if positions.len() == 0 {
        None
    } else if !in_range(count, positions[0]) {
        Some(positions[0])
    } else {
        first_bad(count, positions.drop_first())
    }
}

/// The questions at `positions`, where `ids` lists the questions in page
/// order and positions count from 1.
pub open spec fn resolve(ids: Seq<i32>, positions: Seq<usize>) -> Seq<i32> {
    Seq::new(positions.len(), |i: int| ids[positions[i] - 1])
}

/// The questions that the results page names at `positions`.
///
/// Fails on the first position that is zero or beyond the last question.
pub fn resolve_positions(ids: &Vec<i32>, positions: &Vec<usize>) -> (r: Result<
    Vec<i32>,
    AttemptError,
>)
    ensures
        match r {
            Ok(found) => first_bad(ids@.len(), positions@) is None && found@ == resolve(
                ids@,
                positions@,
            ),
            Err(e) => first_bad(ids@.len(), positions@) is Some && e == (AttemptError::BadPosition {
                position: first_bad(ids@.len(), positions@)->0,
            }),
        },
{
    let mut found: Vec<i32> = Vec::new();
    let mut i: usize = 0;
    proof {
        assert(positions@.skip(0) == positions@);
    }
    while i < positions.len()
        invariant
            i <= positions.len(),
            first_bad(ids@.len(), positions@) == first_bad(ids@.len(), positions@.skip(i as int)),
            found@.len() == i,
            forall|k: int| 0 <= k < i ==> #[trigger] found@[k] == ids@[positions@[k] - 1],
        decreases positions.len() - i,
    {
        let p = positions[i];
        proof {
            assert(positions@.skip(i as int)[0] == p);
            assert(positions@.skip(i as int).drop_first() == positions@.skip(i + 1));
        }
        if p == 0 || p > ids.len() {
            return Err(AttemptError::BadPosition { position: p });
        }
        found.push(ids[p - 1]);
        i += 1;
    }
    proof {
        assert(positions@.skip(positions.len() as int).len() == 0);
        assert(found@ =~= resolve(ids@, positions@));
    }
    Ok(found)
}

/// Those of `ids` that are in `keys`, in order.
pub open spec fn those_in(ids: Seq<i32>, keys: Set<i32>) -> Seq<i32>
    decreases ids.len(),
{
    if ids.len() == 0 {
        Seq::<i32>::empty()
    } else if keys.contains(ids.last()) {
        those_in(ids.drop_last(), keys).push(ids.last())
    } else {
        those_in(ids.drop_last(), keys)
    }
}

/// [`those_in`] holds members of `keys` only, and every member of `keys`
/// that `ids` holds.
pub proof fn lemma_those_in(ids: Seq<i32>, keys: Set<i32>)
    ensures
        forall|k: int|
            0 <= k < those_in(ids, keys).len() ==> keys.contains(#[trigger] those_in(ids, keys)[k])
                && ids.contains(those_in(ids, keys)[k]),
        forall|i: int|
            0 <= i < ids.len() && keys.contains(#[trigger] ids[i]) ==> those_in(ids, keys).contains(
                ids[i],
            ),
    decreases ids.len(),
{
    if ids.len() > 0 {
        let head = ids.drop_last();
        let last = ids.last();
        lemma_those_in(head, keys);
        assert forall|k: int| 0 <= k < those_in(ids, keys).len() implies keys.contains(
            #[trigger] those_in(ids, keys)[k],
        ) && ids.contains(those_in(ids, keys)[k]) by {
            if k < those_in(head, keys).len() {
                let x = those_in(head, keys)[k];
                assert(those_in(ids, keys)[k] == x);
                assert(head.contains(x));
                let i = choose|i: int| 0 <= i < head.len() && head[i] == x;
                assert(ids[i] == x);
            } else {
                assert(those_in(ids, keys)[k] == last);
                assert(ids[ids.len() - 1] == last);
            }
        }
        assert forall|i: int| 0 <= i < ids.len() && keys.contains(#[trigger] ids[i]) implies those_in(
            ids,
            keys,
        ).contains(ids[i]) by {
            if i < head.len() {
                assert(head[i] == ids[i]);
                assert(those_in(head, keys).contains(ids[i]));
                let k = choose|k: int|
                    0 <= k < those_in(head, keys).len() && those_in(head, keys)[k] == ids[i];
                assert(those_in(ids, keys)[k] == ids[i]);
            } else {
                let n = those_in(head, keys).len() as int;
                assert(those_in(ids, keys)[n] == last);
            }
        }
    }
}

/// What the results page says of an attempt: the guessed questions that it
/// confirms, and whether it lists any question as answered wrongly.
#[derive(Clone, Debug, PartialEq, Eq)]
pub struct Review {
    pub correct: Vec<i32>,
    pub has_incorrect: bool,
}

/// What an attempt leaves behind: the upload for the knowledge store, the
/// questions to mark as confirmed, if the results page was read, and
/// whether that page listed a wrong answer.
#[derive(Clone, Debug, PartialEq, Eq)]
pub struct Outcome {
    pub upload: JsApiUpload,
    pub correct: Option<Vec<i32>>,
    pub has_incorrect: bool,
}

/// What an attempt has gathered so far.
pub struct AttemptModel {
    /// The answers that the store held when the attempt started, reviewed
    /// or not.
    pub known: Map<i32, i32>,
    /// Whether texts are fetched for known questions too.
    pub force_fetch: bool,
    /// The questions in the order in which the page shows them.
    pub question_ids: Seq<i32>,
    /// The question texts fetched.
    pub question_map: Map<i32, Seq<char>>,
    /// The choice texts fetched.
    pub answer_map: Map<i32, Seq<char>>,
    /// The guesses made for questions that could not be answered from what
    /// is known, and that the results page has not marked as wrong.
    pub unknowns: Map<i32, GuessModel>,
}

impl AttemptModel {
    /// The attempt before the first question.
    pub open spec fn start(known: Map<i32, i32>, force_fetch: bool) -> AttemptModel {
        AttemptModel {
            known,
            force_fetch,
            question_ids: Seq::empty(),
            question_map: Map::empty(),
            answer_map: Map::empty(),
            unknowns: Map::empty(),
        }
    }

    /// Every guess is one of the choices that were offered with it, where
    /// any was offered.
    pub open spec fn wf(self) -> bool {
        forall|q: i32| #[trigger] self.unknowns.contains_key(q) ==> self.unknowns[q].wf()
    }

    /// Whether the text of question `q`, and of its choices, is to be
    /// fetched.
    pub open spec fn wants_text(self, q: i32) -> bool {
        self.force_fetch || !self.known.contains_key(q)
    }

    /// The positions among `choices` of the known answer of question `q`;
    /// empty if none is known or it is not offered.
    pub open spec fn known_positions(self, q: i32, choices: Seq<i32>) -> Seq<usize> {
        if self.known.contains_key(q) {
            positions_of(choices, self.known[q])
        } else {
            Seq::<usize>::empty()
        }
    }

    /// Whether question `q` has to be guessed.
    pub open spec fn is_guess(self, q: i32, choices: Seq<i32>) -> bool {
        self.known_positions(q, choices).len() == 0
    }

    /// The positions of the inputs to select for question `q`: those of the
    /// known answer, or else the position `pick`.
    pub open spec fn clicks(self, q: i32, choices: Seq<i32>, pick: int) -> Seq<usize> {
        if self.is_guess(q, choices) {
            seq![pick as usize]
        } else {
            self.known_positions(q, choices)
        }
    }

    /// The attempt after question `q` with its `choices`: the question is
    /// listed, and where it had to be guessed, the guess `choices[pick]` is
    /// noted with the choices.
    pub open spec fn answered(self, q: i32, choices: Seq<i32>, pick: int) -> AttemptModel {
        AttemptModel {
            question_ids: self.question_ids.push(q),
            unknowns: if self.is_guess(q, choices) {
                self.unknowns.insert(q, GuessModel { answers: choices, answer_used: choices[pick] })
            } else {
                self.unknowns
            },
            ..self
        }
    }

    /// The first position on the results page that names no question of
    /// this attempt: in the list of correct answers, or else in that of
    /// wrong ones.
    pub open spec fn bad_position(self, correct_text: Seq<char>, wrong_text: Seq<char>) -> Option<
        usize,
    > {
        match first_bad(self.question_ids.len(), numbers_in(correct_text)) {
            Some(p) => Some(p),
            None => first_bad(self.question_ids.len(), numbers_in(wrong_text)),
        }
    }

    /// The attempt without the guesses for the questions `wrong`.
    pub open spec fn struck(self, wrong: Seq<i32>) -> AttemptModel {
        AttemptModel { unknowns: self.unknowns.remove_keys(wrong.to_set()), ..self }
    }

    /// The questions that a results page confirms, where it lists the
    /// questions `correct` as answered correctly and the questions `wrong`
    /// as answered wrongly: those of `correct` that were guessed in this
    /// attempt and are not among `wrong`.
    pub open spec fn confirmed(self, correct: Seq<i32>, wrong: Seq<i32>) -> Seq<i32> {
        those_in(correct, self.struck(wrong).unknowns.dom())
    }

    /// The upload that the attempt makes under the group name `title`.
    pub open spec fn upload(self, title: Seq<char>) -> UploadModel {
        UploadModel {
            group: None,
            group_text: title,
            answer_map: self.answer_map,
            question_map: self.question_map,
            unknown_questions: self.unknowns,
        }
    }
}

/// The positions in `choices` at which `a` is offered.
fn find_positions(choices: &Vec<i32>, a: i32) -> (r: Vec<usize>)
    ensures
        r@ == positions_of(choices@, a),
{
    let mut r: Vec<usize> = Vec::new();
    let mut i: usize = 0;
    proof {
        assert(choices@.take(0) == Seq::<i32>::empty());
    }
    while i < choices.len()
        invariant
            i <= choices.len(),
            r@ == positions_of(choices@.take(i as int), a),
        decreases choices.len() - i,
    {
        proof {
            assert(choices@.take(i + 1).drop_last() == choices@.take(i as int));
            assert(choices@.take(i + 1).last() == choices@[i as int]);
        }
        if choices[i] == a {
            r.push(i);
        }
        i += 1;
    }
    proof {
        assert(choices@.take(choices.len() as int) == choices@);
    }
    r
}

/// One attempt at a test, from the first question to the upload.
pub struct Attempt {
    known: HashMap<i32, i32>,
    force_fetch: bool,
    question_ids: Vec<i32>,
    question_map: HashMap<i32, String>,
    answer_map: HashMap<i32, String>,
    unknowns: HashMap<i32, UnknownQuestion>,
}

impl View for Attempt {
    type V = AttemptModel;

    closed spec fn view(&self) -> AttemptModel {
        AttemptModel {
            known: self.known@,
            force_fetch: self.force_fetch,
            question_ids: self.question_ids@,
            question_map: text_map(self.question_map@),
            answer_map: text_map(self.answer_map@),
            unknowns: guess_map(self.unknowns@),
        }
    }
}

impl Attempt {
    /// Every guess noted is one of the choices offered with it.
    pub open spec fn wf(&self) -> bool {
        self@.wf()
    }

    /// An attempt that starts from the known answers `known`: the choice
    /// that the store holds for each question, reviewed or not.
    pub fn new(known: HashMap<i32, i32>, force_fetch: bool) -> (a: Attempt)
        ensures
            a@ == AttemptModel::start(known@, force_fetch),
            a.wf(),
    {
        let a = Attempt {
            known,
            force_fetch,
            question_ids: Vec::new(),
            question_map: HashMap::new(),
            answer_map: HashMap::new(),
            unknowns: HashMap::new(),
        };
        proof {
            assert(text_map(a.question_map@) =~= Map::<i32, Seq<char>>::empty());
            assert(text_map(a.answer_map@) =~= Map::<i32, Seq<char>>::empty());
            assert(guess_map(a.unknowns@) =~= Map::<i32, GuessModel>::empty());
        }
        a
    }

    /// Whether the text of question `q`, and of its choices, is to be
    /// fetched: always when fetching is forced, else for the questions
    /// without a known answer.
    pub fn wants_text(&self, q: i32) -> (r: bool)
        ensures
            r == self@.wants_text(q),
    {
        self.force_fetch || !self.known.contains_key(&q)
    }

    /// Notes the text of question `q`.
    pub fn record_question_text(&mut self, q: i32, text: String)
        ensures
            final(self)@ == (AttemptModel {
                question_map: old(self)@.question_map.insert(q, text@),
                ..old(self)@
            }),
    {
        self.question_map.insert(q, text);
        proof {
            assert(text_map(self.question_map@) =~= text_map(old(self).question_map@).insert(
                q,
                text@,
            ));
        }
    }

    /// Notes the text of the choice `a`.
    pub fn record_answer_text(&mut self, a: i32, text: String)
        ensures
            final(self)@ == (AttemptModel {
                answer_map: old(self)@.answer_map.insert(a, text@),
                ..old(self)@
            }),
    {
        self.answer_map.insert(a, text);
        proof {
            assert(text_map(self.answer_map@) =~= text_map(old(self).answer_map@).insert(a, text@));
        }
    }

    /// Answers question `q`, which offers `choices`, with `pick` as the
    /// position to guess at where the answer is not known.
    ///
    /// Returns the positions of the inputs to select. Where a known answer
    /// is among the choices, these are its positions and nothing is
    /// guessed. Otherwise the choice at `pick` is selected and noted as the
    /// guess. A question without choices cannot be answered.
    pub fn answer_question_with(&mut self, q: i32, choices: Vec<i32>, pick: usize) -> (r: Result<
        Vec<usize>,
        AttemptError,
    >)
        requires
            old(self).wf(),
            choices.len() > 0 ==> pick < choices.len(),
        ensures
            final(self).wf(),
            match r {
                Ok(clicks) => {
                    &&& choices.len() > 0
                    &&& clicks@ == old(self)@.clicks(q, choices@, pick as int)
                    &&& final(self)@ == old(self)@.answered(q, choices@, pick as int)
                },
                Err(e) => {
                    &&& choices.len() == 0
                    &&& e == (AttemptError::NoChoices { question: q })
                    &&& final(self)@ == old(self)@
                },
            },
    {
        if choices.len() == 0 {
            return Err(AttemptError::NoChoices { question: q });
        }
        let found: Vec<usize> = match self.known.get(&q) {
            Some(a) => find_positions(&choices, *a),
            None => Vec::new(),
        };
        assert(found@ == old(self)@.known_positions(q, choices@));
        self.question_ids.push(q);
        if found.len() > 0 {
            assert(self@.unknowns == old(self)@.unknowns);
            Ok(found)
        } else {
            let used = choices[pick];
            let ghost guess = GuessModel { answers: choices@, answer_used: used };
            let ghost before = guess_map(self.unknowns@);
            self.unknowns.insert(q, UnknownQuestion { answers: choices, answer_used: used });
            proof {
                assert(guess_map(self.unknowns@) =~= before.insert(q, guess));
                assert(guess.answers[pick as int] == used);
                assert(guess.wf());
                assert(before == old(self)@.unknowns);
                assert forall|k: i32| #[trigger]
                    self@.unknowns.contains_key(k) implies self@.unknowns[k].wf() by {
                    if k != q {
                        assert(old(self)@.unknowns.contains_key(k));
                    }
                }
            }
            let mut clicks: Vec<usize> = Vec::new();
            clicks.push(pick);
            assert(clicks@ == seq![pick]);
            Ok(clicks)
        }
    }

    /// Answers question `q`, which offers `choices`, guessing at random
    /// where the answer is not known: [`Attempt::answer_question_with`]
    /// with a position drawn uniformly from those of `choices`.
    pub fn answer_question(&mut self, q: i32, choices: Vec<i32>) -> (r: Result<
        Vec<usize>,
        AttemptError,
    >)
        requires
            old(self).wf(),
        ensures
            final(self).wf(),
            match r {
                Ok(clicks) => {
                    &&& choices.len() > 0
                    &&& exists|pick: int|
                        {
                            &&& 0 <= pick < choices.len()
                            &&& clicks@ == #[trigger] old(self)@.clicks(q, choices@, pick)
                            &&& final(self)@ == old(self)@.answered(q, choices@, pick)
                        }
                },
                Err(e) => {
                    &&& choices.len() == 0
                    &&& e == (AttemptError::NoChoices { question: q })
                    &&& final(self)@ == old(self)@
                },
            },
    {
        let pick: usize = if choices.len() > 0 {
            random_below(choices.len())
        } else {
            0
        };
        let ghost offered = choices@;
        let r = self.answer_question_with(q, choices, pick);
        proof {
            if r is Ok {
                assert(r->Ok_0@ == old(self)@.clicks(q, offered, pick as int));
            }
        }
        r
    }

    /// Takes in the two position lists of the results page: the text that
    /// lists the questions answered correctly, and the text that lists
    /// those answered wrongly.
    ///
    /// The guesses for the questions listed as wrong are dropped, so that
    /// they are not stored. Of the questions listed as correct, those whose
    /// guess is still noted are returned as confirmed; a question that was
    /// answered with the choice that the store holds is not among them. A
    /// position that names no question of this attempt fails the whole step
    /// and changes nothing.
    pub fn harvest(&mut self, correct_text: &str, wrong_text: &str) -> (r: Result<
        Review,
        AttemptError,
    >)
        requires
            old(self).wf(),
        ensures
            final(self).wf(),
            match r {
                Ok(review) => {
                    &&& old(self)@.bad_position(correct_text@, wrong_text@) is None
                    &&& review.correct@ == old(self)@.confirmed(
                        resolve(old(self)@.question_ids, numbers_in(correct_text@)),
                        resolve(old(self)@.question_ids, numbers_in(wrong_text@)),
                    )
                    &&& review.has_incorrect == (numbers_in(wrong_text@).len() > 0)
                    &&& final(self)@ == old(self)@.struck(
                        resolve(old(self)@.question_ids, numbers_in(wrong_text@)),
                    )
                },
                Err(e) => {
                    &&& old(self)@.bad_position(correct_text@, wrong_text@) is Some
                    &&& e == (AttemptError::BadPosition {
                        position: old(self)@.bad_position(correct_text@, wrong_text@)->0,
                    })
                    &&& final(self)@ == old(self)@
                },
            },
    {
        let correct_positions = num_list(correct_text);
        let wrong_positions = num_list(wrong_text);
        let correct = match resolve_positions(&self.question_ids, &correct_positions) {
            Ok(found) => found,
            Err(e) => {
                return Err(e);
            },
        };
        let wrong = match resolve_positions(&self.question_ids, &wrong_positions) {
            Ok(found) => found,
            Err(e) => {
                return Err(e);
            },
        };
        let ghost start = guess_map(self.unknowns@);
        let mut i: usize = 0;
        proof {
            assert(wrong@.take(0).to_set() =~= Set::<i32>::empty());
            assert(start.remove_keys(Set::<i32>::empty()) =~= start);
        }
        while i < wrong.len()
            invariant
                i <= wrong.len(),
                start == old(self)@.unknowns,
                guess_map(self.unknowns@) == start.remove_keys(wrong@.take(i as int).to_set()),
                self.known == old(self).known,
                self.force_fetch == old(self).force_fetch,
                self.question_ids == old(self).question_ids,
                self.question_map == old(self).question_map,
                self.answer_map == old(self).answer_map,
            decreases wrong.len() - i,
        {
            let w = wrong[i];
            let ghost before = self.unknowns@;
            self.unknowns.remove(&w);
            proof {
                let done = wrong@.take(i as int).to_set();
                assert(self.unknowns@ == before.remove(w));
                assert(guess_map(before.remove(w)) =~= guess_map(before).remove(w));
                assert(wrong@.take(i + 1) == wrong@.take(i as int).push(w));
                wrong@.take(i as int).lemma_push_to_set_commute(w);
                assert(start.remove_keys(done).remove(w) =~= start.remove_keys(done.insert(w)));
            }
            i += 1;
        }
        proof {
            assert(wrong@.take(wrong.len() as int) == wrong@);
            assert forall|k: i32| #[trigger]
                self@.unknowns.contains_key(k) implies self@.unknowns[k].wf() by {
                assert(old(self)@.unknowns.contains_key(k));
            }
        }
        let ghost left = guess_map(self.unknowns@).dom();
        let mut confirmed: Vec<i32> = Vec::new();
        let mut j: usize = 0;
        proof {
            assert(correct@.take(0) == Seq::<i32>::empty());
        }
        while j < correct.len()
            invariant
                j <= correct.len(),
                left == guess_map(self.unknowns@).dom(),
                confirmed@ == those_in(correct@.take(j as int), left),
            decreases correct.len() - j,
        {
            let q = correct[j];
            proof {
                assert(correct@.take(j + 1).drop_last() == correct@.take(j as int));
                assert(correct@.take(j + 1).last() == q);
                assert(left.contains(q) == self.unknowns@.contains_key(q));
            }
            if self.unknowns.contains_key(&q) {
                confirmed.push(q);
            }
            j += 1;
        }
        proof {
            assert(correct@.take(correct.len() as int) == correct@);
        }
        Ok(Review { correct: confirmed, has_incorrect: wrong_positions.len() > 0 })
    }

    /// Ends the attempt: the upload under the group name `title`, with the
    /// guesses that were not struck, and what the results page said, if it
    /// was read.
    pub fn finish(self, title: String, review: Option<Review>) -> (r: Outcome)
        ensures
            r.upload@ == self@.upload(title@),
            self.wf() ==> r.upload@.wf(),
            match review {
                Some(seen) => r.correct == Some(seen.correct) && r.has_incorrect
                    == seen.has_incorrect,
                None => r.correct is None && !r.has_incorrect,
            },
    {
        let upload = JsApiUpload {
            group: None,
            group_text: title,
            answer_map: self.answer_map,
            question_map: self.question_map,
            unknown_questions: self.unknowns,
        };
        match review {
            Some(seen) => Outcome {
                upload,
                correct: Some(seen.correct),
                has_incorrect: seen.has_incorrect,
            },
            None => Outcome { upload, correct: None, has_incorrect: false },
        }
    }
}

} // verus!
