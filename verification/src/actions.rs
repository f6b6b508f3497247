//! The knowledge store and the actions on it: what is believed of each
//! question, the texts of questions and choices, the rules by which guesses
//! and confirmations change them, and the keys that open the store.
//!
//! A guess never replaces a confirmed answer. Only a confirmation marks an
//! answer as reviewed.

use blake2::{Blake2b, Digest};
use std::collections::HashMap;
use vstd::prelude::*;
use vstd::std_specs::iter::IteratorSpec;
use vstd::string::StringSliceAdditionalSpecFns;
use vstd::utf8::encode_utf8;
use crate::models::{
    guess_map, text_map, Answer, AnswerModel, ApiKey, ApiKeyModel, GuessModel, JsApiUpload,
    UnknownQuestion, UploadModel,
};
use crate::random::random_below;
use crate::text::{chars_of, push_char};

verus! {

broadcast use vstd::std_specs::hash::group_hash_axioms;

/// The mathematical content of a [`KnowledgeStore`].
pub struct StoreModel {
    /// What is believed of each question.
    pub answers: Map<i32, AnswerModel>,
    /// The text of each question.
    pub question_strings: Map<i32, Seq<char>>,
    /// The text of each answer choice.
    pub answer_strings: Map<i32, Seq<char>>,
    /// The names of the test groups.
    pub groups: Set<Seq<char>>,
    /// The API keys, oldest first.
    pub api_keys: Seq<ApiKeyModel>,
}

/// The row that stands for question `q` once the guess `guess`, made in the
/// test group `test`, was handed in: a confirmed row stays as it is, and
/// anything else gives way to the guess, unreviewed.
pub open spec fn merged(existing: Option<AnswerModel>, q: i32, guess: GuessModel, test: Seq<char>)
    -> AnswerModel {
    match existing {
        Some(row) if row.reviewed => row,
        _ => AnswerModel {
            question_id: q,
            answer_used: guess.answer_used,
            reviewed: false,
            test,
            valid_answers: guess.answers,
        },
    }
}

/// The row `row` once it is confirmed.
pub open spec fn confirmed_row(row: AnswerModel) -> AnswerModel {
    AnswerModel { reviewed: true, ..row }
}

/// The rows of a table of answers.
pub open spec fn answer_rows(m: Map<i32, Answer>) -> Map<i32, AnswerModel> {
    m.map_values(|a: Answer| a@)
}

impl StoreModel {
    /// A store without a row.
    pub open spec fn empty() -> StoreModel {
        StoreModel {
            answers: Map::empty(),
            question_strings: Map::empty(),
            answer_strings: Map::empty(),
            groups: Set::empty(),
            api_keys: Seq::empty(),
        }
    }

    /// Every row is filed under its own question, and the keys are
    /// numbered from 1 in the order in which they were made.
    pub open spec fn wf(self) -> bool {
        &&& forall|q: i32| #[trigger]
            self.answers.contains_key(q) ==> self.answers[q].question_id == q
        &&& forall|i: int| 0 <= i < self.api_keys.len() ==> (#[trigger] self.api_keys[i]).id == i + 1
    }

    /// In every row the choice in use is one of the offered choices,
    /// whenever any was recorded.
    pub open spec fn rows_wf(self) -> bool {
        forall|q: i32| #[trigger] self.answers.contains_key(q) ==> self.answers[q].wf()
    }

    /// The row of question `q`, if there is one.
    pub open spec fn row(self, q: i32) -> Option<AnswerModel> {
        if self.answers.contains_key(q) {
            Some(self.answers[q])
        } else {
            None
        }
    }

    /// The known answers: for each question with a row, reviewed or not,
    /// the choice that the row holds.
    pub open spec fn known(self) -> Map<i32, i32> {
        Map::new(|q: i32| self.answers.contains_key(q), |q: i32| self.answers[q].answer_used)
    }

    /// The store after the upload `up`: its texts are filed, later ones
    /// replacing earlier ones; its group is listed; and each of its
    /// guesses is merged into the rows as [`merged`] says.
    pub open spec fn uploaded(self, up: UploadModel) -> StoreModel {
        StoreModel {
            answer_strings: self.answer_strings.union_prefer_right(up.answer_map),
            question_strings: self.question_strings.union_prefer_right(up.question_map),
            groups: self.groups.insert(up.group_text),
            answers: Map::new(
                |q: i32| self.answers.contains_key(q) || up.unknown_questions.contains_key(q),
                |q: i32|
                    if up.unknown_questions.contains_key(q) {
                        merged(self.row(q), q, up.unknown_questions[q], up.group_text)
                    } else {
                        self.answers[q]
                    },
            ),
            api_keys: self.api_keys,
        }
    }

    /// The store after the questions `ids` are confirmed: each of them that
    /// has a row has it marked as reviewed, and nothing else changes.
    pub open spec fn reviewed(self, ids: Set<i32>) -> StoreModel {
        StoreModel {
            answers: Map::new(
                |q: i32| self.answers.contains_key(q),
                |q: i32|
                    if ids.contains(q) {
                        confirmed_row(self.answers[q])
                    } else {
                        self.answers[q]
                    },
            ),
            ..self
        }
    }
}

/// What a person decides of one unreviewed answer.
#[derive(Clone, Copy, Debug, PartialEq, Eq, Structural)]
pub enum Verdict {
    /// The choice in use is the right one.
    Confirm,
    /// The right choice is this one.
    Correct(i32),
    /// The row is to go.
    Delete,
}

impl StoreModel {
    /// The store after a person decided `verdict` of question `q`: the
    /// row is confirmed as it is, or confirmed with the choice that the
    /// person names, or deleted. A question without a row stays without.
    pub open spec fn judged(self, q: i32, verdict: Verdict) -> StoreModel {
        if !self.answers.contains_key(q) {
            self
        } else {
            match verdict {
                Verdict::Confirm => StoreModel {
                    answers: self.answers.insert(q, confirmed_row(self.answers[q])),
                    ..self
                },
                Verdict::Correct(a) => StoreModel {
                    answers: self.answers.insert(
                        q,
                        AnswerModel { answer_used: a, reviewed: true, ..self.answers[q] },
                    ),
                    ..self
                },
                Verdict::Delete => StoreModel { answers: self.answers.remove(q), ..self },
            }
        }
    }
}

/// Whether the verdict names a choice that the row of `q` allows: any
/// choice where the row lists none, and a listed one otherwise.
pub open spec fn verdict_fits(store: StoreModel, q: i32, verdict: Verdict) -> bool {
    match verdict {
        Verdict::Correct(a) => store.answers.contains_key(q) ==> (AnswerModel {
            answer_used: a,
            ..store.answers[q]
        }).wf(),
        _ => true,
    }
}

/// Rows whose choice in use is one of their offered choices stay so under
/// an upload whose guesses are among their offered choices.
pub proof fn lemma_upload_keeps_rows_well_formed(store: StoreModel, up: UploadModel)
    requires
        store.rows_wf(),
        up.wf(),
    ensures
        store.uploaded(up).rows_wf(),
{
    assert forall|k: i32| #[trigger] store.uploaded(up).answers.contains_key(k) implies store.uploaded(
        up,
    ).answers[k].wf() by {
        if up.unknown_questions.contains_key(k) {
            assert(up.unknown_questions[k].wf());
        }
        if store.answers.contains_key(k) {
            assert(store.answers[k].wf());
        }
    }
}

/// Rows whose choice in use is one of their offered choices stay so under
/// confirmations.
pub proof fn lemma_confirmation_keeps_rows_well_formed(store: StoreModel, ids: Set<i32>)
    requires
        store.rows_wf(),
    ensures
        store.reviewed(ids).rows_wf(),
{
    assert forall|k: i32| #[trigger] store.reviewed(ids).answers.contains_key(k) implies store.reviewed(
        ids,
    ).answers[k].wf() by {
        assert(store.answers[k].wf());
    }
}

/// Rows whose choice in use is one of their offered choices stay so under
/// a verdict that names an offered choice.
pub proof fn lemma_verdict_keeps_rows_well_formed(store: StoreModel, q: i32, verdict: Verdict)
    requires
        store.rows_wf(),
        verdict_fits(store, q, verdict),
    ensures
        store.judged(q, verdict).rows_wf(),
{
    assert forall|k: i32| #[trigger] store.judged(q, verdict).answers.contains_key(
        k,
    ) implies store.judged(q, verdict).answers[k].wf() by {
        assert(store.answers.contains_key(k));
        assert(store.answers[k].wf());
    }
}

/// The knowledge that the attempts share.
pub struct KnowledgeStore {
    answers: HashMap<i32, Answer>,
    question_strings: HashMap<i32, String>,
    answer_strings: HashMap<i32, String>,
    groups: Vec<String>,
    api_keys: Vec<ApiKey>,
}

/// The keys of a list.
pub open spec fn key_views(keys: Seq<ApiKey>) -> Seq<ApiKeyModel> {
    Seq::new(keys.len(), |i: int| keys[i]@)
}

/// The names in `groups`.
pub open spec fn group_names(groups: Seq<String>) -> Set<Seq<char>> {
    Set::new(|name: Seq<char>| exists|i: int| 0 <= i < groups.len() && #[trigger] groups[i]@ == name)
}

impl View for KnowledgeStore {
    type V = StoreModel;

    closed spec fn view(&self) -> StoreModel {
        StoreModel {
            answers: answer_rows(self.answers@),
            question_strings: text_map(self.question_strings@),
            answer_strings: text_map(self.answer_strings@),
            groups: group_names(self.groups@),
            api_keys: key_views(self.api_keys@),
        }
    }
}

impl KnowledgeStore {
    /// Every row is filed under its own question, and the keys are
    /// numbered from 1.
    pub open spec fn wf(&self) -> bool {
        self@.wf()
    }

    /// A store without a row.
    pub fn new() -> (s: KnowledgeStore)
        ensures
            s@ == StoreModel::empty(),
            s.wf(),
    {
        let s = KnowledgeStore {
            answers: HashMap::new(),
            question_strings: HashMap::new(),
            answer_strings: HashMap::new(),
            groups: Vec::new(),
            api_keys: Vec::new(),
        };
        proof {
            assert(key_views(s.api_keys@) =~= Seq::<ApiKeyModel>::empty());
            assert(answer_rows(s.answers@) =~= Map::<i32, AnswerModel>::empty());
            assert(text_map(s.question_strings@) =~= Map::<i32, Seq<char>>::empty());
            assert(text_map(s.answer_strings@) =~= Map::<i32, Seq<char>>::empty());
            assert(group_names(s.groups@) =~= Set::<Seq<char>>::empty());
        }
        s
    }
}

/// Whether one of the first `n` entries of `items` has the key `q`.
spec fn seen<V>(items: Seq<(&i32, &V)>, n: int, q: i32) -> bool {
    exists|k: int| 0 <= k < n && *(#[trigger] items[k]).0 == q
}

/// The keys seen after one more entry are those seen before and the key of
/// that entry.
proof fn lemma_seen_next<V>(items: Seq<(&i32, &V)>, k: int)
    requires
        0 <= k < items.len(),
    ensures
        forall|x: i32| seen(items, k + 1, x) <==> (x == *items[k].0 || seen(items, k, x)),
{
    assert forall|x: i32| seen(items, k + 1, x) <==> (x == *items[k].0 || seen(items, k, x)) by {
        if seen(items, k + 1, x) {
            let j = choose|j: int| 0 <= j < k + 1 && *(#[trigger] items[j]).0 == x;
            if j < k {
                assert(seen(items, k, x));
            }
        }
        if seen(items, k, x) {
            let j = choose|j: int| 0 <= j < k && *(#[trigger] items[j]).0 == x;
            assert(0 <= j < k + 1 && *items[j].0 == x);
        }
        if x == *items[k].0 {
            assert(*items[k].0 == x);
        }
    }
}

/// Where `items` are the entries of the table `m`, the keys seen after all
/// of them are the keys of `m`, and the keys seen on the way are among them.
proof fn lemma_seen_all<V>(m: Map<i32, V>, items: Seq<(&i32, &V)>)
    requires
        forall|i: int|
            0 <= i < items.len() ==> m.contains_key(*(#[trigger] items[i]).0) && m[*items[i].0]
                == *items[i].1,
        forall|q: i32| #[trigger] m.contains_key(q) ==> items.contains((&q, &m[q])),
    ensures
        forall|q: i32| m.contains_key(q) <==> seen(items, items.len() as int, q),
        forall|q: i32, n: int| 0 <= n <= items.len() && seen(items, n, q) ==> m.contains_key(q),
{
    assert forall|q: i32| m.contains_key(q) <==> seen(items, items.len() as int, q) by {
        if m.contains_key(q) {
            assert(items.contains((&q, &m[q])));
            let k = choose|k: int| 0 <= k < items.len() && items[k] == (&q, &m[q]);
            assert(*items[k].0 == q);
        }
        if seen(items, items.len() as int, q) {
            let j = choose|j: int| 0 <= j < items.len() && *(#[trigger] items[j]).0 == q;
            assert(m.contains_key(*items[j].0));
        }
    }
    assert forall|q: i32, n: int| 0 <= n <= items.len() && seen(items, n, q) implies m.contains_key(
        q,
    ) by {
        let j = choose|j: int| 0 <= j < n && *(#[trigger] items[j]).0 == q;
        assert(m.contains_key(*items[j].0));
    }
}

/// The known answers of the store: for each question that has a row,
/// reviewed or not, the choice that the row holds.
pub fn get_data(store: &KnowledgeStore) -> (r: HashMap<i32, i32>)
    ensures
        r@ == store@.known(),
{
    let mut r: HashMap<i32, i32> = HashMap::new();
    let ghost rows = store.answers@;
    for pair in iter: store.answers.iter()
        invariant
            rows == store.answers@,
            iter.seq() == store.answers.iter().remaining(),
            forall|q: i32| #[trigger] r@.contains_key(q) <==> seen(iter.seq(), iter.index(), q),
            forall|q: i32| #[trigger] r@.contains_key(q) ==> rows.contains_key(q) && r@[q]
                == rows[q].answer_used,
    {
        let (q, row) = pair;
        proof {
            let k = iter.index();
            assert(iter.seq()[k] == pair);
            assert(rows.contains_key(*iter.seq()[k].0) && rows[*iter.seq()[k].0] == *iter.seq()[k].1);
            lemma_seen_next(iter.seq(), k);
        }
        r.insert(*q, row.answer_used);
    }
    proof {
        lemma_seen_all(rows, store.answers.iter().remaining());
        assert(r@ =~= store@.known());
    }
    r
}

/// Files the texts of `src` in `dst`: a text of `src` replaces the one that
/// `dst` has under the same identifier.
fn merge_texts(dst: &mut HashMap<i32, String>, src: &HashMap<i32, String>)
    ensures
        text_map(final(dst)@) == text_map(old(dst)@).union_prefer_right(text_map(src@)),
{
    let ghost start = dst@;
    for pair in iter: src.iter()
        invariant
            iter.seq() == src.iter().remaining(),
            forall|q: i32| #[trigger]
                dst@.contains_key(q) <==> (start.contains_key(q) || seen(
                    iter.seq(),
                    iter.index(),
                    q,
                )),
            forall|q: i32| #[trigger]
                dst@.contains_key(q) ==> dst@[q]@ == (if seen(iter.seq(), iter.index(), q) {
                    src@[q]@
                } else {
                    start[q]@
                }),
    {
        let (q, text) = pair;
        proof {
            let k = iter.index();
            assert(iter.seq()[k] == pair);
            assert(src@.contains_key(*iter.seq()[k].0) && src@[*iter.seq()[k].0] == *iter.seq()[k].1);
            lemma_seen_next(iter.seq(), k);
            lemma_seen_all(src@, iter.seq());
        }
        dst.insert(*q, text.clone());
    }
    proof {
        lemma_seen_all(src@, src.iter().remaining());
        assert(text_map(dst@) =~= text_map(start).union_prefer_right(text_map(src@)));
    }
}

/// The text stored for the answer choice `id`, if there is one.
pub fn get_answer_string(store: &KnowledgeStore, id: i32) -> (r: Option<String>)
    ensures
        match r {
            Some(text) => store@.answer_strings.contains_key(id) && text@
                == store@.answer_strings[id],
            None => !store@.answer_strings.contains_key(id),
        },
{
    match store.answer_strings.get(&id) {
        Some(text) => Some(text.clone()),
        None => None,
    }
}

/// The text stored for the question `id`, if there is one.
pub fn get_question_string(store: &KnowledgeStore, id: i32) -> (r: Option<String>)
    ensures
        match r {
            Some(text) => store@.question_strings.contains_key(id) && text@
                == store@.question_strings[id],
            None => !store@.question_strings.contains_key(id),
        },
{
    match store.question_strings.get(&id) {
        Some(text) => Some(text.clone()),
        None => None,
    }
}

/// Lists the group `name`, unless it is listed already.
fn add_group(groups: &mut Vec<String>, name: &String)
    ensures
        group_names(final(groups)@) == group_names(old(groups)@).insert(name@),
{
    let mut i: usize = 0;
    while i < groups.len()
        invariant
            i <= groups.len(),
            groups@ == old(groups)@,
            forall|k: int| 0 <= k < i ==> (#[trigger] groups@[k])@ != name@,
        decreases groups.len() - i,
    {
        if groups[i] == *name {
            proof {
                assert(groups@[i as int]@ == name@);
                assert(group_names(groups@) =~= group_names(groups@).insert(name@));
            }
            return ;
        }
        i += 1;
    }
    let ghost before = groups@;
    groups.push(name.clone());
    proof {
        let after = groups@;
        assert forall|x: Seq<char>| group_names(after).contains(x) <==> group_names(before).insert(
            name@,
        ).contains(x) by {
            if group_names(after).contains(x) {
                let k = choose|k: int| 0 <= k < after.len() && #[trigger] after[k]@ == x;
                if k < before.len() {
                    assert(before[k]@ == x);
                }
            }
            if group_names(before).contains(x) {
                let k = choose|k: int| 0 <= k < before.len() && #[trigger] before[k]@ == x;
                assert(after[k]@ == x);
            }
            if x == name@ {
                assert(after[before.len() as int]@ == x);
            }
        }
        assert(group_names(after) =~= group_names(before).insert(name@));
    }
}

/// The row that stands for question `q` once `guess`, made in the test
/// group `test`, was handed in: a reviewed row stays as it is, and anything
/// else gives way to the guess, unreviewed.
pub fn merge_guess(existing: Option<Answer>, q: i32, guess: &UnknownQuestion, test: &str) -> (r:
    Answer)
    ensures
        r@ == merged(
            match existing {
                Some(row) => Some(row@),
                None => None,
            },
            q,
            guess@,
            test@,
        ),
{
    match existing {
        Some(row) => {
            if row.reviewed {
                return row;
            }
        },
        None => {},
    }
    Answer {
        question_id: q,
        answer_used: guess.answer_used,
        reviewed: false,
        test: test.to_owned(),
        valid_answers: guess.answers.clone(),
    }
}

/// Takes the upload of one attempt into the store.
///
/// The texts of questions and choices are filed under their identifiers,
/// replacing what was filed there. The group is listed. Each guess becomes
/// the row of its question, unreviewed and with the choices that were
/// offered, unless the question has a reviewed row, which then stays as it
/// is.
pub fn upload_call(store: &mut KnowledgeStore, data: JsApiUpload)
    requires
        old(store).wf(),
    ensures
        final(store).wf(),
        final(store)@ == old(store)@.uploaded(data@),
        old(store)@.rows_wf() && data@.wf() ==> final(store)@.rows_wf(),
{
    proof {
        if old(store)@.rows_wf() && data@.wf() {
            lemma_upload_keeps_rows_well_formed(old(store)@, data@);
        }
    }
    merge_texts(&mut store.answer_strings, &data.answer_map);
    merge_texts(&mut store.question_strings, &data.question_map);
    add_group(&mut store.groups, &data.group_text);
    let ghost start = answer_rows(store.answers@);
    let ghost guesses = guess_map(data.unknown_questions@);
    let ghost test = data.group_text@;
    let ghost filed_questions = store.question_strings;
    let ghost filed_answers = store.answer_strings;
    let ghost filed_groups = store.groups;
    let ghost filed_keys = store.api_keys;
    for pair in iter: data.unknown_questions.iter()
        invariant
            iter.seq() == data.unknown_questions.iter().remaining(),
            guesses == guess_map(data.unknown_questions@),
            test == data.group_text@,
            start == old(store)@.answers,
            old(store)@.wf(),
            store.question_strings == filed_questions,
            store.answer_strings == filed_answers,
            store.groups == filed_groups,
            store.api_keys == filed_keys,
            forall|q: i32| #[trigger]
                store.answers@.contains_key(q) <==> (start.contains_key(q) || seen(
                    iter.seq(),
                    iter.index(),
                    q,
                )),
            forall|q: i32| #[trigger]
                store.answers@.contains_key(q) ==> store.answers@[q]@ == (if seen(
                    iter.seq(),
                    iter.index(),
                    q,
                ) {
                    merged(old(store)@.row(q), q, guesses[q], test)
                } else {
                    start[q]
                }),
    {
        let (q, guess) = pair;
        proof {
            let k = iter.index();
            let m = data.unknown_questions@;
            assert(iter.seq()[k] == pair);
            assert(m.contains_key(*iter.seq()[k].0) && m[*iter.seq()[k].0] == *iter.seq()[k].1);
            assert(guesses[*q] == guess@);
            lemma_seen_next(iter.seq(), k);
        }
        let ghost before = store.answers@;
        let existing = store.answers.remove(q);
        let row = merge_guess(existing, *q, guess, data.group_text.as_str());
        store.answers.insert(*q, row);
        proof {
            assert(store.answers@ == before.remove(*q).insert(*q, row));
            assert(store.answers@ =~= before.insert(*q, row));
            if before.contains_key(*q) {
                assert(existing == Some(before[*q]));
            }
        }
    }
    proof {
        lemma_seen_all(data.unknown_questions@, data.unknown_questions.iter().remaining());
        assert(answer_rows(store.answers@) =~= old(store)@.uploaded(data@).answers);
        assert forall|q: i32| #[trigger] store@.answers.contains_key(q) implies store@.answers[q].question_id
            == q by {
            if old(store)@.answers.contains_key(q) {
                assert(old(store)@.answers[q].question_id == q);
            }
        }
    }
}

/// Marks the questions `ids` as confirmed: each of them that has a row has
/// it marked as reviewed, with the choice that the row holds.
pub fn set_reviewed(store: &mut KnowledgeStore, ids: &[i32])
    requires
        old(store).wf(),
    ensures
        final(store).wf(),
        final(store)@ == old(store)@.reviewed(ids@.to_set()),
        old(store)@.rows_wf() ==> final(store)@.rows_wf(),
{
    proof {
        if old(store)@.rows_wf() {
            lemma_confirmation_keeps_rows_well_formed(old(store)@, ids@.to_set());
        }
    }
    let ghost start = old(store)@;
    let mut i: usize = 0;
    proof {
        assert(ids@.take(0).to_set() =~= Set::<i32>::empty());
        assert(answer_rows(store.answers@) =~= start.reviewed(Set::<i32>::empty()).answers);
    }
    while i < ids.len()
        invariant
            i <= ids.len(),
            start == old(store)@,
            start.wf(),
            answer_rows(store.answers@) == start.reviewed(ids@.take(i as int).to_set()).answers,
            store.question_strings == old(store).question_strings,
            store.answer_strings == old(store).answer_strings,
            store.groups == old(store).groups,
            store.api_keys == old(store).api_keys,
        decreases ids.len() - i,
    {
        let q = ids[i];
        let ghost before = store.answers@;
        let ghost done = ids@.take(i as int).to_set();
        match store.answers.remove(&q) {
            Some(row) => {
                let marked = Answer {
                    question_id: row.question_id,
                    answer_used: row.answer_used,
                    reviewed: true,
                    test: row.test,
                    valid_answers: row.valid_answers,
                };
                store.answers.insert(q, marked);
                proof {
                    assert(before.contains_key(q) && before[q] == row);
                    assert(marked@ == confirmed_row(row@));
                    assert(store.answers@ == before.remove(q).insert(q, marked));
                    assert(answer_rows(store.answers@) =~= answer_rows(before).insert(q, marked@));
                    assert(answer_rows(before)[q] == row@);
                }
            },
            None => {
                proof {
                    assert(!before.contains_key(q));
                    assert(store.answers@ == before.remove(q));
                    assert(before.remove(q) =~= before);
                }
            },
        }
        proof {
            ids@.take(i as int).lemma_push_to_set_commute(q);
            assert(ids@.take(i + 1) == ids@.take(i as int).push(q));
            assert(answer_rows(store.answers@) =~= start.reviewed(done.insert(q)).answers);
        }
        i += 1;
    }
    proof {
        assert(ids@.take(ids.len() as int) == ids@);
    }
}

/// The name of what `Blake2b::digest` returns for the bytes `data`.
pub uninterp spec fn blake2b_digest(data: Seq<u8>) -> Seq<u8>;

/// `Blake2b::digest` of the blake2 crate: the BLAKE2b hash of `data`, which
/// depends on `data` alone and is 64 bytes long.
#[verifier::external_body]
fn blake2b(data: &[u8]) -> (r: Vec<u8>)
    ensures
        r@ == blake2b_digest(data@),
        r@.len() == 64,
{
    Blake2b::digest(data).to_vec()
}

/// The characters that a key is made of: the Latin capitals, the small
/// letters and the digits.
pub open spec fn key_alphabet() -> Seq<char> {
    "ABCDEFGHIJKLMNOPQRSTUVWXYZabcdefghijklmnopqrstuvwxyz0123456789"@
}

/// The hash under which the key `key` is stored.
pub open spec fn key_hash(key: Seq<char>) -> Seq<u8> {
    blake2b_digest(encode_utf8(key))
}

/// Whether the stored key `row` is the one with the hash `hash`, and may
/// write if that is asked.
pub open spec fn key_matches(row: ApiKeyModel, hash: Seq<u8>, need_write: bool) -> bool {
    row.hash == hash && (need_write ==> row.write_access)
}

/// What a lookup among `keys` gives: the number and the note of the oldest
/// key that matches, or nothing if none does.
pub open spec fn found_key(
    keys: Seq<ApiKeyModel>,
    hash: Seq<u8>,
    need_write: bool,
    r: Option<(i32, Option<String>)>,
) -> bool {
    match r {
        Some((id, note)) => exists|i: int|
            {
                &&& 0 <= i < keys.len()
                &&& key_matches(#[trigger] keys[i], hash, need_write)
                &&& forall|j: int| 0 <= j < i ==> !key_matches(#[trigger] keys[j], hash, need_write)
                &&& id == keys[i].id
                &&& note_view(note) == keys[i].note
            },
        None => forall|i: int| 0 <= i < keys.len() ==> !key_matches(
            #[trigger] keys[i],
            hash,
            need_write,
        ),
    }
}

/// The text of a note, if there is one.
pub open spec fn note_view(note: Option<String>) -> Option<Seq<char>> {
    match note {
        Some(text) => Some(text@),
        None => None,
    }
}

/// The number of characters in [`key_alphabet`].
pub const ALPHABET_SIZE: usize = 62;

/// The key that `positions` spell: for each of them, the character at that
/// position of [`key_alphabet`].
pub open spec fn key_text(positions: Seq<usize>) -> Seq<char> {
    Seq::new(positions.len(), |i: int| key_alphabet()[positions[i] as int])
}

/// Whether every one of `positions` is a position in [`key_alphabet`].
pub open spec fn in_alphabet(positions: Seq<usize>) -> bool {
    forall|i: int| 0 <= i < positions.len() ==> #[trigger] positions[i] < ALPHABET_SIZE
}

/// The key that `positions` spell.
pub fn key_from_positions(positions: &Vec<usize>) -> (key: String)
    requires
        in_alphabet(positions@),
    ensures
        key@ == key_text(positions@),
{
    let letters = chars_of("ABCDEFGHIJKLMNOPQRSTUVWXYZabcdefghijklmnopqrstuvwxyz0123456789");
    proof {
        reveal_strlit("ABCDEFGHIJKLMNOPQRSTUVWXYZabcdefghijklmnopqrstuvwxyz0123456789");
        assert(letters@.len() == 62);
    }
    let mut key = String::new();
    let mut i: usize = 0;
    proof {
        assert(key@ =~= key_text(positions@.take(0)));
    }
    while i < positions.len()
        invariant
            i <= positions.len(),
            in_alphabet(positions@),
            letters@ == key_alphabet(),
            letters@.len() == 62,
            key@ == key_text(positions@.take(i as int)),
        decreases positions.len() - i,
    {
        let p = positions[i];
        push_char(&mut key, letters[p]);
        i += 1;
        proof {
            assert(key@ =~= key_text(positions@.take(i as int)));
        }
    }
    proof {
        assert(positions@.take(positions.len() as int) == positions@);
    }
    key
}

/// A new key of `length` characters: [`key_from_positions`] of `length`
/// positions, each drawn at random from those of [`key_alphabet`].
pub fn generate_api_key(length: u64) -> (key: String)
    ensures
        key@.len() == length,
        exists|positions: Seq<usize>|
            positions.len() == length && in_alphabet(positions) && key@ == #[trigger] key_text(
                positions,
            ),
        forall|i: int| 0 <= i < key@.len() ==> key_alphabet().contains(#[trigger] key@[i]),
{
    let mut positions: Vec<usize> = Vec::new();
    let mut made: u64 = 0;
    while made < length
        invariant
            made <= length,
            positions@.len() == made,
            in_alphabet(positions@),
        decreases length - made,
    {
        let p = random_below(ALPHABET_SIZE);
        positions.push(p);
        made += 1;
    }
    let key = key_from_positions(&positions);
    proof {
        reveal_strlit("ABCDEFGHIJKLMNOPQRSTUVWXYZabcdefghijklmnopqrstuvwxyz0123456789");
        assert(key@ == key_text(positions@));
        assert forall|i: int| 0 <= i < key@.len() implies key_alphabet().contains(
            #[trigger] key@[i],
        ) by {
            assert(positions@[i] < ALPHABET_SIZE);
            assert(key@[i] == key_alphabet()[positions@[i] as int]);
        }
    }
    key
}

fn same_bytes(a: &Vec<u8>, b: &Vec<u8>) -> (r: bool)
    ensures
        r == (a@ == b@),
{
    if a.len() != b.len() {
        return false;
    }
    let mut i: usize = 0;
    while i < a.len()
        invariant
            i <= a.len(),
            a.len() == b.len(),
            forall|k: int| 0 <= k < i ==> a@[k] == b@[k],
        decreases a.len() - i,
    {
        if a[i] != b[i] {
            return false;
        }
        i += 1;
    }
    assert(a@ =~= b@);
    true
}

fn find_key(store: &KnowledgeStore, key: &str, need_write: bool) -> (r: Option<
    (i32, Option<String>),
>)
    ensures
        found_key(store@.api_keys, key_hash(key@), need_write, r),
{
    let hash = blake2b(key.as_bytes());
    let ghost keys = store@.api_keys;
    let mut i: usize = 0;
    while i < store.api_keys.len()
        invariant
            i <= store.api_keys.len(),
            keys == store@.api_keys,
            hash@ == key_hash(key@),
            forall|j: int| 0 <= j < i ==> !key_matches(#[trigger] keys[j], hash@, need_write),
        decreases store.api_keys.len() - i,
    {
        let row = &store.api_keys[i];
        assert(keys[i as int] == row@);
        if same_bytes(&row.hash, &hash) && (!need_write || row.write_access) {
            let note = match &row.note {
                Some(text) => Some(text.clone()),
                None => None,
            };
            assert(key_matches(keys[i as int], hash@, need_write));
            return Some((row.id, note));
        }
        i += 1;
    }
    None
}

/// Stores `key` as a new API key with the given note and rights. What is
/// stored is the hash of the key, under the next number.
pub fn store_api_key(store: &mut KnowledgeStore, key: &str, note: Option<&str>, write_access: bool)
    requires
        old(store).wf(),
        old(store)@.api_keys.len() < i32::MAX,
    ensures
        final(store).wf(),
        final(store)@ == (StoreModel {
            api_keys: old(store)@.api_keys.push(
                ApiKeyModel {
                    id: (old(store)@.api_keys.len() + 1) as i32,
                    hash: key_hash(key@),
                    write_access,
                    note: match note {
                        Some(text) => Some(text@),
                        None => None,
                    },
                },
            ),
            ..old(store)@
        }),
{
    let hash = blake2b(key.as_bytes());
    let id: i32 = (store.api_keys.len() + 1) as i32;
    let note = match note {
        Some(text) => Some(text.to_owned()),
        None => None,
    };
    let row = ApiKey { id, hash, write_access, note };
    let ghost before = key_views(store.api_keys@);
    store.api_keys.push(row);
    proof {
        assert(key_views(store.api_keys@) =~= before.push(row@));
    }
}

/// Makes a new API key of 128 characters, stores it with the given note
/// and rights, and returns it. The key itself is not kept: only its hash
/// is.
pub fn gen_api_key(store: &mut KnowledgeStore, note: Option<&str>, write_access: bool) -> (key:
    String)
    requires
        old(store).wf(),
        old(store)@.api_keys.len() < i32::MAX,
    ensures
        final(store).wf(),
        key@.len() == 128,
        forall|i: int| 0 <= i < key@.len() ==> key_alphabet().contains(#[trigger] key@[i]),
        final(store)@ == (StoreModel {
            api_keys: old(store)@.api_keys.push(
                ApiKeyModel {
                    id: (old(store)@.api_keys.len() + 1) as i32,
                    hash: key_hash(key@),
                    write_access,
                    note: match note {
                        Some(text) => Some(text@),
                        None => None,
                    },
                },
            ),
            ..old(store)@
        }),
{
    let key = generate_api_key(128);
    store_api_key(store, key.as_str(), note, write_access);
    key
}

/// Looks `key` up among the keys that may write: the number and the note
/// of the oldest stored key with the hash of `key` and write access.
pub fn check_api_key(store: &KnowledgeStore, key: &str) -> (r: Option<(i32, Option<String>)>)
    ensures
        found_key(store@.api_keys, key_hash(key@), true, r),
{
    find_key(store, key, true)
}

/// Looks `key` up among all keys: the number and the note of the oldest
/// stored key with the hash of `key`, whatever it may do.
pub fn check_api_key_r(store: &KnowledgeStore, key: &str) -> (r: Option<(i32, Option<String>)>)
    ensures
        found_key(store@.api_keys, key_hash(key@), false, r),
{
    find_key(store, key, false)
}

/// The hash under which `key` is stored and looked up.
pub fn hash_api_key(key: &str) -> (r: Vec<u8>)
    ensures
        r@ == key_hash(key@),
        r@.len() == 64,
{
    blake2b(key.as_bytes())
}

/// The row of question `id`, if there is one.
pub fn get_answer(store: &KnowledgeStore, id: i32) -> (r: Option<Answer>)
    ensures
        match r {
            Some(row) => store@.answers.contains_key(id) && row@ == store@.answers[id],
            None => !store@.answers.contains_key(id),
        },
{
    match store.answers.get(&id) {
        Some(row) => Some(
            Answer {
                question_id: row.question_id,
                answer_used: row.answer_used,
                reviewed: row.reviewed,
                test: row.test.clone(),
                valid_answers: row.valid_answers.clone(),
            },
        ),
        None => None,
    }
}

/// The verdict that a person enters as the number `code`: 0 confirms, 1
/// names another choice, which is `choice`, and 2 deletes. Any other number
/// is no verdict.
pub fn verdict_of(code: u8, choice: i32) -> (r: Option<Verdict>)
    ensures
        r == (if code == 0 {
            Some(Verdict::Confirm)
        } else if code == 1 {
            Some(Verdict::Correct(choice))
        } else if code == 2 {
            Some(Verdict::Delete)
        } else {
            None
        }),
{
    if code == 0 {
        Some(Verdict::Confirm)
    } else if code == 1 {
        Some(Verdict::Correct(choice))
    } else if code == 2 {
        Some(Verdict::Delete)
    } else {
        None
    }
}

/// Applies the verdict of a person to the row of question `q`.
pub fn review(store: &mut KnowledgeStore, q: i32, verdict: Verdict)
    requires
        old(store).wf(),
    ensures
        final(store).wf(),
        final(store)@ == old(store)@.judged(q, verdict),
        old(store)@.rows_wf() && verdict_fits(old(store)@, q, verdict) ==> final(store)@.rows_wf(),
{
    proof {
        if old(store)@.rows_wf() && verdict_fits(old(store)@, q, verdict) {
            lemma_verdict_keeps_rows_well_formed(old(store)@, q, verdict);
        }
    }
    let ghost before = store.answers@;
    match store.answers.remove(&q) {
        Some(row) => {
            proof {
                assert(before.contains_key(q) && before[q] == row);
                assert(answer_rows(before)[q] == row@);
                assert(answer_rows(before.remove(q)) =~= answer_rows(before).remove(q));
            }
            let kept = match verdict {
                Verdict::Confirm => Some(row.answer_used),
                Verdict::Correct(a) => Some(a),
                Verdict::Delete => None,
            };
            match kept {
                Some(used) => {
                    let marked = Answer {
                        question_id: row.question_id,
                        answer_used: used,
                        reviewed: true,
                        test: row.test,
                        valid_answers: row.valid_answers,
                    };
                    store.answers.insert(q, marked);
                    proof {
                        assert(answer_rows(store.answers@) =~= answer_rows(before).insert(
                            q,
                            marked@,
                        ));
                    }
                },
                None => {},
            }
        },
        None => {
            proof {
                assert(!before.contains_key(q));
                assert(before.remove(q) =~= before);
            }
        },
    }
}

/// Deletes the row of question `q`, if there is one.
pub fn del_question(store: &mut KnowledgeStore, q: i32)
    requires
        old(store).wf(),
    ensures
        final(store).wf(),
        final(store)@ == old(store)@.judged(q, Verdict::Delete),
        old(store)@.rows_wf() ==> final(store)@.rows_wf(),
{
    review(store, q, Verdict::Delete);
}

} // verus!
