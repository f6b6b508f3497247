//! What happens between two attempts: the outcome of an attempt is taken
//! into the knowledge store, and the run goes on only while there is
//! something left to learn.
//!
//! Nothing here counts attempts. In crack mode a test whose results page
//! keeps listing a wrong answer is attempted again for as long as the
//! caller lets the run go on.

use vstd::prelude::*;
use crate::attempt::Outcome;
use crate::actions::{set_reviewed, upload_call, KnowledgeStore, StoreModel};

verus! {

/// Whether another attempt follows: only in crack mode, and only after an
/// attempt whose results page listed a wrong answer.
pub open spec fn repeats(has_incorrect: bool, crack: bool) -> bool {
    has_incorrect && crack
}

/// Whether another attempt follows one with the given result.
pub fn should_repeat(has_incorrect: bool, crack: bool) -> (r: bool)
    ensures
        r == repeats(has_incorrect, crack),
{
    has_incorrect && crack
}

/// How many attempts a run makes whose attempts, in order, end with the
/// given results, `true` standing for a results page that listed a wrong
/// answer: one attempt follows another exactly while [`repeats`] says so.
pub open spec fn attempts_made(results: Seq<bool>, crack: bool) -> nat
    decreases results.len(),
{
    if results.len() == 0 {
        0
    } else if repeats(results[0], crack) {
        1 + attempts_made(results.drop_first(), crack)
    } else {
        1
    }
}

/// In crack mode a run does not give up by itself: as long as every results
/// page lists a wrong answer, every attempt is followed by another, however
/// many there were before.
pub proof fn lemma_crack_mode_goes_on(results: Seq<bool>)
    requires
        forall|i: int| 0 <= i < results.len() ==> #[trigger] results[i],
    ensures
        attempts_made(results, true) == results.len(),
    decreases results.len(),
{
    if results.len() > 0 {
        let rest = results.drop_first();
        assert forall|i: int| 0 <= i < rest.len() implies #[trigger] rest[i] by {
            assert(rest[i] == results[i + 1]);
        }
        lemma_crack_mode_goes_on(rest);
    }
}

/// Without crack mode a run makes one attempt, and in crack mode it ends
/// with the first attempt whose results page lists no wrong answer.
pub proof fn lemma_run_ends(results: Seq<bool>, crack: bool)
    requires
        results.len() > 0,
    ensures
        !crack ==> attempts_made(results, crack) == 1,
        !results[0] ==> attempts_made(results, crack) == 1,
{
}

/// The store after an attempt with the given outcome: the upload is taken
/// in, and then the questions that the attempt confirmed, if it read the
/// results page, are marked.
pub open spec fn persisted(store: StoreModel, outcome: Outcome) -> StoreModel {
    match outcome.correct {
        Some(ids) => store.uploaded(outcome.upload@).reviewed(ids@.to_set()),
        None => store.uploaded(outcome.upload@),
    }
}

/// Takes the outcome of an attempt into the store and says whether another
/// attempt follows.
///
/// The texts and the guesses of the attempt are stored first. Then the
/// questions that the results page confirmed, if it was read, are marked as
/// reviewed.
pub fn persist(store: &mut KnowledgeStore, outcome: Outcome, crack: bool) -> (again: bool)
    requires
        old(store).wf(),
    ensures
        final(store).wf(),
        final(store)@ == persisted(old(store)@, outcome),
        old(store)@.rows_wf() && outcome.upload@.wf() ==> final(store)@.rows_wf(),
        again == repeats(outcome.has_incorrect, crack),
{
    let Outcome { upload, correct, has_incorrect } = outcome;
    upload_call(store, upload);
    match correct {
        Some(ids) => {
            set_reviewed(store, ids.as_slice());
        },
        None => {},
    }
    should_repeat(has_incorrect, crack)
}

} // verus!
