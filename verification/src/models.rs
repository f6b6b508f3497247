//! The records of the knowledge store and of the upload that one attempt
//! produces.

use std::collections::HashMap;
use vstd::prelude::*;

verus! {

/// What is believed of one question: the choice that was used for it,
/// whether that choice is confirmed, the test group it was seen in, and the
/// choices that were offered.
#[derive(Clone, Debug, PartialEq, Eq)]
pub struct Answer {
    pub question_id: i32,
    pub answer_used: i32,
    pub reviewed: bool,
    pub test: String,
    pub valid_answers: Vec<i32>,
}

/// The mathematical content of an [`Answer`].
pub struct AnswerModel {
    pub question_id: i32,
    pub answer_used: i32,
    pub reviewed: bool,
    pub test: Seq<char>,
    pub valid_answers: Seq<i32>,
}

impl View for Answer {
    type V = AnswerModel;

    open spec fn view(&self) -> AnswerModel {
        AnswerModel {
            question_id: self.question_id,
            answer_used: self.answer_used,
            reviewed: self.reviewed,
            test: self.test@,
            valid_answers: self.valid_answers@,
        }
    }
}

impl AnswerModel {
    /// The choice in use is one of the offered choices, whenever any was
    /// recorded.
    pub open spec fn wf(self) -> bool {
        self.valid_answers.len() > 0 ==> self.valid_answers.contains(self.answer_used)
    }
}

/// The stored text of one answer choice.
#[derive(Clone, Debug, PartialEq, Eq)]
pub struct AnswerMap {
    pub answer_id: i32,
    pub answer_string: String,
}

/// The stored text of one question.
#[derive(Clone, Debug, PartialEq, Eq)]
pub struct QuestionMap {
    pub question_id: i32,
    pub question_string: String,
}

/// The text of one answer choice, to be stored.
#[derive(Clone, Debug, PartialEq, Eq)]
pub struct NewAnswerMap<'a> {
    pub answer_id: i32,
    pub answer_string: &'a str,
}

/// The text of one question, to be stored.
#[derive(Clone, Debug, PartialEq, Eq)]
pub struct NewQuestionMap<'a> {
    pub question_id: i32,
    pub question_string: &'a str,
}

/// The guess made for a question that was not known: the choices offered
/// and the one that was picked.
#[derive(Clone, Debug, PartialEq, Eq)]
pub struct UnknownQuestion {
    pub answers: Vec<i32>,
    pub answer_used: i32,
}

/// The mathematical content of an [`UnknownQuestion`].
pub struct GuessModel {
    pub answers: Seq<i32>,
    pub answer_used: i32,
}

impl View for UnknownQuestion {
    type V = GuessModel;

    open spec fn view(&self) -> GuessModel {
        GuessModel { answers: self.answers@, answer_used: self.answer_used }
    }
}

impl GuessModel {
    /// The picked choice is one of the offered ones, whenever any was
    /// offered.
    pub open spec fn wf(self) -> bool {
        self.answers.len() > 0 ==> self.answers.contains(self.answer_used)
    }
}

/// What one attempt hands to the knowledge store: the name of the test
/// group, the texts scraped, and the guesses made.
#[derive(Clone, Debug, PartialEq, Eq)]
pub struct JsApiUpload {
    pub group: Option<i32>,
    pub group_text: String,
    pub answer_map: HashMap<i32, String>,
    pub question_map: HashMap<i32, String>,
    pub unknown_questions: HashMap<i32, UnknownQuestion>,
}

/// The mathematical content of a [`JsApiUpload`].
pub struct UploadModel {
    pub group: Option<i32>,
    pub group_text: Seq<char>,
    pub answer_map: Map<i32, Seq<char>>,
    pub question_map: Map<i32, Seq<char>>,
    pub unknown_questions: Map<i32, GuessModel>,
}

impl UploadModel {
    /// Every guess is one of the choices offered with it, where any was
    /// offered.
    pub open spec fn wf(self) -> bool {
        forall|q: i32| #[trigger]
            self.unknown_questions.contains_key(q) ==> self.unknown_questions[q].wf()
    }
}

/// The texts of a table of strings.
pub open spec fn text_map(m: Map<i32, String>) -> Map<i32, Seq<char>> {
    m.map_values(|s: String| s@)
}

/// The guesses of a table of guesses.
pub open spec fn guess_map(m: Map<i32, UnknownQuestion>) -> Map<i32, GuessModel> {
    m.map_values(|g: UnknownQuestion| g@)
}

impl View for JsApiUpload {
    type V = UploadModel;

    open spec fn view(&self) -> UploadModel {
        UploadModel {
            group: self.group,
            group_text: self.group_text@,
            answer_map: text_map(self.answer_map@),
            question_map: text_map(self.question_map@),
            unknown_questions: guess_map(self.unknown_questions@),
        }
    }
}

/// A stored API key: the hash of the secret, what it may do, and a note.
#[derive(Clone, Debug, PartialEq, Eq)]
pub struct ApiKey {
    pub id: i32,
    pub hash: Vec<u8>,
    pub write_access: bool,
    pub note: Option<String>,
}

/// The mathematical content of an [`ApiKey`].
pub struct ApiKeyModel {
    pub id: i32,
    pub hash: Seq<u8>,
    pub write_access: bool,
    pub note: Option<Seq<char>>,
}

impl View for ApiKey {
    type V = ApiKeyModel;

    open spec fn view(&self) -> ApiKeyModel {
        ApiKeyModel {
            id: self.id,
            hash: self.hash@,
            write_access: self.write_access,
            note: match self.note {
                Some(text) => Some(text@),
                None => None,
            },
        }
    }
}

/// An API key to be stored.
#[derive(Clone, Debug, PartialEq, Eq)]
pub struct NewApiKey<'a> {
    pub hash: &'a [u8],
    pub write_access: bool,
    pub note: Option<&'a str>,
}

/// A test group: one graded test instance.
#[derive(Clone, Debug, PartialEq, Eq, PartialOrd, Ord)]
pub struct Group {
    pub id: i32,
    pub text: String,
}

/// A test group to be stored.
#[derive(Clone, Debug, PartialEq, Eq)]
pub struct Groups<'a> {
    pub text: &'a str,
}

} // verus!
