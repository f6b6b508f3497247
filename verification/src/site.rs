//! What the test site and the knowledge service look like from outside:
//! the pages, the elements and the scripts of the one, the endpoints of the
//! other.

use vstd::prelude::*;
use vstd::string::StringExecFns;

verus! {

/// The page on which an account logs in.
pub const LOGIN_URL: &'static str = "http://study.hanoi.edu.vn/dang-nhap?returnUrl=/";

/// The field for the account name, as a CSS selector.
pub const USER_NAME_FIELD: &'static str = "#UserName";

/// The field for the password, as a CSS selector.
pub const PASSWORD_FIELD: &'static str = "#Password";

/// The button that logs in, as a CSS selector.
pub const LOGIN_BUTTON: &'static str = "#AjaxLogin";

/// The control that starts a test, as a CSS selector.
pub const START_BUTTON: &'static str = "#start-test";

/// The heading that holds the title of the test, as a CSS selector.
pub const TITLE_HEADING: &'static str = "body .row .col-12 h1";

/// The container of one question, as a CSS selector.
pub const QUESTION_BOX: &'static str = ".question-box";

/// The attribute of a question container that holds the identifier of the
/// question.
pub const QUESTION_ID_ATTRIBUTE: &'static str = "data-id";

/// The inputs of the choices of a question, as a CSS selector below its
/// container.
pub const CHOICE_INPUT: &'static str = "input[type=\"radio\"]";

/// The property of a choice input that holds the identifier of the choice.
pub const CHOICE_ID_PROPERTY: &'static str = "value";

/// The script that reads the text of a choice from its input.
pub const CHOICE_TEXT_SCRIPT: &'static str = "return arguments[0].parentNode.parentNode.innerText;";

/// The script that hands the test in.
pub const SUBMIT_SCRIPT: &'static str =
    "SendUserTestResultToServer(\"Đang nộp bài, vui lòng đợi và không thực hiện thêm bất cứ thao tác nào!\", 2);";

/// The seconds to wait for the results page after handing in.
pub const SETTLE_SECONDS: u64 = 15;

/// The label that lists the positions answered correctly, as a CSS
/// selector.
pub const CORRECT_LABEL: &'static str = "#lblTrueAnswer";

/// The label that lists the positions answered wrongly, as a CSS selector.
/// The site spells it this way.
pub const WRONG_LABEL: &'static str = "#lblFalseAnser";

/// The endpoint of the knowledge service at `api` that `tail` names.
fn endpoint(api: &str, tail: &str) -> (r: String)
    ensures
        r@ == api@ + tail@,
{
    let mut url = String::from_str(api);
    url.append(tail);
    url
}

/// Where the known answers are read, those of reviewed and of unreviewed
/// rows.
pub fn data_url(api: &str) -> (r: String)
    ensures
        r@ == api@ + "/data"@,
{
    endpoint(api, "/data")
}

/// Where the upload of an attempt goes.
pub fn upload_url(api: &str) -> (r: String)
    ensures
        r@ == api@ + "/upload"@,
{
    endpoint(api, "/upload")
}

/// Where the confirmed questions of an attempt go.
pub fn set_reviewed_url(api: &str) -> (r: String)
    ensures
        r@ == api@ + "/set_reviewed"@,
{
    endpoint(api, "/set_reviewed")
}

/// What the operator asked of a run.
#[derive(Clone, Copy, Debug, PartialEq, Eq, Structural)]
pub struct Options {
    /// Fetch texts for known questions too.
    pub force_fetch: bool,
    /// Do not hand the test in.
    pub no_submit: bool,
    /// Read the results page after handing in.
    pub autoreview: bool,
    /// Attempt again while the results page lists a wrong answer.
    pub crack: bool,
}

impl Options {
    /// Whether the test is handed in.
    pub fn submits(&self) -> (r: bool)
        ensures
            r == !self.no_submit,
    {
        !self.no_submit
    }

    /// Whether the results page is read: only after handing in, and only
    /// if asked for.
    pub fn reads_results(&self) -> (r: bool)
        ensures
            r == (!self.no_submit && self.autoreview),
    {
        !self.no_submit && self.autoreview
    }
}

} // verus!
