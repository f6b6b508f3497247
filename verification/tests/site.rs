use lmaobgd::site::{
    data_url, set_reviewed_url, upload_url, Options, CHOICE_INPUT, SETTLE_SECONDS, WRONG_LABEL,
};

#[test]
fn endpoints() {
    assert_eq!(data_url("http://localhost:5000/api"), "http://localhost:5000/api/data");
    assert_eq!(upload_url("http://localhost:5000/api"), "http://localhost:5000/api/upload");
    assert_eq!(
        set_reviewed_url("http://localhost:5000/api"),
        "http://localhost:5000/api/set_reviewed"
    );
    assert_eq!(data_url(""), "/data");
}

#[test]
fn site_constants() {
    assert_eq!(CHOICE_INPUT, r#"input[type="radio"]"#);
    assert_eq!(SETTLE_SECONDS, 15);
    assert_eq!(WRONG_LABEL, "#lblFalseAnser");
}

#[test]
fn results_are_read_only_after_handing_in() {
    for no_submit in [false, true] {
        for autoreview in [false, true] {
            let o = Options { force_fetch: false, no_submit, autoreview, crack: true };
            assert_eq!(o.submits(), !no_submit);
            assert_eq!(o.reads_results(), !no_submit && autoreview);
        }
    }
}
