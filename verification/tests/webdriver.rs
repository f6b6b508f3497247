use lmaobgd::webdriver::{
    element_key_name, Capability, Method, Payload, Reply, Request, Using, WebDriver,
    WebDriverError, WebElement,
};

fn ok(body: &str) -> Reply {
    Reply { status: 200, body: String::from(body) }
}

fn session() -> WebDriver {
    WebDriver::new(String::from("http://127.0.0.1:4444"), ok("{}"), Some(String::from("s-1")))
        .unwrap()
}

fn element(id: &str) -> WebElement {
    WebElement::new(String::from(id))
}

fn locate(using: Using, value: &str) -> Payload {
    Payload::Locate { using, value: String::from(value) }
}

fn post(url: &str, payload: Payload) -> Request {
    Request { method: Method::Post, url: String::from(url), payload }
}

fn get(url: &str) -> Request {
    Request { method: Method::Get, url: String::from(url), payload: Payload::Absent }
}

#[test]
fn strategies_on_the_wire() {
    assert_eq!(Using::CssSelector.wire_name(), "css selector");
    assert_eq!(Using::LinkText.wire_name(), "link text");
    assert_eq!(Using::PartialLinkText.wire_name(), "partial link text");
    assert_eq!(Using::TagName.wire_name(), "tag name");
    assert_eq!(Using::XPath.wire_name(), "xpath");
    assert_eq!(element_key_name(), "element-6066-11e4-a52e-4f735466cecf");
}

#[test]
fn element_handle_is_passed_through() {
    assert_eq!(element("abc-123").id(), "abc-123");
    assert_eq!(element("").id(), "");
    assert_eq!(element("a"), element("a"));
    assert_ne!(element("a"), element("A"));
}

#[test]
fn session_request() {
    let always = vec![Capability { name: String::from("browserName"), json: String::from("\"firefox\"") }];
    let r = WebDriver::session_request("http://h:1", always.clone(), vec![Vec::new(), always.clone()]);
    assert_eq!(
        r,
        post(
            "http://h:1/session",
            Payload::NewSession { always_match: always.clone(), first_match: vec![Vec::new(), always] }
        )
    );
}

#[test]
fn firefox_session_request() {
    let r = WebDriver::new_firefox("http://127.0.0.1:4444", true);
    let headless = Capability {
        name: String::from("moz:firefoxOptions"),
        json: String::from("{\"args\":[\"-headless\"]}"),
    };
    assert_eq!(
        r,
        post(
            "http://127.0.0.1:4444/session",
            Payload::NewSession { always_match: Vec::new(), first_match: vec![vec![headless]] }
        )
    );
    let r = WebDriver::new_firefox("http://127.0.0.1:4444", false);
    assert_eq!(
        r,
        post(
            "http://127.0.0.1:4444/session",
            Payload::NewSession { always_match: Vec::new(), first_match: vec![Vec::new()] }
        )
    );
}

#[test]
fn session_from_reply() {
    let wd = WebDriver::new(String::from("http://h"), ok("{}"), Some(String::from("abc"))).unwrap();
    assert_eq!(wd.navigate("x").url, "http://h/session/abc/url");
    let refused = Reply { status: 500, body: String::from("session not created") };
    assert_eq!(
        WebDriver::new(String::from("http://h"), refused.clone(), Some(String::from("abc"))),
        Err(WebDriverError::Protocol { status: 500, body: String::from("session not created") })
    );
    assert_eq!(
        WebDriver::new(String::from("http://h"), ok("not json"), None),
        Err(WebDriverError::Protocol { status: 200, body: String::from("not json") })
    );
}

#[test]
fn lookups() {
    let wd = session();
    let base = "http://127.0.0.1:4444/session/s-1";
    assert_eq!(
        wd.get_elements(Using::CssSelector, ".question-box"),
        post(&format!("{}/elements", base), locate(Using::CssSelector, ".question-box"))
    );
    assert_eq!(
        wd.get_element(Using::XPath, "//h1"),
        post(&format!("{}/element", base), locate(Using::XPath, "//h1"))
    );
    let e = element("e-9");
    assert_eq!(
        wd.get_elements_from_element(&e, Using::TagName, "input"),
        post(&format!("{}/element/e-9/elements", base), locate(Using::TagName, "input"))
    );
    assert_eq!(
        wd.get_element_from_element(&e, Using::LinkText, "next"),
        post(&format!("{}/element/e-9/element", base), locate(Using::LinkText, "next"))
    );
}

#[test]
fn reads() {
    let wd = session();
    let e = element("e-9");
    let base = "http://127.0.0.1:4444/session/s-1/element/e-9";
    assert_eq!(wd.get_element_attr(&e, "data-id"), get(&format!("{}/attribute/data-id", base)));
    assert_eq!(wd.get_element_prop(&e, "value"), get(&format!("{}/property/value", base)));
    assert_eq!(wd.get_element_text(&e), get(&format!("{}/text", base)));
}

#[test]
fn effects() {
    let wd = session();
    let e = element("e-9");
    let base = "http://127.0.0.1:4444/session/s-1";
    assert_eq!(wd.element_click(&e), post(&format!("{}/element/e-9/click", base), Payload::Empty));
    assert_eq!(
        wd.element_send_keys(&e, "\u{e00d}"),
        post(
            &format!("{}/element/e-9/value", base),
            Payload::Keys { text: String::from("\u{e00d}") }
        )
    );
    assert_eq!(
        wd.navigate("http://example.org/a?b=c"),
        post(
            &format!("{}/url", base),
            Payload::Navigate { url: String::from("http://example.org/a?b=c") }
        )
    );
}

#[test]
fn scripts() {
    let wd = session();
    let base = "http://127.0.0.1:4444/session/s-1";
    assert_eq!(
        wd.run_script_unit("submit();"),
        post(
            &format!("{}/execute/sync", base),
            Payload::Script { script: String::from("submit();"), args: Vec::new() }
        )
    );
    assert_eq!(
        wd.run_script_elem("return arguments[0].innerText;", &element("e-9")),
        post(
            &format!("{}/execute/sync", base),
            Payload::Script {
                script: String::from("return arguments[0].innerText;"),
                args: vec![element("e-9")]
            }
        )
    );
}

#[test]
fn close_deletes_the_session() {
    assert_eq!(
        session().close(),
        Request {
            method: Method::Delete,
            url: String::from("http://127.0.0.1:4444/session/s-1"),
            payload: Payload::Absent
        }
    );
}

#[test]
fn reply_without_a_value() {
    assert_eq!(ok("anything").check(), Ok(()));
    assert_eq!(Reply { status: 204, body: String::new() }.check(), Ok(()));
    assert_eq!(Reply { status: 299, body: String::new() }.check(), Ok(()));
    for status in [0, 100, 199, 300, 302, 404, 500, 65535] {
        assert_eq!(
            Reply { status, body: String::from("b") }.check(),
            Err(WebDriverError::Protocol { status, body: String::from("b") })
        );
    }
}

#[test]
fn reply_with_a_value() {
    assert_eq!(ok("{\"value\":\"t\"}").value(Some(String::from("t"))), Ok(String::from("t")));
    assert_eq!(ok("{\"value\":true}").value(Some(true)), Ok(true));
    assert_eq!(ok("{\"value\":[]}").value(Some(Vec::<WebElement>::new())), Ok(Vec::new()));
    assert_eq!(
        ok("<html>").value(None::<String>),
        Err(WebDriverError::Protocol { status: 200, body: String::from("<html>") })
    );
    assert_eq!(
        Reply { status: 404, body: String::from("gone") }.value(Some(1)),
        Err(WebDriverError::Protocol { status: 404, body: String::from("gone") })
    );
}

#[test]
fn reply_to_an_attribute_read() {
    assert_eq!(
        ok("{\"value\":\"42\"}").attribute(Some(Some(String::from("42")))),
        Ok(Some(String::from("42")))
    );
    assert_eq!(ok("{\"value\":\"\"}").attribute(Some(Some(String::new()))), Ok(Some(String::new())));
    // an attribute that the element does not have is no error
    assert_eq!(ok("{\"value\":null}").attribute(Some(None)), Ok(None));
    assert_eq!(
        ok("<html>").attribute(None),
        Err(WebDriverError::Protocol { status: 200, body: String::from("<html>") })
    );
    for decoded in [None, Some(None), Some(Some(String::from("x")))] {
        assert_eq!(
            Reply { status: 404, body: String::from("stale") }.attribute(decoded),
            Err(WebDriverError::Protocol { status: 404, body: String::from("stale") })
        );
    }
}

#[test]
fn reply_to_a_single_lookup() {
    assert_eq!(ok("{}").element(Some(element("e-1")), None), Ok(element("e-1")));
    assert_eq!(
        ok("{}").element(None, None),
        Err(WebDriverError::Protocol { status: 200, body: String::from("{}") })
    );
    let missing = Reply { status: 404, body: String::from("m") };
    assert_eq!(
        missing.clone().element(None, Some(String::from("no such element"))),
        Err(WebDriverError::NotFound)
    );
    assert_eq!(
        missing.clone().element(None, Some(String::from("stale element reference"))),
        Err(WebDriverError::Protocol { status: 404, body: String::from("m") })
    );
    assert_eq!(
        missing.clone().element(None, None),
        Err(WebDriverError::Protocol { status: 404, body: String::from("m") })
    );
    // a success is a success, whatever code the body names
    assert_eq!(
        ok("{}").element(Some(element("e-1")), Some(String::from("no such element"))),
        Ok(element("e-1"))
    );
}
