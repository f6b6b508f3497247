//! The client side of the browser-control protocol: which request each
//! operation sends, and what a reply means.
//!
//! Every operation is one round trip. The functions here build the request
//! and read the reply; the caller sends the one and receives the other, and
//! turns bodies into JSON and back. Nothing is retried: a reply that is no
//! success is an error.

use vstd::prelude::*;
use vstd::string::StringExecFns;

verus! {

/// How an element is looked up.
#[derive(Clone, Copy, Debug, PartialEq, Eq, Structural)]
pub enum Using {
    CssSelector,
    LinkText,
    PartialLinkText,
    TagName,
    XPath,
}

impl Using {
    /// The name of the strategy on the wire.
    pub open spec fn spec_wire_name(self) -> Seq<char> {
        match self {
            Using::CssSelector => "css selector"@,
            Using::LinkText => "link text"@,
            Using::PartialLinkText => "partial link text"@,
            Using::TagName => "tag name"@,
            Using::XPath => "xpath"@,
        }
    }

    /// The name of the strategy on the wire.
    pub fn wire_name(self) -> (r: &'static str)
        ensures
            r@ == self.spec_wire_name(),
    {
        match self {
            Using::CssSelector => "css selector",
            Using::LinkText => "link text",
            Using::PartialLinkText => "partial link text",
            Using::TagName => "tag name",
            Using::XPath => "xpath",
        }
    }
}

/// The key under which the protocol writes the identifier of an element.
pub open spec fn element_key() -> Seq<char> {
    "element-6066-11e4-a52e-4f735466cecf"@
}

/// The key under which the protocol writes the identifier of an element.
pub fn element_key_name() -> (r: &'static str)
    ensures
        r@ == element_key(),
{
    "element-6066-11e4-a52e-4f735466cecf"
}

/// A handle to one node of the page: the identifier that the server gave
/// it. It is passed back as it came and never looked into.
#[derive(Clone, Debug, PartialEq, Eq)]
pub struct WebElement {
    element_id: String,
}

impl View for WebElement {
    type V = Seq<char>;

    closed spec fn view(&self) -> Seq<char> {
        self.element_id@
    }
}

impl WebElement {
    /// The handle with the identifier `element_id`.
    pub fn new(element_id: String) -> (e: WebElement)
        ensures
            e@ == element_id@,
    {
        WebElement { element_id }
    }

    /// The identifier of the handle.
    pub fn id(&self) -> (r: &str)
        ensures
            r@ == self@,
    {
        self.element_id.as_str()
    }
}

/// One capability: its name and its value as JSON text.
#[derive(Clone, Debug, PartialEq, Eq)]
pub struct Capability {
    pub name: String,
    pub json: String,
}

impl View for Capability {
    type V = (Seq<char>, Seq<char>);

    open spec fn view(&self) -> (Seq<char>, Seq<char>) {
        (self.name@, self.json@)
    }
}

/// The capabilities of a list.
pub open spec fn capability_views(caps: Seq<Capability>) -> Seq<(Seq<char>, Seq<char>)> {
    Seq::new(caps.len(), |i: int| caps[i]@)
}

/// The capabilities of each list of a list of alternatives.
pub open spec fn alternative_views(alts: Seq<Vec<Capability>>) -> Seq<
    Seq<(Seq<char>, Seq<char>)>,
> {
    Seq::new(alts.len(), |i: int| capability_views(alts[i]@))
}

/// The handles of a list.
pub open spec fn element_views(elements: Seq<WebElement>) -> Seq<Seq<char>> {
    Seq::new(elements.len(), |i: int| elements[i]@)
}

/// The capabilities that ask Firefox to run with or without a window.
pub open spec fn firefox_capabilities(headless: bool) -> Seq<(Seq<char>, Seq<char>)> {
    if headless {
        seq![("moz:firefoxOptions"@, "{\"args\":[\"-headless\"]}"@)]
    } else {
        Seq::empty()
    }
}

/// The method of a request.
#[derive(Clone, Copy, Debug, PartialEq, Eq, Structural)]
pub enum Method {
    Get,
    Post,
    Delete,
}

/// What a request carries. The caller writes it as JSON.
#[derive(Clone, Debug, PartialEq, Eq)]
pub enum Payload {
    /// No body at all.
    Absent,
    /// The empty object.
    Empty,
    /// `{"capabilities": {"alwaysMatch": .., "firstMatch": [..]}}`
    NewSession { always_match: Vec<Capability>, first_match: Vec<Vec<Capability>> },
    /// `{"using": .., "value": ..}`
    Locate { using: Using, value: String },
    /// `{"text": ..}`
    Keys { text: String },
    /// `{"script": .., "args": [..]}`
    Script { script: String, args: Vec<WebElement> },
    /// `{"url": ..}`
    Navigate { url: String },
}

/// The mathematical content of a [`Payload`].
pub enum PayloadModel {
    Absent,
    Empty,
    NewSession {
        always_match: Seq<(Seq<char>, Seq<char>)>,
        first_match: Seq<Seq<(Seq<char>, Seq<char>)>>,
    },
    Locate { using: Using, value: Seq<char> },
    Keys { text: Seq<char> },
    Script { script: Seq<char>, args: Seq<Seq<char>> },
    Navigate { url: Seq<char> },
}

impl View for Payload {
    type V = PayloadModel;

    open spec fn view(&self) -> PayloadModel {
        match self {
            Payload::Absent => PayloadModel::Absent,
            Payload::Empty => PayloadModel::Empty,
            Payload::NewSession { always_match, first_match } => PayloadModel::NewSession {
                always_match: capability_views(always_match@),
                first_match: alternative_views(first_match@),
            },
            Payload::Locate { using, value } => PayloadModel::Locate {
                using: *using,
                value: value@,
            },
            Payload::Keys { text } => PayloadModel::Keys { text: text@ },
            Payload::Script { script, args } => PayloadModel::Script {
                script: script@,
                args: element_views(args@),
            },
            Payload::Navigate { url } => PayloadModel::Navigate { url: url@ },
        }
    }
}

/// One request to the browser-control server.
#[derive(Clone, Debug, PartialEq, Eq)]
pub struct Request {
    pub method: Method,
    pub url: String,
    pub payload: Payload,
}

/// The mathematical content of a [`Request`].
pub struct RequestModel {
    pub method: Method,
    pub url: Seq<char>,
    pub payload: PayloadModel,
}

impl View for Request {
    type V = RequestModel;

    open spec fn view(&self) -> RequestModel {
        RequestModel { method: self.method, url: self.url@, payload: self.payload@ }
    }
}

/// What came back for a request: the status of the response and its body
/// as text.
#[derive(Clone, Debug, PartialEq, Eq)]
pub struct Reply {
    pub status: u16,
    pub body: String,
}

/// Why an operation failed.
#[derive(Clone, Debug, PartialEq, Eq)]
pub enum WebDriverError {
    /// The response was no success, or its body was not the JSON that the
    /// operation gives.
    Protocol { status: u16, body: String },
    /// No element matched, where one was asked for.
    NotFound,
}

/// Whether `status` is a success: 200 to 299.
pub open spec fn is_success(status: u16) -> bool {
    200 <= status < 300
}

/// The error code with which the server says that nothing matched.
pub open spec fn no_such_element() -> Seq<char> {
    "no such element"@
}

impl Reply {
    /// The error that stands for this reply.
    pub open spec fn protocol_error(self) -> WebDriverError {
        WebDriverError::Protocol { status: self.status, body: self.body }
    }

    /// Reads the reply to an operation that gives nothing: any success
    /// will do, whatever the body.
    pub fn check(self) -> (r: Result<(), WebDriverError>)
        ensures
            r == (if is_success(self.status) {
                Ok(())
            } else {
                Err(self.protocol_error())
            }),
    {
        if 200 <= self.status && self.status < 300 {
            Ok(())
        } else {
            Err(WebDriverError::Protocol { status: self.status, body: self.body })
        }
    }

    /// Reads the reply to an operation that gives a value. `decoded` is the
    /// `value` member of the body, or `None` where the body is no JSON of
    /// the expected shape.
    pub fn value<T>(self, decoded: Option<T>) -> (r: Result<T, WebDriverError>)
        ensures
            r == (if is_success(self.status) && decoded is Some {
                Ok::<T, WebDriverError>(decoded->0)
            } else {
                Err(self.protocol_error())
            }),
    {
        if 200 <= self.status && self.status < 300 {
            match decoded {
                Some(v) => Ok(v),
                None => Err(WebDriverError::Protocol { status: self.status, body: self.body }),
            }
        } else {
            Err(WebDriverError::Protocol { status: self.status, body: self.body })
        }
    }

    /// Reads the reply to the read of an attribute. `decoded` is the `value`
    /// member of the body: `Some(None)` where it is null, which the server
    /// writes for an attribute that the element does not have, and `None`
    /// where the body is no JSON of the expected shape.
    ///
    /// An attribute that is not there is no error: the result is then
    /// `Ok(None)`.
    pub fn attribute(self, decoded: Option<Option<String>>) -> (r: Result<
        Option<String>,
        WebDriverError,
    >)
        ensures
            r == (if !is_success(self.status) {
                Err::<Option<String>, WebDriverError>(self.protocol_error())
            } else {
                match decoded {
                    Some(Some(text)) => Ok(Some(text)),
                    Some(None) => Ok(None),
                    None => Err(self.protocol_error()),
                }
            }),
    {
        if 200 <= self.status && self.status < 300 {
            match decoded {
                Some(found) => Ok(found),
                None => Err(WebDriverError::Protocol { status: self.status, body: self.body }),
            }
        } else {
            Err(WebDriverError::Protocol { status: self.status, body: self.body })
        }
    }

    /// Reads the reply to the lookup of a single element. `decoded` is the
    /// handle in the body, if there is one, and `error` the error code in
    /// the body, if there is one.
    ///
    /// A failure with the code `no such element` means that nothing
    /// matched; any other failure is a protocol error.
    pub fn element(self, decoded: Option<WebElement>, error: Option<String>) -> (r: Result<
        WebElement,
        WebDriverError,
    >)
        ensures
            r == (if is_success(self.status) {
                if decoded is Some {
                    Ok::<WebElement, WebDriverError>(decoded->0)
                } else {
                    Err(self.protocol_error())
                }
            } else if error is Some && error->0@ == no_such_element() {
                Err(WebDriverError::NotFound)
            } else {
                Err(self.protocol_error())
            }),
    {
        if 200 <= self.status && self.status < 300 {
            match decoded {
                Some(v) => Ok(v),
                None => Err(WebDriverError::Protocol { status: self.status, body: self.body }),
            }
        } else {
            let missing = match error {
                Some(code) => code == String::from_str("no such element"),
                None => false,
            };
            if missing {
                Err(WebDriverError::NotFound)
            } else {
                Err(WebDriverError::Protocol { status: self.status, body: self.body })
            }
        }
    }
}

/// The address at which sessions are opened on the server at `base`.
pub open spec fn sessions_url(base: Seq<char>) -> Seq<char> {
    base + "/session"@
}

/// The address of the session `session` on the server at `base`.
pub open spec fn session_url(base: Seq<char>, session: Seq<char>) -> Seq<char> {
    base + "/session/"@ + session
}

/// The address of the element `element` in the session `session`.
pub open spec fn element_url(base: Seq<char>, session: Seq<char>, element: Seq<char>) -> Seq<
    char,
> {
    session_url(base, session) + "/element/"@ + element
}

/// The request that opens a session with the given capabilities.
pub open spec fn open_session(
    base: Seq<char>,
    always_match: Seq<(Seq<char>, Seq<char>)>,
    first_match: Seq<Seq<(Seq<char>, Seq<char>)>>,
) -> RequestModel {
    RequestModel {
        method: Method::Post,
        url: sessions_url(base),
        payload: PayloadModel::NewSession { always_match, first_match },
    }
}

/// A session with a browser-control server: the address of the server and
/// the identifier that it gave the session.
#[derive(Debug, PartialEq, Eq)]
pub struct WebDriver {
    url: String,
    session_id: String,
}

impl WebDriver {
    /// The address of the server.
    pub closed spec fn base(&self) -> Seq<char> {
        self.url@
    }

    /// The identifier of the session.
    pub closed spec fn session(&self) -> Seq<char> {
        self.session_id@
    }

    /// The address of this session.
    pub open spec fn here(&self) -> Seq<char> {
        session_url(self.base(), self.session())
    }

    /// The address of `element` in this session.
    pub open spec fn at(&self, element: &WebElement) -> Seq<char> {
        element_url(self.base(), self.session(), element@)
    }

    /// The request that opens a session on the server at `url`.
    pub fn session_request(
        url: &str,
        always_match: Vec<Capability>,
        first_match: Vec<Vec<Capability>>,
    ) -> (r: Request)
        ensures
            r@ == open_session(
                url@,
                capability_views(always_match@),
                alternative_views(first_match@),
            ),
    {
        let mut target = String::from_str(url);
        target.append("/session");
        Request {
            method: Method::Post,
            url: target,
            payload: Payload::NewSession { always_match, first_match },
        }
    }

    /// The request that opens a Firefox session on the server at `url`:
    /// nothing is required of every match, and the one alternative asks
    /// for a run without a window if `headless` is set, and for nothing
    /// otherwise.
    pub fn new_firefox(url: &str, headless: bool) -> (r: Request)
        ensures
            r@ == open_session(
                url@,
                Seq::empty(),
                seq![firefox_capabilities(headless)],
            ),
    {
        let mut caps: Vec<Capability> = Vec::new();
        if headless {
            caps.push(
                Capability {
                    name: String::from_str("moz:firefoxOptions"),
                    json: String::from_str("{\"args\":[\"-headless\"]}"),
                },
            );
        }
        let mut first_match: Vec<Vec<Capability>> = Vec::new();
        first_match.push(caps);
        let always_match: Vec<Capability> = Vec::new();
        proof {
            assert(capability_views(always_match@) =~= Seq::empty());
            assert(capability_views(caps@) =~= firefox_capabilities(headless));
            assert(alternative_views(first_match@) =~= seq![firefox_capabilities(headless)]);
        }
        WebDriver::session_request(url, always_match, first_match)
    }

    /// The session that the server at `url` opened, as its reply says.
    /// `session_id` is the identifier in the body, or `None` where the body
    /// holds none.
    pub fn new(url: String, reply: Reply, session_id: Option<String>) -> (r: Result<
        WebDriver,
        WebDriverError,
    >)
        ensures
            match r {
                Ok(wd) => is_success(reply.status) && session_id is Some && wd.base() == url@
                    && wd.session() == session_id->0@,
                Err(e) => !(is_success(reply.status) && session_id is Some) && e
                    == reply.protocol_error(),
            },
    {
        match reply.value(session_id) {
            Ok(id) => Ok(WebDriver { url, session_id: id }),
            Err(e) => Err(e),
        }
    }

    fn session_path(&self, tail: &str) -> (r: String)
        ensures
            r@ == self.here() + tail@,
    {
        let mut target = String::from_str(self.url.as_str());
        target.append("/session/");
        target.append(self.session_id.as_str());
        target.append(tail);
        target
    }

    fn element_path(&self, element: &WebElement, tail: &str) -> (r: String)
        ensures
            r@ == self.at(element) + tail@,
    {
        let mut target = String::from_str(self.url.as_str());
        target.append("/session/");
        target.append(self.session_id.as_str());
        target.append("/element/");
        target.append(element.element_id.as_str());
        target.append(tail);
        target
    }

    /// The request that looks up all elements of the page that match.
    pub fn get_elements(&self, using: Using, value: &str) -> (r: Request)
        ensures
            r@ == (RequestModel {
                method: Method::Post,
                url: self.here() + "/elements"@,
                payload: PayloadModel::Locate { using, value: value@ },
            }),
    {
        Request {
            method: Method::Post,
            url: self.session_path("/elements"),
            payload: Payload::Locate { using, value: String::from_str(value) },
        }
    }

    /// The request that looks up the first element of the page that
    /// matches.
    pub fn get_element(&self, using: Using, value: &str) -> (r: Request)
        ensures
            r@ == (RequestModel {
                method: Method::Post,
                url: self.here() + "/element"@,
                payload: PayloadModel::Locate { using, value: value@ },
            }),
    {
        Request {
            method: Method::Post,
            url: self.session_path("/element"),
            payload: Payload::Locate { using, value: String::from_str(value) },
        }
    }

    /// The request that looks up all elements below `element` that match.
    pub fn get_elements_from_element(&self, element: &WebElement, using: Using, value: &str) -> (r:
        Request)
        ensures
            r@ == (RequestModel {
                method: Method::Post,
                url: self.at(element) + "/elements"@,
                payload: PayloadModel::Locate { using, value: value@ },
            }),
    {
        Request {
            method: Method::Post,
            url: self.element_path(element, "/elements"),
            payload: Payload::Locate { using, value: String::from_str(value) },
        }
    }

    /// The request that looks up the first element below `element` that
    /// matches.
    pub fn get_element_from_element(&self, element: &WebElement, using: Using, value: &str) -> (r:
        Request)
        ensures
            r@ == (RequestModel {
                method: Method::Post,
                url: self.at(element) + "/element"@,
                payload: PayloadModel::Locate { using, value: value@ },
            }),
    {
        Request {
            method: Method::Post,
            url: self.element_path(element, "/element"),
            payload: Payload::Locate { using, value: String::from_str(value) },
        }
    }

    /// The request that clicks `element`.
    pub fn element_click(&self, element: &WebElement) -> (r: Request)
        ensures
            r@ == (RequestModel {
                method: Method::Post,
                url: self.at(element) + "/click"@,
                payload: PayloadModel::Empty,
            }),
    {
        Request {
            method: Method::Post,
            url: self.element_path(element, "/click"),
            payload: Payload::Empty,
        }
    }

    /// The request that reads the attribute `attr` of `element`. Its reply
    /// is read by [`Reply::attribute`].
    pub fn get_element_attr(&self, element: &WebElement, attr: &str) -> (r: Request)
        ensures
            r@ == (RequestModel {
                method: Method::Get,
                url: self.at(element) + "/attribute/"@ + attr@,
                payload: PayloadModel::Absent,
            }),
    {
        let mut target = self.element_path(element, "/attribute/");
        target.append(attr);
        Request { method: Method::Get, url: target, payload: Payload::Absent }
    }

    /// The request that reads the property `prop` of `element`.
    pub fn get_element_prop(&self, element: &WebElement, prop: &str) -> (r: Request)
        ensures
            r@ == (RequestModel {
                method: Method::Get,
                url: self.at(element) + "/property/"@ + prop@,
                payload: PayloadModel::Absent,
            }),
    {
        let mut target = self.element_path(element, "/property/");
        target.append(prop);
        Request { method: Method::Get, url: target, payload: Payload::Absent }
    }

    /// The request that reads the rendered text of `element`.
    pub fn get_element_text(&self, element: &WebElement) -> (r: Request)
        ensures
            r@ == (RequestModel {
                method: Method::Get,
                url: self.at(element) + "/text"@,
                payload: PayloadModel::Absent,
            }),
    {
        Request {
            method: Method::Get,
            url: self.element_path(element, "/text"),
            payload: Payload::Absent,
        }
    }

    /// The request that types `keys` into `element`.
    pub fn element_send_keys(&self, element: &WebElement, keys: &str) -> (r: Request)
        ensures
            r@ == (RequestModel {
                method: Method::Post,
                url: self.at(element) + "/value"@,
                payload: PayloadModel::Keys { text: keys@ },
            }),
    {
        Request {
            method: Method::Post,
            url: self.element_path(element, "/value"),
            payload: Payload::Keys { text: String::from_str(keys) },
        }
    }

    /// The request that runs `script` in the page, without arguments, for
    /// its effect.
    pub fn run_script_unit(&self, script: &str) -> (r: Request)
        ensures
            r@ == (RequestModel {
                method: Method::Post,
                url: self.here() + "/execute/sync"@,
                payload: PayloadModel::Script { script: script@, args: Seq::empty() },
            }),
    {
        let args: Vec<WebElement> = Vec::new();
        proof {
            assert(element_views(args@) =~= Seq::empty());
        }
        Request {
            method: Method::Post,
            url: self.session_path("/execute/sync"),
            payload: Payload::Script { script: String::from_str(script), args },
        }
    }

    /// The request that runs `script` in the page with `element` as its
    /// one argument, for the value that it returns.
    pub fn run_script_elem(&self, script: &str, element: &WebElement) -> (r: Request)
        ensures
            r@ == (RequestModel {
                method: Method::Post,
                url: self.here() + "/execute/sync"@,
                payload: PayloadModel::Script { script: script@, args: seq![element@] },
            }),
    {
        let mut args: Vec<WebElement> = Vec::new();
        args.push(WebElement { element_id: element.element_id.clone() });
        proof {
            assert(element_views(args@) =~= seq![element@]);
        }
        Request {
            method: Method::Post,
            url: self.session_path("/execute/sync"),
            payload: Payload::Script { script: String::from_str(script), args },
        }
    }

    /// The request that sends the browser to `url`.
    pub fn navigate(&self, url: &str) -> (r: Request)
        ensures
            r@ == (RequestModel {
                method: Method::Post,
                url: self.here() + "/url"@,
                payload: PayloadModel::Navigate { url: url@ },
            }),
    {
        Request {
            method: Method::Post,
            url: self.session_path("/url"),
            payload: Payload::Navigate { url: String::from_str(url) },
        }
    }

    /// The request that ends the session. The session is given up with it.
    pub fn close(self) -> (r: Request)
        ensures
            r@ == (RequestModel {
                method: Method::Delete,
                url: self.here(),
                payload: PayloadModel::Absent,
            }),
    {
        let target = self.session_path("");
        proof {
            reveal_strlit("");
            assert(self.here() + ""@ =~= self.here());
        }
        Request { method: Method::Delete, url: target, payload: Payload::Absent }
    }
}

} // verus!
