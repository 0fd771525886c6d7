//! Vision backend client logic.
//!
//! The backend is a REST service: one action endpoint and one health
//! endpoint. The HTTP traffic itself happens in the surrounding
//! application; this module builds the requests, classifies the responses
//! and renders the failure texts, so that a transport failure, a non-2xx
//! status and a decode failure stay distinguishable.

use vstd::prelude::*;

verus! {

/// Action kinds the backend's action endpoint accepts.
#[derive(Debug, Clone, Copy, PartialEq, Eq, Structural)]
pub enum BytebotAction {
    Screenshot,
    Click,
    Type,
    ScrollUp,
    ScrollDown,
}

/// The wire name of an action kind.
pub open spec fn action_name_of(a: BytebotAction) -> Seq<char> {
    match a {
        BytebotAction::Screenshot => "screenshot".view(),
        BytebotAction::Click => "click".view(),
        BytebotAction::Type => "type".view(),
        BytebotAction::ScrollUp => "scroll_up".view(),
        BytebotAction::ScrollDown => "scroll_down".view(),
    }
}

impl BytebotAction {
    /// The name under which the backend knows this action.
    pub fn name(&self) -> (r: &'static str)
        ensures
            r.view() == action_name_of(*self),
    {
        match self {
            BytebotAction::Screenshot => "screenshot",
            BytebotAction::Click => "click",
            BytebotAction::Type => "type",
            BytebotAction::ScrollUp => "scroll_up",
            BytebotAction::ScrollDown => "scroll_down",
        }
    }
}

/// Body of one action request.
#[derive(Debug)]
pub struct ComputerUseRequest {
    /// Wire name of the action.
    pub action: String,
    /// Click coordinate, x then y; only for coordinate actions.
    pub coordinate: Option<[i32; 2]>,
    /// Text to type; only for the typing action.
    pub text: Option<String>,
}

/// Body of one action response. A missing success field means success.
#[derive(Debug)]
pub struct ComputerUseResponse {
    /// Screenshot data, for the screenshot action.
    pub screenshot: Option<String>,
    /// Result message, if the backend sent one.
    pub message: Option<String>,
    /// Whether the action succeeded.
    pub success: bool,
}

/// The success value the response carries when the wire had none.
pub fn default_true() -> (b: bool)
    ensures
        b,
{
    true
}

/// Assemble a response from decoded wire fields; a missing success flag
/// defaults to true.
pub fn response_from_parts(
    screenshot: Option<String>,
    message: Option<String>,
    success: Option<bool>,
) -> (r: ComputerUseResponse)
    ensures
        r.screenshot == screenshot,
        r.message == message,
        r.success == match success {
            Some(b) => b,
            None => true,
        },
{
    let success = match success {
        Some(b) => b,
        None => default_true(),
    };
    ComputerUseResponse { screenshot, message, success }
}

/// Client state for the vision backend: its base URL.
#[derive(Debug)]
pub struct BytebotClient {
    base_url: String,
}

impl BytebotClient {
    /// The configured base URL.
    pub closed spec fn base(&self) -> Seq<char> {
        self.base_url.view()
    }

    /// A client for the backend at the given base URL.
    pub fn new(base_url: String) -> (c: Self)
        ensures
            c.base() == base_url.view(),
    {
        BytebotClient { base_url }
    }

    /// The default base URL, used when no override is configured.
    pub fn default_url() -> (r: String)
        ensures
            r.view() == "http://localhost:9990".view(),
    {
        "http://localhost:9990".to_owned()
    }

    /// URL of the liveness probe.
    pub fn health_url(&self) -> (r: String)
        ensures
            r.view() == self.base() + "/health".view(),
    {
        let mut s = self.base_url.clone();
        s.append("/health");
        s
    }

    /// URL of the action endpoint.
    pub fn action_url(&self) -> (r: String)
        ensures
            r.view() == self.base() + "/computer-use".view(),
    {
        let mut s = self.base_url.clone();
        s.append("/computer-use");
        s
    }

    /// The request body for a screenshot.
    pub fn screenshot_request(&self) -> (r: ComputerUseRequest)
        ensures
            r.action.view() == "screenshot".view(),
            r.coordinate is None,
            r.text is None,
    {
        ComputerUseRequest { action: "screenshot".to_owned(), coordinate: None, text: None }
    }

    /// The request body for a click at the given screen coordinate.
    pub fn click_request(&self, x: i32, y: i32) -> (r: ComputerUseRequest)
        ensures
            r.action.view() == "click".view(),
            match r.coordinate {
                Some(c) => c.view() == seq![x, y],
                None => false,
            },
            r.text is None,
    {
        let c: [i32; 2] = [x, y];
        proof {
            assert(c.view() =~= seq![x, y]);
        }
        ComputerUseRequest { action: "click".to_owned(), coordinate: Some(c), text: None }
    }

    /// The request body for typing the given text at the current focus.
    pub fn type_request(&self, text: String) -> (r: ComputerUseRequest)
        ensures
            r.action.view() == "type".view(),
            r.coordinate is None,
            match r.text {
                Some(t) => t.view() == text.view(),
                None => false,
            },
    {
        ComputerUseRequest { action: "type".to_owned(), coordinate: None, text: Some(text) }
    }
}

/// Failure text for an HTTP status outside the 2xx range.
pub open spec fn http_error_text(status_text: Seq<char>, body: Seq<char>) -> Seq<char> {
    "Bytebot error (".view() + status_text + "): ".view() + body
}

/// Failure text for a request that could not be sent or answered.
pub open spec fn transport_error_text(reason: Seq<char>) -> Seq<char> {
    "Bytebot request failed: ".view() + reason
}

/// Failure text for a response that could not be decoded.
pub open spec fn decode_error_text(reason: Seq<char>) -> Seq<char> {
    "Bytebot response parse error: ".view() + reason
}

/// Classify an HTTP response: a 2xx status hands the body on for decoding,
/// any other status fails with a text carrying the status and the body
/// verbatim.
pub fn classify_http_response(status: u16, status_text: &str, body: String) -> (r: Result<
    String,
    String,
>)
    ensures
        200 <= status < 300 ==> match r {
            Ok(b) => b == body,
            Err(_) => false,
        },
        !(200 <= status < 300) ==> match r {
            Ok(_) => false,
            Err(m) => m.view() == http_error_text(status_text.view(), body.view()),
        },
{
    if 200 <= status && status < 300 {
        Ok(body)
    } else {
        let mut s = "Bytebot error (".to_owned();
        s.append(status_text);
        s.append("): ");
        s.append(body.as_str());
        proof {
            assert(s.view() =~= http_error_text(status_text.view(), body.view()));
        }
        Err(s)
    }
}

/// Failure text for a request that could not be sent or answered.
pub fn transport_error(reason: &str) -> (r: String)
    ensures
        r.view() == transport_error_text(reason.view()),
{
    let mut s = "Bytebot request failed: ".to_owned();
    s.append(reason);
    s
}

/// Failure text for a response that could not be decoded.
pub fn decode_error(reason: &str) -> (r: String)
    ensures
        r.view() == decode_error_text(reason.view()),
{
    let mut s = "Bytebot response parse error: ".to_owned();
    s.append(reason);
    s
}

/// Law: the three failure texts of the vision client never coincide,
/// whatever status, body and reasons they carry: an HTTP-status failure, a
/// transport failure and a decode failure stay pairwise distinguishable.
pub proof fn lemma_failure_texts_distinct(
    status_text: Seq<char>,
    body: Seq<char>,
    transport_reason: Seq<char>,
    decode_reason: Seq<char>,
)
    ensures
        http_error_text(status_text, body) != transport_error_text(transport_reason),
        http_error_text(status_text, body) != decode_error_text(decode_reason),
        transport_error_text(transport_reason) != decode_error_text(decode_reason),
{
    reveal_strlit("Bytebot error (");
    reveal_strlit("Bytebot request failed: ");
    reveal_strlit("Bytebot response parse error: ");
    assert(http_error_text(status_text, body)[8] == 'e');
    assert(transport_error_text(transport_reason)[8] == 'r');
    assert(decode_error_text(decode_reason)[8] == 'r');
    assert(transport_error_text(transport_reason)[10] == 'q');
    assert(decode_error_text(decode_reason)[10] == 's');
}

} // verus!
