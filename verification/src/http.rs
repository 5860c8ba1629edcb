//! HTTP requests and responses as plain values.

use vstd::prelude::*;
use vstd::string::*;
use vstd::utf8::*;
use crate::json::{Json, JsonTree};
use crate::serde_bridge::json_text;

verus! {

/// A request to be sent.
#[derive(Debug)]
pub struct HttpRequest {
    pub method: String,
    pub url: String,
    /// The headers, as a JSON object.
    pub headers_json: String,
    pub body: Option<Vec<u8>>,
    pub timeout_ms: Option<u32>,
}

/// What an [`HttpRequest`] says.
pub struct RequestView {
    pub method: Seq<char>,
    pub url: Seq<char>,
    pub headers_json: Seq<char>,
    pub body: Option<Seq<u8>>,
    pub timeout_ms: Option<u32>,
}

/// A response that was received.
#[derive(Debug)]
pub struct HttpResponse {
    pub status: u16,
    pub body: Vec<u8>,
}

/// A response to be sent.
#[derive(Debug)]
pub struct OutgoingHttpResponse {
    pub status: u16,
    /// The headers, as a JSON object.
    pub headers_json: String,
    pub body: Vec<u8>,
}

/// What an [`OutgoingHttpResponse`] says.
pub struct ResponseView {
    pub status: u16,
    pub headers_json: Seq<char>,
    pub body: Seq<u8>,
}

impl View for HttpRequest {
    type V = RequestView;

    open spec fn view(&self) -> RequestView {
        RequestView {
            method: self.method@,
            url: self.url@,
            headers_json: self.headers_json@,
            body: match self.body {
                Some(bytes) => Some(bytes@),
                None => None,
            },
            timeout_ms: self.timeout_ms,
        }
    }
}

impl View for OutgoingHttpResponse {
    type V = ResponseView;

    open spec fn view(&self) -> ResponseView {
        ResponseView {
            status: self.status,
            headers_json: self.headers_json@,
            body: self.body@,
        }
    }
}

/// The bytes of a JSON text.
pub open spec fn json_bytes(tree: JsonTree) -> Seq<u8> {
    encode_utf8(json_text(tree))
}

/// The header that declares a JSON body.
pub open spec fn content_type_tree() -> JsonTree {
    JsonTree::Object(
        Map::empty().insert("Content-Type"@, JsonTree::Text("application/json"@)),
    )
}

/// The status tells success.
pub open spec fn success(status: u16) -> bool {
    200 <= status < 300
}

/// A JSON response.
pub open spec fn json_reply(status: u16, value: JsonTree) -> ResponseView {
    ResponseView {
        status,
        headers_json: json_text(content_type_tree()),
        body: json_bytes(value),
    }
}

/// The text that `String::from_utf8_lossy` makes of bytes: what is not valid UTF-8 is
/// replaced.
pub uninterp spec fn lossy_text(bytes: Seq<u8>) -> Seq<char>;

/// `String::from_utf8_lossy` makes a text that depends on the bytes alone; of valid
/// UTF-8 it makes the text that the bytes encode.
#[verifier::external_body]
pub(crate) fn text_from_utf8_lossy(bytes: &[u8]) -> (text: String)
    ensures
        text@ == lossy_text(bytes@),
        valid_utf8(bytes@) ==> text@ == decode_utf8(bytes@),
{
    String::from_utf8_lossy(bytes).into_owned()
}

/// `str::from_utf8` gives the text that the bytes encode, and fails where they are not
/// valid UTF-8.
#[verifier::external_body]
pub(crate) fn text_from_utf8(bytes: &[u8]) -> (text: Option<&str>)
    ensures
        text is Some == valid_utf8(bytes@),
        text matches Some(s) ==> s@ == decode_utf8(bytes@),
{
    std::str::from_utf8(bytes).ok()
}

/// The JSON text of a value, as bytes.
pub fn to_json_bytes(value: &Json) -> (bytes: Vec<u8>)
    ensures
        bytes@ == json_bytes(value.tree()),
{
    value.to_text().as_str().as_bytes_vec()
}

/// The header that declares a JSON body.
pub fn content_type_json() -> (text: String)
    ensures
        text@ == json_text(content_type_tree()),
{
    let mut headers: Vec<(String, Json)> = Vec::new();
    crate::json::add_entry(&mut headers, "Content-Type", Json::text("application/json"));
    Json::Object(headers).to_text()
}

/// A JSON response.
pub fn json_response(status: u16, value: &Json) -> (r: OutgoingHttpResponse)
    ensures
        r@ == json_reply(status, value.tree()),
{
    OutgoingHttpResponse {
        status,
        headers_json: content_type_json(),
        body: to_json_bytes(value),
    }
}

/// Whether the status tells success.
pub fn is_success(status: u16) -> (r: bool)
    ensures
        r == success(status),
{
    status >= 200 && status < 300
}

/// A JSON response has the status and the JSON text of the value it was given, and says
/// that it is JSON.
pub proof fn responses_carry_their_value(status: u16, value: JsonTree)
    ensures
        json_reply(status, value).status == status,
        json_reply(status, value).body == encode_utf8(json_text(value)),
        json_reply(status, value).headers_json == json_text(content_type_tree()),
        forall|key: Seq<char>| #[trigger]
            crate::plain::field(content_type_tree(), key) == if key == "Content-Type"@ {
                Some(JsonTree::Text("application/json"@))
            } else {
                None
            },
{
}

/// Success is a status from 200 to 299.
pub proof fn success_is_two_hundred(status: u16)
    ensures
        success(status) <==> status / 100 == 2,
{
}

/// What a request and a response say is what their fields hold.
pub proof fn requests_and_responses_say_what_they_hold(
    request: HttpRequest,
    response: OutgoingHttpResponse,
)
    ensures
        request@.method == request.method@,
        request@.url == request.url@,
        request@.headers_json == request.headers_json@,
        request@.timeout_ms == request.timeout_ms,
        request.body is None ==> request@.body is None,
        request.body matches Some(bytes) ==> request@.body == Some(bytes@),
        response@.status == response.status,
        response@.headers_json == response.headers_json@,
        response@.body == response.body@,
{
}

} // verus!
