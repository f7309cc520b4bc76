//! The wire side of the protocol layer: the request and response data
//! types, content negotiation and response encoding. Socket reads and
//! writes, and the disk reads for file-backed bodies, stay with the
//! process runner, which hands the bytes in and out.

use vstd::prelude::*;
use crate::text;
#[allow(unused_imports)]
use vstd::utf8::encode_utf8;
use vstd::string::StringSliceAdditionalSpecFns;

verus! {

/// The kinds of image the node can serve.
pub enum ImageType {
    PNG,
    ICO,
    JPEG,
}

/// What a successful response carries.
pub enum Content {
    /// Path of an HTML file to serve.
    HTML(String),
    /// JSON text, already rendered.
    JSON(String),
    /// Path of an image file to serve, with its subtype.
    Image(String, ImageType),
    /// Plain text.
    PlainText(String),
}

/// The logical outcome of handling a request.
pub enum HTTPResponse {
    OK(Option<Content>),
    InvalidMethod,
    BadRequest,
    InternalServerError,
}

/// The data of a read request.
pub struct GETData {
    pub path: String,
}

/// The data of a write request.
pub struct POSTData {
    pub path: String,
    pub body: Option<String>,
}

/// A parsed request's method with its data.
pub enum Method {
    GET(GETData),
    POST(POSTData),
}

/// The path a request addresses.
pub open spec fn spec_method_path(m: &Method) -> Seq<char> {
    match m {
        Method::GET(data) => data.path@,
        Method::POST(data) => data.path@,
    }
}

/// The reason phrase the encoder writes for a status code.
pub open spec fn spec_status_reason(status: u16) -> Seq<char> {
    if status == 200 {
        "OK"@
    } else if status == 400 {
        "Bad Request"@
    } else if status == 405 {
        "Method Not Allowed"@
    } else {
        "Unknown"@
    }
}

/// The full wire form of a response: status line, content type and
/// length, blank line, body.
pub open spec fn spec_response_wire(status: u16, content_type: Seq<char>, body: Seq<u8>) -> Seq<
    u8,
> {
    text::chars_as_bytes("HTTP/1.1 "@) + text::spec_u64_bytes(status as nat)
        + text::chars_as_bytes(" "@) + text::chars_as_bytes(spec_status_reason(status))
        + text::chars_as_bytes("\r\nContent-Type: "@) + text::chars_as_bytes(content_type)
        + text::chars_as_bytes("\r\nContent-Length: "@) + text::spec_u64_bytes(body.len())
        + text::chars_as_bytes("\r\n\r\n"@) + body
}

/// A response ready to encode: status code, content type, body bytes.
pub struct Response {
    status: u16,
    content_type: &'static str,
    body: Vec<u8>,
}

impl Response {
    /// The status code.
    pub closed spec fn spec_status(&self) -> u16 {
        self.status
    }

    /// The content type text.
    pub closed spec fn spec_content_type(&self) -> Seq<char> {
        self.content_type@
    }

    /// The body bytes.
    pub closed spec fn spec_body(&self) -> Seq<u8> {
        self.body@
    }

    /// The content type is plain ASCII, as every content type the node
    /// writes is.
    pub closed spec fn wf(&self) -> bool {
        vstd::utf8::is_ascii_chars(self.content_type@)
    }

    /// Wraps the three parts of a response.
    pub fn new(status: u16, content_type: &'static str, body: Vec<u8>) -> (r: Self)
        requires
            vstd::utf8::is_ascii_chars(content_type@),
        ensures
            r.spec_status() == status,
            r.spec_content_type() == content_type@,
            r.spec_body() == body@,
            r.wf(),
    {
        Self { status, content_type, body }
    }

    /// Encodes the response as the exact byte sequence written to the
    /// connection.
    pub fn to_bytes(&self) -> (r: Vec<u8>)
        requires
            self.wf(),
        ensures
            r@ == spec_response_wire(self.spec_status(), self.spec_content_type(), self.spec_body()),
    {
        proof {
            reveal_strlit("HTTP/1.1 ");
            reveal_strlit(" ");
            reveal_strlit("OK");
            reveal_strlit("Bad Request");
            reveal_strlit("Method Not Allowed");
            reveal_strlit("Unknown");
            reveal_strlit("\r\nContent-Type: ");
            reveal_strlit("\r\nContent-Length: ");
            reveal_strlit("\r\n\r\n");
        }
        let mut out: Vec<u8> = Vec::new();
        push_lit_bytes(&mut out, "HTTP/1.1 ");
        text::push_u64_digits(self.status as u64, &mut out);
        push_lit_bytes(&mut out, " ");
        if self.status == 200 {
            push_lit_bytes(&mut out, "OK");
        } else if self.status == 400 {
            push_lit_bytes(&mut out, "Bad Request");
        } else if self.status == 405 {
            push_lit_bytes(&mut out, "Method Not Allowed");
        } else {
            push_lit_bytes(&mut out, "Unknown");
        }
        push_lit_bytes(&mut out, "\r\nContent-Type: ");
        let mut ct = text::ascii_str_bytes(self.content_type);
        out.append(&mut ct);
        push_lit_bytes(&mut out, "\r\nContent-Length: ");
        text::push_u64_digits(self.body.len() as u64, &mut out);
        push_lit_bytes(&mut out, "\r\n\r\n");
        let mut body = self.body.clone();
        out.append(&mut body);
        proof {
            assert(out@ =~= spec_response_wire(
                self.spec_status(),
                self.spec_content_type(),
                self.spec_body(),
            ));
        }
        out
    }
}

/// Appends an ASCII literal to a byte buffer.
fn push_lit_bytes(out: &mut Vec<u8>, lit: &str)
    requires
        vstd::utf8::is_ascii_chars(lit@),
    ensures
        final(out)@ == old(out)@ + text::chars_as_bytes(lit@),
{
    let mut bytes = text::ascii_str_bytes(lit);
    out.append(&mut bytes);
}

/// A parsed request: its method with data, its headers in arrival order,
/// and the protocol version text.
pub struct HTTPRequest {
    pub headers: Vec<(String, String)>,
    pub method: Method,
    pub http_version: String,
}

/// The value of the last header with the given name, the way a map built
/// by insertion would answer.
pub open spec fn spec_header_lookup(headers: Seq<(String, String)>, name: Seq<char>) -> Option<
    Seq<char>,
>
    decreases headers.len(),
{
    if headers.len() == 0 {
        Option::None
    } else if headers.last().0@ == name {
        Option::Some(headers.last().1@)
    } else {
        spec_header_lookup(headers.drop_last(), name)
    }
}

/// Looks a header up by exact name; the last occurrence wins.
pub fn header_lookup(headers: &Vec<(String, String)>, name: &str) -> (r: Option<String>)
    ensures
        match r {
            Option::Some(v) => spec_header_lookup(headers@, name@) == Option::Some(v@),
            Option::None => spec_header_lookup(headers@, name@) is None,
        },
{
    let mut i: usize = headers.len();
    proof {
        assert(headers@.subrange(0, headers@.len() as int) =~= headers@);
    }
    while i > 0
        invariant
            0 <= i <= headers@.len(),
            spec_header_lookup(headers@, name@) == spec_header_lookup(
                headers@.subrange(0, i as int),
                name@,
            ),
        decreases i,
    {
        i = i - 1;
        let pair = &headers[i];
        if text::str_eq(pair.0.as_str(), name) {
            proof {
                let pre = headers@.subrange(0, i as int + 1);
                assert(pre.last() == headers@[i as int]);
            }
            return Some(pair.1.clone());
        }
        proof {
            let pre = headers@.subrange(0, i as int + 1);
            assert(pre.last() == headers@[i as int]);
            assert(pre.drop_last() =~= headers@.subrange(0, i as int));
        }
    }
    proof {
        assert(headers@.subrange(0, 0) =~= Seq::<(String, String)>::empty());
    }
    None
}

impl HTTPRequest {
    /// The parsed method with its data.
    pub open spec fn spec_method(&self) -> Method {
        self.method
    }

    /// The protocol version text.
    pub open spec fn spec_http_version(&self) -> Seq<char> {
        self.http_version@
    }

    /// Assembles a request from its parsed pieces. Only read and write
    /// methods exist here; a body travels only with a write method.
    pub fn new(
        method: String,
        path: String,
        http_version: String,
        headers: Vec<(String, String)>,
        body: Option<String>,
    ) -> (r: HTTPRequest)
        requires
            method@ == "GET"@ || method@ == "POST"@,
        ensures
            r.headers@ == headers@,
            r.spec_http_version() == http_version@,
            method@ == "GET"@ ==> (r.spec_method() matches Method::GET(d) && d.path@ == path@),
            method@ == "POST"@ && method@ != "GET"@ ==> (r.spec_method() matches Method::POST(d)
                && d.path@ == path@ && d.body == body),
    {
        let is_get = text::str_eq(method.as_str(), "GET");
        HTTPRequest {
            method: if is_get {
                Method::GET(GETData { path })
            } else {
                Method::POST(POSTData { path, body })
            },
            http_version,
            headers,
        }
    }

    /// The request's method with its data.
    pub fn get_method(&self) -> (r: &Method)
        ensures
            *r == self.spec_method(),
    {
        &self.method
    }

    /// The value of the `Accept` header, if the client sent one.
    pub fn accept_header(&self) -> (r: Option<String>)
        ensures
            match r {
                Option::Some(v) => spec_header_lookup(self.headers@, "Accept"@) == Option::Some(
                    v@,
                ),
                Option::None => spec_header_lookup(self.headers@, "Accept"@) is None,
            },
    {
        header_lookup(&self.headers, "Accept")
    }
}

/// The content type text of each image kind.
pub open spec fn spec_image_content_type(it: &ImageType) -> Seq<char> {
    match it {
        ImageType::PNG => "image/png"@,
        ImageType::ICO => "image/vnd.microsoft.icon"@,
        ImageType::JPEG => "image/jpeg"@,
    }
}

/// The `Accept` text a decision is made over: the header when present,
/// else the given default.
pub open spec fn spec_accept_or(accept: Option<Seq<char>>, default: Seq<char>) -> Seq<char> {
    match accept {
        Option::Some(a) => a,
        Option::None => default,
    }
}

/// What the error encoder produces: an HTML body from disk when the
/// client accepts HTML (with a fixed fallback when the file is missing),
/// else a fixed plain-text body.
pub open spec fn spec_error_response(
    status: u16,
    fallback: Seq<char>,
    accept: Option<Seq<char>>,
    file: Option<Seq<u8>>,
) -> Option<(u16, Seq<char>, Seq<u8>)> {
    let a = spec_accept_or(accept, Seq::<char>::empty());
    if text::contains_seq(a, "text/html"@) {
        match file {
            Option::Some(b) => Option::Some((status, "text/html"@, b)),
            Option::None => Option::Some((status, "text/html"@, encode_utf8(fallback))),
        }
    } else {
        Option::Some((status, "text/plain"@, encode_utf8(fallback)))
    }
}

/// Content negotiation and encoding, as a function of the outcome, the
/// client's `Accept` header and the bytes read for a file-backed body.
/// `None` stands where a needed file body is missing.
pub open spec fn spec_make_response(
    status: &HTTPResponse,
    accept: Option<Seq<char>>,
    file: Option<Seq<u8>>,
) -> Option<(u16, Seq<char>, Seq<u8>)> {
    match status {
        HTTPResponse::OK(content_opt) => match content_opt {
            Option::Some(Content::HTML(_)) => match file {
                Option::Some(b) => Option::Some((200, "text/html"@, b)),
                Option::None => Option::None,
            },
            Option::Some(Content::JSON(value)) => Option::Some(
                (200, "application/json"@, encode_utf8(value@)),
            ),
            Option::Some(Content::Image(_, it)) => match file {
                Option::Some(b) => Option::Some((200, spec_image_content_type(it), b)),
                Option::None => Option::None,
            },
            Option::Some(Content::PlainText(t)) => Option::Some(
                (200, "text/plain"@, encode_utf8(t@)),
            ),
            Option::None => {
                let a = spec_accept_or(accept, "text"@);
                if text::contains_seq(a, "text/html"@) {
                    match file {
                        Option::Some(b) => Option::Some((200, "text/html"@, b)),
                        Option::None => Option::Some(
                            (200, "text/html"@, encode_utf8("NOT FOUND"@)),
                        ),
                    }
                } else if text::contains_seq(a, "application/json"@) {
                    Option::Some(
                        (200, "application/json"@, encode_utf8("{\"msg\":\"OK\",\"status\":200}"@)),
                    )
                } else {
                    Option::Some((200, "text"@, encode_utf8("Success"@)))
                }
            },
        },
        HTTPResponse::InvalidMethod => spec_error_response(
            405,
            "405 Invalid Method"@,
            accept,
            file,
        ),
        HTTPResponse::BadRequest => spec_error_response(400, "400 Bad Request"@, accept, file),
        HTTPResponse::InternalServerError => spec_error_response(
            500,
            "500 Internal Server Error"@,
            accept,
            file,
        ),
    }
}

/// The path of the file the encoder will need for this outcome, if any:
/// the content's own file for a successful file-backed body, the numbered
/// error page otherwise.
pub open spec fn spec_response_file(status: &HTTPResponse, accept: Option<Seq<char>>) -> Option<
    Seq<char>,
> {
    match status {
        HTTPResponse::OK(content_opt) => match content_opt {
            Option::Some(Content::HTML(path)) => Option::Some(path@),
            Option::Some(Content::Image(path, _)) => Option::Some(path@),
            Option::Some(_) => Option::None,
            Option::None => {
                if text::contains_seq(spec_accept_or(accept, "text"@), "text/html"@) {
                    Option::Some("static/200.html"@)
                } else {
                    Option::None
                }
            },
        },
        HTTPResponse::InvalidMethod => {
            if text::contains_seq(spec_accept_or(accept, Seq::<char>::empty()), "text/html"@) {
                Option::Some("static/405.html"@)
            } else {
                Option::None
            }
        },
        HTTPResponse::BadRequest => {
            if text::contains_seq(spec_accept_or(accept, Seq::<char>::empty()), "text/html"@) {
                Option::Some("static/400.html"@)
            } else {
                Option::None
            }
        },
        HTTPResponse::InternalServerError => {
            if text::contains_seq(spec_accept_or(accept, Seq::<char>::empty()), "text/html"@) {
                Option::Some("static/500.html"@)
            } else {
                Option::None
            }
        },
    }
}

/// Which file the caller should read from disk before encoding this
/// outcome, if any.
pub fn response_file(status: &HTTPResponse, accept: Option<&String>) -> (r: Option<String>)
    ensures
        match spec_response_file(status, spec_accept_view(accept)) {
            Option::Some(p) => r matches Some(rp) && rp@ == p,
            Option::None => r is None,
        },
{
    proof {
        reveal_strlit("");
        assert(""@ =~= Seq::<char>::empty());
    }
    match status {
        HTTPResponse::OK(content_opt) => match content_opt {
            Option::Some(Content::HTML(path)) => Some(path.clone()),
            Option::Some(Content::Image(path, _)) => Some(path.clone()),
            Option::Some(_) => None,
            Option::None => {
                if accept_contains(accept, "text", "text/html") {
                    Some(String::from_str("static/200.html"))
                } else {
                    None
                }
            },
        },
        HTTPResponse::InvalidMethod => {
            if accept_contains(accept, "", "text/html") {
                Some(String::from_str("static/405.html"))
            } else {
                None
            }
        },
        HTTPResponse::BadRequest => {
            if accept_contains(accept, "", "text/html") {
                Some(String::from_str("static/400.html"))
            } else {
                None
            }
        },
        HTTPResponse::InternalServerError => {
            if accept_contains(accept, "", "text/html") {
                Some(String::from_str("static/500.html"))
            } else {
                None
            }
        },
    }
}

/// The view of an optional `Accept` header value.
pub open spec fn spec_accept_view(accept: Option<&String>) -> Option<Seq<char>> {
    match accept {
        Option::Some(a) => Option::Some(a@),
        Option::None => Option::None,
    }
}

/// Whether the `Accept` text (or the default when absent) mentions the
/// given type.
fn accept_contains(accept: Option<&String>, default: &str, needle: &str) -> (r: bool)
    ensures
        r == text::contains_seq(spec_accept_or(spec_accept_view(accept), default@), needle@),
{
    match accept {
        Option::Some(a) => text::str_contains(a.as_str(), needle),
        Option::None => text::str_contains(default, needle),
    }
}

/// Builds the response for an outcome: the negotiated status, content
/// type and body. `file` holds the bytes of the file named by
/// `response_file`, or `None` where there is none or it could not be
/// read; a missing file yields `None` exactly where the outcome needed
/// its content.
pub fn make_response(status: &HTTPResponse, accept: Option<&String>, file: Option<Vec<u8>>) -> (r:
    Option<Response>)
    ensures
        match spec_make_response(status, spec_accept_view(accept), match file {
            Option::Some(b) => Option::Some(b@),
            Option::None => Option::None,
        }) {
            Option::Some(t) => r matches Some(resp) && resp.wf() && resp.spec_status() == t.0
                && resp.spec_content_type() == t.1 && resp.spec_body() == t.2,
            Option::None => r is None,
        },
{
    proof {
        reveal_strlit("");
        reveal_strlit("text");
        reveal_strlit("text/html");
        reveal_strlit("application/json");
        reveal_strlit("text/plain");
        reveal_strlit("image/png");
        reveal_strlit("image/vnd.microsoft.icon");
        reveal_strlit("image/jpeg");
        reveal_strlit("NOT FOUND");
        reveal_strlit("{\"msg\":\"OK\",\"status\":200}");
        reveal_strlit("Success");
        reveal_strlit("405 Invalid Method");
        reveal_strlit("400 Bad Request");
        reveal_strlit("500 Internal Server Error");
    }
    match status {
        HTTPResponse::OK(content_opt) => match content_opt {
            Option::Some(Content::HTML(_)) => match file {
                Option::Some(b) => Some(Response::new(200, "text/html", b)),
                Option::None => None,
            },
            Option::Some(Content::JSON(value)) => Some(
                Response::new(200, "application/json", value.as_str().as_bytes_vec()),
            ),
            Option::Some(Content::Image(_, it)) => match file {
                Option::Some(b) => {
                    let ct: &'static str = match it {
                        ImageType::PNG => "image/png",
                        ImageType::ICO => "image/vnd.microsoft.icon",
                        ImageType::JPEG => "image/jpeg",
                    };
                    Some(Response::new(200, ct, b))
                },
                Option::None => None,
            },
            Option::Some(Content::PlainText(t)) => Some(
                Response::new(200, "text/plain", t.as_str().as_bytes_vec()),
            ),
            Option::None => {
                if accept_contains(accept, "text", "text/html") {
                    match file {
                        Option::Some(b) => Some(Response::new(200, "text/html", b)),
                        Option::None => Some(
                            Response::new(200, "text/html", lit_body("NOT FOUND")),
                        ),
                    }
                } else if accept_contains(accept, "text", "application/json") {
                    Some(
                        Response::new(
                            200,
                            "application/json",
                            lit_body("{\"msg\":\"OK\",\"status\":200}"),
                        ),
                    )
                } else {
                    Some(Response::new(200, "text", lit_body("Success")))
                }
            },
        },
        HTTPResponse::InvalidMethod => error_response(accept, 405, "405 Invalid Method", file),
        HTTPResponse::BadRequest => error_response(accept, 400, "400 Bad Request", file),
        HTTPResponse::InternalServerError => error_response(
            accept,
            500,
            "500 Internal Server Error",
            file,
        ),
    }
}

/// The UTF-8 bytes of a literal body.
fn lit_body(lit: &str) -> (r: Vec<u8>)
    ensures
        r@ == encode_utf8(lit@),
{
    lit.as_bytes_vec()
}

/// Encodes one of the three error outcomes.
fn error_response(accept: Option<&String>, status: u16, fallback: &'static str, file: Option<
    Vec<u8>,
>) -> (r: Option<Response>)
    requires
        vstd::utf8::is_ascii_chars(fallback@),
    ensures
        match spec_error_response(status, fallback@, spec_accept_view(accept), match file {
            Option::Some(b) => Option::Some(b@),
            Option::None => Option::None,
        }) {
            Option::Some(t) => r matches Some(resp) && resp.wf() && resp.spec_status() == t.0
                && resp.spec_content_type() == t.1 && resp.spec_body() == t.2,
            Option::None => r is None,
        },
{
    proof {
        reveal_strlit("");
        reveal_strlit("text/html");
        reveal_strlit("text/plain");
        assert(""@ =~= Seq::<char>::empty());
    }
    if accept_contains(accept, "", "text/html") {
        match file {
            Option::Some(b) => Some(Response::new(status, "text/html", b)),
            Option::None => Some(Response::new(status, "text/html", fallback.as_bytes_vec())),
        }
    } else {
        Some(Response::new(status, "text/plain", fallback.as_bytes_vec()))
    }
}

} // verus!

verus! {

/// Why a request could not be parsed.
#[derive(Debug)]
pub enum HTTPParseError {
    InvalidStatusLine,
    InvalidRequestLine,
    MissingFields,
    MissingContentLength,
}

impl HTTPParseError {
    /// A short report of the error.
    pub fn message(&self) -> (r: String)
        ensures
            self is InvalidStatusLine ==> r@ == "Invalid status line"@,
            self is InvalidRequestLine ==> r@ == "Invalid request line"@,
            self is MissingFields ==> r@ == "Missing required fields"@,
            self is MissingContentLength ==> r@ == "Missing content-length field in headers"@,
    {
        match self {
            HTTPParseError::InvalidStatusLine => String::from_str("Invalid status line"),
            HTTPParseError::InvalidRequestLine => String::from_str("Invalid request line"),
            HTTPParseError::MissingFields => String::from_str("Missing required fields"),
            HTTPParseError::MissingContentLength => String::from_str(
                "Missing content-length field in headers",
            ),
        }
    }
}

} // verus!
