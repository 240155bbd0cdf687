//! Responses: a status and an optional body, and their wire form.
use vstd::prelude::*;

verus! {

/// The statuses this server answers with.
#[derive(Clone, Copy, Debug, PartialEq, Eq, Structural)]
pub enum StatusCode {
    Okay,
    BadRequest,
    NotFound,
}

/// The status line text (code and reason phrase) of a status.
pub open spec fn status_text(s: StatusCode) -> Seq<char> {
    match s {
        StatusCode::Okay => "200 OK"@,
        StatusCode::BadRequest => "400 Bad Request"@,
        StatusCode::NotFound => "404 Not Found"@,
    }
}

impl StatusCode {
    /// The numeric code.
    pub fn code(&self) -> (r: u16)
        ensures
            r == match self {
                StatusCode::Okay => 200u16,
                StatusCode::BadRequest => 400u16,
                StatusCode::NotFound => 404u16,
            },
    {
        match self {
            StatusCode::Okay => 200,
            StatusCode::BadRequest => 400,
            StatusCode::NotFound => 404,
        }
    }

    /// The code followed by the reason phrase.
    pub fn status_line(&self) -> (r: &'static str)
        ensures
            r@ == status_text(*self),
    {
        match self {
            StatusCode::Okay => "200 OK",
            StatusCode::BadRequest => "400 Bad Request",
            StatusCode::NotFound => "404 Not Found",
        }
    }
}

/// The wire form of a response: status line, an empty header block, then the
/// body if there is one.
pub open spec fn response_text(status: StatusCode, body: Option<Seq<char>>) -> Seq<char> {
    "HTTP/1.1 "@ + status_text(status) + "\r\n\r\n"@ + match body {
        Some(b) => b,
        None => Seq::empty(),
    }
}

/// A response: a status and an optional body.
#[derive(Debug)]
pub struct Response {
    status_code: StatusCode,
    body: Option<String>,
}

impl Response {
    /// A response with the given status and body.
    pub fn new(status_code: StatusCode, body: Option<String>) -> (r: Response)
        ensures
            r.status_code() == status_code,
            r.body() == body,
    {
        Response { status_code, body }
    }

    /// The answer to a request that cannot be served: not found, with no body.
    pub fn not_found() -> (r: Response)
        ensures
            r.status_code() == StatusCode::NotFound,
            r.body() is None,
    {
        Response { status_code: StatusCode::NotFound, body: None }
    }

    pub closed spec fn status_code(&self) -> StatusCode {
        self.status_code
    }

    pub closed spec fn body(&self) -> Option<String> {
        self.body
    }

    /// The status.
    pub fn status(&self) -> (r: StatusCode)
        ensures
            r == self.status_code(),
    {
        self.status_code
    }

    /// The body, if any.
    pub fn content(&self) -> (r: Option<&String>)
        ensures
            match r {
                Some(b) => self.body() == Some(*b),
                None => self.body() is None,
            },
    {
        self.body.as_ref()
    }

    /// The text to write to the connection.
    pub fn render(&self) -> (r: String)
        ensures
            r@ == response_text(
                self.status_code(),
                match self.body() {
                    Some(b) => Some(b@),
                    None => None,
                },
            ),
    {
        let mut out = String::new();
        out.append("HTTP/1.1 ");
        out.append(self.status_code.status_line());
        out.append("\r\n\r\n");
        match &self.body {
            Some(b) => out.append(b.as_str()),
            None => {},
        }
        assert(out@ =~= response_text(
            self.status_code(),
            match self.body() {
                Some(b) => Some(b@),
                None => None,
            },
        ));
        out
    }
}

} // verus!
