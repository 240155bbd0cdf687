//! Parsing of the request line of an HTTP/1.1 request.
use vstd::prelude::*;
use vstd::utf8::{decode_utf8, valid_utf8};
use crate::method::{method_of, Method};
use crate::query_string::{query_of, QueryString};
use crate::text::{chars_of, decode_text, find_char, first_index_of, get_next_word, is_first_index_of, next_word, same_chars};

verus! {

/// Why a buffer does not hold a request this server can serve.
#[derive(Clone, Copy, Debug, PartialEq, Eq, Structural)]
pub enum ParseError {
    /// The request line lacks one of its three tokens.
    InvalidRequest,
    /// The buffer is not well-formed UTF-8.
    InvalidEncoding,
    /// The protocol token is not `HTTP/1.1`.
    InvalidProtocol,
    /// The method token names no method.
    InvalidMethod,
}

impl ParseError {
    /// A short description of the error.
    pub fn message(&self) -> (r: &'static str)
        ensures
            r@ == match self {
                ParseError::InvalidRequest => "Invalid REquest"@,
                ParseError::InvalidEncoding => "Invalid Encoding"@,
                ParseError::InvalidProtocol => "Invalid Protocal"@,
                ParseError::InvalidMethod => "Invalid Method"@,
            },
    {
        match self {
            ParseError::InvalidRequest => "Invalid REquest",
            ParseError::InvalidEncoding => "Invalid Encoding",
            ParseError::InvalidProtocol => "Invalid Protocal",
            ParseError::InvalidMethod => "Invalid Method",
        }
    }
}

/// The only protocol this server speaks.
pub open spec fn is_supported_protocol(token: Seq<char>) -> bool {
    token == seq!['H', 'T', 'T', 'P', '/', '1', '.', '1']
}

/// What a request is, as a value: its method, its path without the query
/// fragment, and the decoded query string when the path had a `?`.
pub type RequestModel = (Method, Seq<char>, Option<Map<Seq<char>, Seq<Seq<char>>>>);

/// The request that a text starts with: three tokens (method, path,
/// protocol), each ended by a space or a carriage return; the protocol must
/// be `HTTP/1.1` and the method one of the known ones. The path is split at
/// its first `?`. What follows the protocol token is not read.
pub open spec fn request_line(text: Seq<char>) -> Result<RequestModel, ParseError> {
    match next_word(text) {
        None => Err(ParseError::InvalidRequest),
        Some((method, rest)) => match next_word(rest) {
            None => Err(ParseError::InvalidRequest),
            Some((path, rest)) => match next_word(rest) {
                None => Err(ParseError::InvalidRequest),
                Some((protocol, _)) => if !is_supported_protocol(protocol) {
                    Err(ParseError::InvalidProtocol)
                } else {
                    match method_of(method) {
                        None => Err(ParseError::InvalidMethod),
                        Some(m) => match first_index_of(path, '?') {
                            Some(i) => Ok(
                                (
                                    m,
                                    path.subrange(0, i),
                                    Some(query_of(path.subrange(i + 1, path.len() as int))),
                                ),
                            ),
                            None => Ok((m, path, None)),
                        },
                    }
                },
            },
        },
    }
}

/// The request held by a buffer of bytes, which must first be well-formed UTF-8.
pub open spec fn request_of(buf: Seq<u8>) -> Result<RequestModel, ParseError> {
    if valid_utf8(buf) {
        request_line(decode_utf8(buf))
    } else {
        Err(ParseError::InvalidEncoding)
    }
}

/// A parsed request line.
#[derive(Debug)]
pub struct Request {
    path: String,
    query_string: Option<QueryString>,
    method: Method,
}

impl View for Request {
    type V = RequestModel;

    closed spec fn view(&self) -> RequestModel {
        (
            self.method,
            self.path@,
            match self.query_string {
                Some(q) => Some(q@),
                None => None,
            },
        )
    }
}

impl Request {
    /// The query string, when there is one, is well formed.
    pub closed spec fn wf(&self) -> bool {
        self.query_string matches Some(q) ==> q.wf()
    }

    /// Parses the request line at the start of `buf`. Headers and body are
    /// not read.
    pub fn parse(buf: &[u8]) -> (r: Result<Request, ParseError>)
        ensures
            match r {
                Ok(req) => req.wf() && request_of(buf@) == Ok::<RequestModel, ParseError>(req@),
                Err(e) => request_of(buf@) == Err::<RequestModel, ParseError>(e),
            },
    {
        let request = match decode_text(buf) {
            Some(text) => text,
            None => return Err(ParseError::InvalidEncoding),
        };
        let (method, rest) = match get_next_word(request) {
            Some(w) => w,
            None => return Err(ParseError::InvalidRequest),
        };
        let (path, rest) = match get_next_word(rest) {
            Some(w) => w,
            None => return Err(ParseError::InvalidRequest),
        };
        let (protocol, _) = match get_next_word(rest) {
            Some(w) => w,
            None => return Err(ParseError::InvalidRequest),
        };
        let protocol = chars_of(protocol);
        if !same_chars(protocol.as_slice(), &['H', 'T', 'T', 'P', '/', '1', '.', '1']) {
            return Err(ParseError::InvalidProtocol);
        }
        let method = match Method::from_token(method) {
            Some(m) => m,
            None => return Err(ParseError::InvalidMethod),
        };
        match find_char(path, '?') {
            Some(i) => {
                assert(is_first_index_of(path@, '?', i as int));
                let len = path.unicode_len();
                let query = QueryString::parse(path.substring_char(i + 1, len));
                let path = path.substring_char(0, i).to_owned();
                Ok(Request { path, query_string: Some(query), method })
            },
            None => Ok(Request { path: path.to_owned(), query_string: None, method }),
        }
    }

    /// The path, without the query fragment.
    pub fn path(&self) -> (r: &str)
        ensures
            r@ == self@.1,
    {
        self.path.as_str()
    }

    /// The method.
    pub fn method(&self) -> (r: &Method)
        ensures
            *r == self@.0,
    {
        &self.method
    }

    /// The decoded query string, if the path had one.
    pub fn query_string(&self) -> (r: Option<&QueryString>)
        requires
            self.wf(),
        ensures
            match r {
                Some(q) => q.wf() && self@.2 == Some(q@),
                None => self@.2 is None,
            },
    {
        self.query_string.as_ref()
    }
}

/// Parsing depends on the bytes alone: two buffers with the same contents
/// give the same request, or the same error.
pub proof fn lemma_parse_deterministic(a: Seq<u8>, b: Seq<u8>)
    requires
        a == b,
    ensures
        request_of(a) == request_of(b),
{
}

} // verus!
