//! The closed set of request methods.
use vstd::prelude::*;
use crate::text::{chars_of, same_chars};

verus! {

/// A request method, named by a case-sensitive token.
#[derive(Clone, Copy, Debug, PartialEq, Eq, Structural)]
pub enum Method {
    GET,
    POST,
    DELETE,
    PUT,
    HEAD,
    CONNECT,
    OPTIONS,
    TRACE,
    PATCH,
}

/// The method that `token` names exactly, if any.
pub open spec fn method_of(token: Seq<char>) -> Option<Method> {
    if token == seq!['G', 'E', 'T'] {
        Some(Method::GET)
    } else if token == seq!['P', 'O', 'S', 'T'] {
        Some(Method::POST)
    } else if token == seq!['D', 'E', 'L', 'E', 'T', 'E'] {
        Some(Method::DELETE)
    } else if token == seq!['P', 'U', 'T'] {
        Some(Method::PUT)
    } else if token == seq!['H', 'E', 'A', 'D'] {
        Some(Method::HEAD)
    } else if token == seq!['C', 'O', 'N', 'N', 'E', 'C', 'T'] {
        Some(Method::CONNECT)
    } else if token == seq!['O', 'P', 'T', 'I', 'O', 'N', 'S'] {
        Some(Method::OPTIONS)
    } else if token == seq!['T', 'R', 'A', 'C', 'E'] {
        Some(Method::TRACE)
    } else if token == seq!['P', 'A', 'T', 'C', 'H'] {
        Some(Method::PATCH)
    } else {
        None
    }
}

impl Method {
    /// The method that `token` names; `None` for any other token.
    pub fn from_token(token: &str) -> (r: Option<Method>)
        ensures
            r == method_of(token@),
    {
        let t = chars_of(token);
        let t = t.as_slice();
        if same_chars(t, &['G', 'E', 'T']) {
            Some(Method::GET)
        } else if same_chars(t, &['P', 'O', 'S', 'T']) {
            Some(Method::POST)
        } else if same_chars(t, &['D', 'E', 'L', 'E', 'T', 'E']) {
            Some(Method::DELETE)
        } else if same_chars(t, &['P', 'U', 'T']) {
            Some(Method::PUT)
        } else if same_chars(t, &['H', 'E', 'A', 'D']) {
            Some(Method::HEAD)
        } else if same_chars(t, &['C', 'O', 'N', 'N', 'E', 'C', 'T']) {
            Some(Method::CONNECT)
        } else if same_chars(t, &['O', 'P', 'T', 'I', 'O', 'N', 'S']) {
            Some(Method::OPTIONS)
        } else if same_chars(t, &['T', 'R', 'A', 'C', 'E']) {
            Some(Method::TRACE)
        } else if same_chars(t, &['P', 'A', 'T', 'C', 'H']) {
            Some(Method::PATCH)
        } else {
            None
        }
    }
}

} // verus!
