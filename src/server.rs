//! The handler capability, the server's configured address, and the step
//! that turns one request buffer into a response.
use vstd::prelude::*;
use crate::request::{request_of, ParseError, Request, RequestModel};
use crate::response::{Response, StatusCode};
use crate::text::{split_on, split_text};

verus! {

/// What a server hands requests to.
pub trait Handler {
    /// `r` is a response this handler, in its present state, may give to
    /// `request`. By default any response may be.
    open spec fn answers(&self, request: RequestModel, r: Response) -> bool {
        true
    }

    /// `r` is a response this handler, in its present state, may give to a
    /// buffer that failed to parse with `error`. By default: not found, with
    /// no body, as `Response::not_found` gives.
    open spec fn answers_bad(&self, error: ParseError, r: Response) -> bool {
        r.status_code() == StatusCode::NotFound && r.body() is None
    }

    /// The response to a request that parsed.
    fn handle_request(&mut self, request: &Request) -> (r: Response)
        requires
            request.wf(),
        ensures
            old(self).answers(request@, r),
    ;

    /// The response to a buffer that did not parse. `Response::not_found`
    /// is the usual answer: not found, with no body.
    fn handle_bad_request(&mut self, error: &ParseError) -> (r: Response)
        ensures
            old(self).answers_bad(*error, r),
    ;
}

/// `s` with leading and trailing white space removed.
pub uninterp spec fn trimmed(s: Seq<char>) -> Seq<char>;

/// Relies on str::trim: the result depends on the text alone.
#[verifier::external_body]
fn trim(s: &str) -> (r: &str)
    ensures
        r@ == trimmed(s@),
{
    s.trim()
}

/// Whether `c` is an ASCII decimal digit.
pub open spec fn is_digit(c: char) -> bool {
    '0' <= c <= '9'
}

/// `s` is a non-empty run of decimal digits.
pub open spec fn is_digits(s: Seq<char>) -> bool {
    s.len() > 0 && forall|i: int| 0 <= i < s.len() ==> is_digit(#[trigger] s[i])
}

/// The number that a run of decimal digits spells.
pub open spec fn digits_value(s: Seq<char>) -> int
    decreases s.len(),
{
    if s.len() == 0 {
        0
    } else {
        10 * digits_value(s.drop_last()) + ((s.last() as u32) - ('0' as u32))
    }
}

/// The integer that `s` spells: an optional `+` or `-` followed by decimal digits.
pub open spec fn signed_value(s: Seq<char>) -> Option<int> {
    if s.len() > 0 && s[0] == '-' && is_digits(s.drop_first()) {
        Some(-digits_value(s.drop_first()))
    } else if s.len() > 0 && s[0] == '+' && is_digits(s.drop_first()) {
        Some(digits_value(s.drop_first()))
    } else if is_digits(s) {
        Some(digits_value(s))
    } else {
        None
    }
}

/// The `i32` that `s` spells, if it spells one in range.
pub open spec fn i32_of(s: Seq<char>) -> Option<i32> {
    match signed_value(s) {
        Some(v) => if i32::MIN <= v <= i32::MAX {
            Some(v as i32)
        } else {
            None
        },
        None => None,
    }
}

/// Relies on `<i32 as FromStr>::from_str`: an optional sign and decimal
/// digits, in range, parse; anything else is an error.
#[verifier::external_body]
fn parse_i32(s: &str) -> (r: Option<i32>)
    ensures
        r == i32_of(s@),
{
    s.parse::<i32>().ok()
}

/// The address a configuration string names: after trimming, exactly two
/// parts around one `:`, each trimmed and non-empty, the second an `i32`.
/// Gives the host, the port, and the cleaned `host:port` text.
pub open spec fn address_of(addr: Seq<char>) -> Option<(Seq<char>, i32, Seq<char>)> {
    let parts = split_on(trimmed(addr), ':');
    if parts.len() != 2 {
        None
    } else {
        let ip = trimmed(parts[0]);
        let port = trimmed(parts[1]);
        if ip.len() == 0 || port.len() == 0 {
            None
        } else {
            match i32_of(port) {
                Some(p) => Some((ip, p, ip + seq![':'] + port)),
                None => None,
            }
        }
    }
}

/// A server's configuration: the address it listens on.
#[derive(Debug)]
pub struct Server {
    addr: String,
    ip: String,
    port: i32,
}

impl View for Server {
    type V = (Seq<char>, i32, Seq<char>);

    /// Host, port, and `host:port`.
    closed spec fn view(&self) -> (Seq<char>, i32, Seq<char>) {
        (self.ip@, self.port, self.addr@)
    }
}

impl Server {
    /// A server for the address `addrr` names.
    pub fn new(addrr: &str) -> (r: Server)
        requires
            address_of(addrr@) is Some,
        ensures
            address_of(addrr@) == Some(r@),
    {
        let (ip, port, addr) = Self::parse_user_provided_addr(addrr).unwrap();
        Server { addr, ip, port }
    }

    /// A server for the address `addrr` names; `None` when it names none.
    pub fn try_new(addrr: &str) -> (r: Option<Server>)
        ensures
            match r {
                Some(s) => address_of(addrr@) == Some(s@),
                None => address_of(addrr@) is None,
            },
    {
        match Self::parse_user_provided_addr(addrr) {
            Some(_) => Some(Self::new(addrr)),
            None => None,
        }
    }

    /// Host, port and `host:port` of a configuration string, if it names an address.
    pub fn parse_user_provided_addr(addr: &str) -> (r: Option<(String, i32, String)>)
        ensures
            match r {
                Some((ip, port, clean)) => address_of(addr@) == Some((ip@, port, clean@)),
                None => address_of(addr@) is None,
            },
    {
        let parts = split_text(trim(addr), ':');
        if parts.len() != 2 {
            return None;
        }
        let ip = trim(parts[0].as_str());
        let port_text = trim(parts[1].as_str());
        if ip.is_empty() || port_text.is_empty() {
            return None;
        }
        let port = match parse_i32(port_text) {
            Some(p) => p,
            None => return None,
        };
        let mut clean = ip.to_owned();
        clean.append(":");
        clean.append(port_text);
        proof {
            reveal_strlit(":");
        }
        assert(clean@ =~= ip@ + seq![':'] + port_text@);
        Some((ip.to_owned(), port, clean))
    }

    /// The host.
    pub fn ip(&self) -> (r: &str)
        ensures
            r@ == self@.0,
    {
        self.ip.as_str()
    }

    /// The port.
    pub fn port(&self) -> (r: i32)
        ensures
            r == self@.1,
    {
        self.port
    }

    /// The address to listen on, as `host:port`.
    pub fn addr(&self) -> (r: &str)
        ensures
            r@ == self@.2,
    {
        self.addr.as_str()
    }

    /// Answers one request buffer: a request that parses goes to
    /// `handle_request`, any parse error to `handle_bad_request`.
    pub fn respond<H: Handler>(handler: &mut H, buf: &[u8]) -> (r: Response)
        ensures
            match request_of(buf@) {
                Ok(m) => old(handler).answers(m, r),
                Err(e) => old(handler).answers_bad(e, r),
            },
    {
        match Request::parse(buf) {
            Ok(request) => handler.handle_request(&request),
            Err(e) => handler.handle_bad_request(&e),
        }
    }
}

} // verus!
