//! Service hooks: observers and takeovers that run after a response has gone
//! out.
//!
//! A service sees the request, the response and the peer's address, and has
//! the connection to itself while it runs. It says whether the connection
//! goes on with the next request or is done.

use vstd::prelude::*;
use vstd::string::*;

use crate::http::request::{spec_request_line_of, Request, RequestView};
use crate::http::response::{Response, ResponseView};
use crate::http::text::chars_of;
use crate::middleware::{And, Empty};

verus! {

/// What a service says of the connection.
#[derive(Debug, Clone, Copy, PartialEq, Eq, Structural)]
pub enum ConnectionFlag {
    /// Go on with the next request.
    Continue,
    /// The connection is done: the service has used it up.
    Close,
}

/// A hook that runs after each exchange. `S` is the connection.
pub trait Service<E, S> {
    /// Whether the service may leave the connection as `after` and answer
    /// `result`, having found it as `before`. Unless an implementation says
    /// more, anything may happen.
    open spec fn serves(
        &self,
        request: RequestView,
        response: ResponseView,
        address: Seq<char>,
        before: S,
        after: S,
        result: Result<ConnectionFlag, E>,
    ) -> bool {
        true
    }

    fn call(&self, request: &Request, response: &Response, address: &str, stream: &mut S) -> (r:
        Result<ConnectionFlag, E>)
        ensures
            self.serves(request@, response@, address@, *old(stream), *final(stream), r),
    ;
}

/// An ordered list of services.
pub trait Services<E, S> {
    /// Whether the list may leave the connection as `after` and answer
    /// `result`, having found it as `before`: the services run in the order of
    /// their registration, and the first that does not answer `Continue` is
    /// the last to run.
    spec fn runs(
        &self,
        request: RequestView,
        response: ResponseView,
        address: Seq<char>,
        before: S,
        after: S,
        result: Result<ConnectionFlag, E>,
    ) -> bool;

    fn run(&self, request: &Request, response: &Response, address: &str, stream: &mut S) -> (r:
        Result<ConnectionFlag, E>)
        ensures
            self.runs(request@, response@, address@, *old(stream), *final(stream), r),
    ;
}

/// What may follow the earlier services of a list: the last service runs
/// where they answered `Continue`, and their answer stands where they did not.
pub open spec fn spec_follows<E, S, T: Service<E, S>>(
    last: &T,
    request: RequestView,
    response: ResponseView,
    address: Seq<char>,
    between: S,
    earlier: Result<ConnectionFlag, E>,
    after: S,
    result: Result<ConnectionFlag, E>,
) -> bool {
    if earlier == Ok::<ConnectionFlag, E>(ConnectionFlag::Continue) {
        last.serves(request, response, address, between, after, result)
    } else {
        after == between && result == earlier
    }
}

impl<E, S> Services<E, S> for Empty {
    open spec fn runs(
        &self,
        request: RequestView,
        response: ResponseView,
        address: Seq<char>,
        before: S,
        after: S,
        result: Result<ConnectionFlag, E>,
    ) -> bool {
        after == before && result == Ok::<ConnectionFlag, E>(ConnectionFlag::Continue)
    }

    fn run(&self, request: &Request, response: &Response, address: &str, stream: &mut S) -> (r:
        Result<ConnectionFlag, E>) {
        Ok(ConnectionFlag::Continue)
    }
}

impl<E, S, L: Services<E, S>, T: Service<E, S>> Services<E, S> for And<L, T> {
    open spec fn runs(
        &self,
        request: RequestView,
        response: ResponseView,
        address: Seq<char>,
        before: S,
        after: S,
        result: Result<ConnectionFlag, E>,
    ) -> bool {
        exists|between: S, earlier: Result<ConnectionFlag, E>| #[trigger]
            self.first.runs(request, response, address, before, between, earlier) && spec_follows(
                &self.last,
                request,
                response,
                address,
                between,
                earlier,
                after,
                result,
            )
    }

    fn run(&self, request: &Request, response: &Response, address: &str, stream: &mut S) -> (r:
        Result<ConnectionFlag, E>) {
        let earlier = self.first.run(request, response, address, stream);
        let ghost between = *stream;
        proof {
            assert(self.first.runs(request@, response@, address@, *old(stream), between, earlier));
        }
        match earlier {
            Ok(ConnectionFlag::Continue) => self.last.call(request, response, address, stream),
            other => other,
        }
    }
}

/// The colour that a status code is logged in: chosen by its first digit.
pub open spec fn spec_status_color(status_code: Seq<char>) -> Seq<char> {
    if status_code.len() == 0 {
        "normal"@
    } else if status_code[0] == '1' {
        "cyan"@
    } else if status_code[0] == '2' {
        "green"@
    } else if status_code[0] == '3' {
        "yellow"@
    } else if status_code[0] == '4' {
        "red"@
    } else if status_code[0] == '5' {
        "purple"@
    } else {
        "normal"@
    }
}

/// The line that records one exchange: the peer, the request line in
/// quotes, and the status code.
pub open spec fn spec_log_line(request: RequestView, response: ResponseView, address: Seq<char>) -> Seq<
    char,
> {
    address + " - \""@ + spec_request_line_of(request) + "\" - "@ + response.status_code
}

/// The service that records every exchange. It leaves the connection alone
/// and always answers `Continue`. What it records is worked out here; putting
/// the line on a terminal is the caller's.
#[derive(Debug, Clone, Copy, PartialEq, Eq, Structural)]
pub struct LoggerService;

impl LoggerService {
    /// The colour that a status code is logged in.
    pub fn status_color(status_code: &str) -> (r: &'static str)
        ensures
            r@ == spec_status_color(status_code@),
    {
        let chars = chars_of(status_code);
        if chars.len() == 0 {
            return "normal";
        }
        let first: char = chars[0];
        if first == '1' {
            "cyan"
        } else if first == '2' {
            "green"
        } else if first == '3' {
            "yellow"
        } else if first == '4' {
            "red"
        } else if first == '5' {
            "purple"
        } else {
            "normal"
        }
    }

    /// The line that records one exchange.
    pub fn log_line(request: &Request, response: &Response, address: &str) -> (r: String)
        ensures
            r@ == spec_log_line(request@, response@, address@),
    {
        let mut line = address.to_owned();
        line.append(" - \"");
        line.append(request.request_line().as_str());
        line.append("\" - ");
        line.append(response.status_code.as_str());
        line
    }
}

impl<E, S> Service<E, S> for LoggerService {
    open spec fn serves(
        &self,
        request: RequestView,
        response: ResponseView,
        address: Seq<char>,
        before: S,
        after: S,
        result: Result<ConnectionFlag, E>,
    ) -> bool {
        after == before && result == Ok::<ConnectionFlag, E>(ConnectionFlag::Continue)
    }

    fn call(&self, request: &Request, response: &Response, address: &str, stream: &mut S) -> (r:
        Result<ConnectionFlag, E>) {
        Ok(ConnectionFlag::Continue)
    }
}

/// A list of one service does what the service does.
pub proof fn lemma_single_service<E, S, A: Service<E, S>>(
    a: A,
    request: RequestView,
    response: ResponseView,
    address: Seq<char>,
    before: S,
    after: S,
    result: Result<ConnectionFlag, E>,
)
    ensures
        (And { first: Empty, last: a }).runs(request, response, address, before, after, result)
            == a.serves(request, response, address, before, after, result),
{
    let one = And { first: Empty, last: a };
    let start = Ok::<ConnectionFlag, E>(ConnectionFlag::Continue);
    if a.serves(request, response, address, before, after, result) {
        assert(Services::<E, S>::runs(&one.first, request, response, address, before, before, start));
    }
}

/// Service ordering: with `a` registered before `b`, `b` runs exactly when
/// `a` has answered `Continue`, and on the connection as `a` left it. An
/// answer of `Close`, or an error, from `a` is the answer of the list, and
/// `b` does not touch the connection.
pub proof fn lemma_services_in_order<E, S, A: Service<E, S>, B: Service<E, S>>(
    a: A,
    b: B,
    request: RequestView,
    response: ResponseView,
    address: Seq<char>,
    before: S,
    between: S,
    earlier: Result<ConnectionFlag, E>,
    after: S,
    result: Result<ConnectionFlag, E>,
)
    requires
        a.serves(request, response, address, before, between, earlier),
        spec_follows(&b, request, response, address, between, earlier, after, result),
    ensures
        (And { first: And { first: Empty, last: a }, last: b }).runs(
            request,
            response,
            address,
            before,
            after,
            result,
        ),
{
    let one = And { first: Empty, last: a };
    let two = And { first: one, last: b };
    lemma_single_service(a, request, response, address, before, between, earlier);
    assert(two.first.runs(request, response, address, before, between, earlier));
    assert(spec_follows(&two.last, request, response, address, between, earlier, after, result));
}

/// Nothing else happens: whatever a list of two services does, the first did
/// its part on the connection as it was found, and the second followed as
/// [`spec_follows`] says.
pub proof fn lemma_services_only_in_order<E, S, A: Service<E, S>, B: Service<E, S>>(
    a: A,
    b: B,
    request: RequestView,
    response: ResponseView,
    address: Seq<char>,
    before: S,
    after: S,
    result: Result<ConnectionFlag, E>,
)
    requires
        (And { first: And { first: Empty, last: a }, last: b }).runs(
            request,
            response,
            address,
            before,
            after,
            result,
        ),
    ensures
        exists|between: S, earlier: Result<ConnectionFlag, E>| #[trigger]
            a.serves(request, response, address, before, between, earlier) && spec_follows(
                &b,
                request,
                response,
                address,
                between,
                earlier,
                after,
                result,
            ),
{
    let one = And { first: Empty, last: a };
    let (between, earlier) = choose|between: S, earlier: Result<ConnectionFlag, E>| #[trigger]
        one.runs(request, response, address, before, between, earlier) && spec_follows(
            &b,
            request,
            response,
            address,
            between,
            earlier,
            after,
            result,
        );
    lemma_single_service(a, request, response, address, before, between, earlier);
    assert(a.serves(request, response, address, before, between, earlier));
}

} // verus!
