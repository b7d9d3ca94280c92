//! The server: a middleware chain and a list of services, and what one
//! exchange on a connection does with them.
//!
//! The caller owns the connection. For each request it reads bytes and hands
//! what [`Request::try_from_buf`] made of them to [`Server::handle_request`],
//! writes the bytes of the response that comes back, and then calls
//! [`Server::run_services`]. A flag of `Close` ends the connection; `Continue`
//! goes on with the next request.
//!
//! [`Request::try_from_buf`]: crate::http::request::Request::try_from_buf

use vstd::prelude::*;
use vstd::std_specs::convert::FromSpec;
use vstd::string::*;
use vstd::utf8::encode_utf8;

use crate::http::error::{Error, ErrorView};
use crate::http::request::{Request, RequestView};
use crate::http::response::{spec_new, spec_typed, Response, ResponseView};
use crate::io::IoError;
use crate::middleware::{
    outcome, And, ContentLengthMiddleware, Empty, MiddlewareChain, Middlewares, Next,
};
use crate::service::{ConnectionFlag, LoggerService, Services};

verus! {

/// A middleware chain around a terminal handler, and the services that run
/// after each exchange.
#[derive(Debug, Clone, Copy)]
pub struct Server<L, N, V> {
    pub middlewares: MiddlewareChain<L, N>,
    pub services: V,
}

/// The response to a request that could not be read, where there is one: a
/// `400` that names the fault, or a `411`. An I/O failure has no response:
/// the connection is dead.
pub open spec fn spec_refusal(error: ErrorView) -> Option<ResponseView> {
    match error {
        ErrorView::BadRequestLine(line) => Some(
            spec_typed(
                spec_new("400"@, "Bad Request"@),
                "text/plain; charset=utf-8"@,
                encode_utf8("Bad Request Line: "@ + line),
            ),
        ),
        ErrorView::BadContentLength(e) => Some(
            spec_typed(
                spec_new("400"@, "Bad Request"@),
                "text/plain; charset=utf-8"@,
                encode_utf8("Bad Content Length: "@ + e.spec_message()),
            ),
        ),
        ErrorView::ContentLengthRequired => Some(
            spec_typed(
                spec_new("411"@, "Length Required"@),
                "text/plain; charset=utf-8"@,
                encode_utf8("Content Length Required"@),
            ),
        ),
        ErrorView::IO(_) => None,
    }
}

/// The I/O failure that an error stands for.
pub open spec fn spec_io_failure(error: ErrorView) -> IoError {
    match error {
        ErrorView::IO(e) => e,
        _ => IoError::Other,
    }
}

/// The response to a request that could not be read, where there is one.
pub fn refusal(error: &Error) -> (r: Option<Response>)
    ensures
        spec_refusal(error@) == match r {
            Some(response) => Some(response@),
            None => None,
        },
{
    match error {
        Error::BadRequestLine(line) => {
            let body = "Bad Request Line: ".to_owned().concat(line.as_str());
            Some(Response::new("400", "Bad Request").plain(body.as_str().as_bytes_vec()))
        },
        Error::BadContentLength(e) => {
            let body = "Bad Content Length: ".to_owned().concat(e.message());
            Some(Response::new("400", "Bad Request").plain(body.as_str().as_bytes_vec()))
        },
        Error::ContentLengthRequired => Some(
            Response::new("411", "Length Required").plain(
                "Content Length Required".as_bytes_vec(),
            ),
        ),
        Error::IO(_) => None,
    }
}

/// Gives up a box for a reference that lives as long as the process.
///
/// This is `Box::leak`: the value is never dropped, and the reference is to
/// the value that the box held.
#[verifier::external_body]
fn leak_box<T: 'static>(boxed: Box<T>) -> (r: &'static T)
    ensures
        *r == *boxed,
{
    Box::leak(boxed)
}

impl<N> Server<Empty, N, Empty> {
    /// A server with the terminal handler `next`, no middleware and no
    /// service.
    pub fn new(next: N) -> (r: Self)
        ensures
            r == (Server {
                middlewares: MiddlewareChain { middlewares: Empty, next },
                services: Empty,
            }),
    {
        Server { middlewares: MiddlewareChain::new(next), services: Empty }
    }
}

impl<L, N, V> Server<L, N, V> {
    /// Registers a middleware behind those registered so far.
    pub fn with_middleware<M>(self, middleware: M) -> (r: Server<And<L, M>, N, V>)
        ensures
            r.middlewares.middlewares == (And {
                first: self.middlewares.middlewares,
                last: middleware,
            }),
            r.middlewares.next == self.middlewares.next,
            r.services == self.services,
    {
        Server { middlewares: self.middlewares.push(middleware), services: self.services }
    }

    /// Registers a service behind those registered so far.
    pub fn with_service<T>(self, service: T) -> (r: Server<L, N, And<V, T>>)
        ensures
            r.middlewares == self.middlewares,
            r.services == (And { first: self.services, last: service }),
    {
        Server {
            middlewares: self.middlewares,
            services: And { first: self.services, last: service },
        }
    }

    /// Gives the server the lifetime of the process, so that every
    /// connection can share it.
    pub fn leak(self) -> (r: &'static Self) where L: 'static, N: 'static, V: 'static
        ensures
            *r == self,
    {
        leak_box(Box::new(self))
    }

    /// Answers one request, given what reading it off the connection gave.
    ///
    /// A request that was read goes through the middleware chain, and comes
    /// back beside the response. A request that was malformed is answered by
    /// a refusal, and the connection goes on. An I/O failure is handed up: the
    /// connection is dead.
    pub fn handle_request<E: From<IoError>>(&self, parsed: Result<Request, Error>) -> (r: Result<
        (Option<Request>, Response),
        E,
    >) where L: Middlewares<E>, N: Next<E>
        ensures
            match parsed {
                Ok(request) => self.middlewares.responds(
                    request@,
                    match r {
                        Ok((_, response)) => Ok(response@),
                        Err(e) => Err(e),
                    },
                ) && (r matches Ok((kept, _)) ==> kept matches Some(same) && same@ == request@),
                Err(error) => match spec_refusal(error@) {
                    Some(response) => r matches Ok((None, refused)) && refused@ == response,
                    None => r is Err && (E::obeys_from_spec() ==> r == Err::<
                        (Option<Request>, Response),
                        E,
                    >(E::from_spec(spec_io_failure(error@)))),
                },
            },
    {
        match parsed {
            Ok(request) => match self.middlewares.call(&request) {
                Ok(response) => Ok((Some(request), response)),
                Err(e) => Err(e),
            },
            Err(error) => match refusal(&error) {
                Some(response) => Ok((None, response)),
                None => match error {
                    Error::IO(e) => Err(E::from(e)),
                    _ => Err(E::from(IoError::Other)),
                },
            },
        }
    }

    /// Runs the services after an exchange, in the order of their
    /// registration, up to the first that does not answer `Continue`. An
    /// exchange that had no request, because it could not be read, runs none.
    pub fn run_services<E, S>(
        &self,
        request: Option<&Request>,
        response: &Response,
        address: &str,
        stream: &mut S,
    ) -> (r: Result<ConnectionFlag, E>) where V: Services<E, S>
        ensures
            match request {
                Some(request) => self.services.runs(
                    request@,
                    response@,
                    address@,
                    *old(stream),
                    *final(stream),
                    r,
                ),
                None => *final(stream) == *old(stream) && r == Ok::<ConnectionFlag, E>(
                    ConnectionFlag::Continue,
                ),
            },
    {
        match request {
            Some(request) => self.services.run(request, response, address, stream),
            None => Ok(ConnectionFlag::Continue),
        }
    }
}

impl Default for Server<And<Empty, ContentLengthMiddleware>, Response, And<Empty, LoggerService>> {
    /// The server that answers `404 Not Found`, writes `Content-Length`
    /// headers and records every exchange.
    fn default() -> (r: Self)
        ensures
            r.middlewares.middlewares == (And { first: Empty, last: ContentLengthMiddleware }),
            r.middlewares.next@ == spec_new("404"@, "Not Found"@),
            r.services == (And { first: Empty, last: LoggerService }),
    {
        Server::new(Response::new("404", "Not Found")).with_middleware(
            ContentLengthMiddleware,
        ).with_service(LoggerService)
    }
}

} // verus!
