//! The middleware chain: an ordered list of interceptors around a terminal
//! handler, composed into one continuation.
//!
//! The middleware registered first is the outermost: it sees the request
//! first and the response last. The list is folded from its last entry to its
//! first, each step wrapping the continuation built so far.
//!
//! What a continuation or a middleware does is stated as a relation between a
//! request and an outcome, so that handlers whose answer depends on more than
//! the request fit as well.

use vstd::prelude::*;
use vstd::string::*;

use crate::http::request::{Request, RequestView};
use crate::http::response::{spec_with_header, Response, ResponseView};
use crate::http::text::{decimal, usize_to_string};

verus! {

/// The mathematical content of what a handler returns.
pub open spec fn outcome<E>(result: Result<Response, E>) -> Result<ResponseView, E> {
    match result {
        Ok(response) => Ok(response@),
        Err(e) => Err(e),
    }
}

/// The rest of the pipeline, as a middleware sees it.
pub trait Next<E> {
    /// Whether `result` is an answer that this continuation may give to
    /// `request`. Unless an implementation says more, any answer may come.
    open spec fn responds(&self, request: RequestView, result: Result<ResponseView, E>) -> bool {
        true
    }

    fn call(&self, request: &Request) -> (r: Result<Response, E>)
        ensures
            self.responds(request@, outcome(r)),
    ;
}

/// What a continuation does, as a relation: which outcomes it may give to
/// which requests.
pub type Relation<E> = spec_fn(RequestView, Result<ResponseView, E>) -> bool;

/// The relation of the continuation `next`.
pub open spec fn relation<E, N: Next<E>>(next: &N) -> Relation<E> {
    |request: RequestView, result: Result<ResponseView, E>| next.responds(request, result)
}

/// An interceptor: it may answer at once, pass the request on, or pass it on
/// and change the answer.
pub trait Middleware<E> {
    /// Whether `result` is an answer that this middleware may give to
    /// `request` in front of a continuation that behaves as `next` says.
    /// Unless an implementation says more, any answer may come.
    open spec fn handles(
        &self,
        request: RequestView,
        next: Relation<E>,
        result: Result<ResponseView, E>,
    ) -> bool {
        true
    }

    fn call<N: Next<E>>(&self, request: &Request, next: &N) -> (r: Result<Response, E>)
        ensures
            self.handles(request@, relation(next), outcome(r)),
    ;
}

/// The relation of the continuation that runs `middleware` in front of a
/// continuation that behaves as `next` says.
pub open spec fn in_front<E, M: Middleware<E>>(middleware: &M, next: Relation<E>) -> Relation<E> {
    |request: RequestView, result: Result<ResponseView, E>|
        middleware.handles(request, next, result)
}

/// A response is a continuation that answers every request with itself.
impl<E> Next<E> for Response {
    open spec fn responds(&self, request: RequestView, result: Result<ResponseView, E>) -> bool {
        result == Ok::<ResponseView, E>(self@)
    }

    fn call(&self, request: &Request) -> (r: Result<Response, E>) {
        Ok(self.clone())
    }
}

/// The continuation that runs one middleware in front of another
/// continuation.
pub struct MiddlewareNext<'a, M, N> {
    pub middleware: &'a M,
    pub next: &'a N,
}

impl<'a, E, M: Middleware<E>, N: Next<E>> Next<E> for MiddlewareNext<'a, M, N> {
    open spec fn responds(&self, request: RequestView, result: Result<ResponseView, E>) -> bool {
        self.middleware.handles(request, relation(self.next), result)
    }

    fn call(&self, request: &Request) -> (r: Result<Response, E>) {
        self.middleware.call(request, self.next)
    }
}

/// An ordered list of middlewares.
pub trait Middlewares<E> {
    /// Whether `result` is an answer that the list may give to `request` in
    /// front of a continuation that behaves as `next` says: the first of the
    /// list is outermost.
    spec fn runs(
        &self,
        request: RequestView,
        next: Relation<E>,
        result: Result<ResponseView, E>,
    ) -> bool;

    fn run<N: Next<E>>(&self, request: &Request, next: &N) -> (r: Result<Response, E>)
        ensures
            self.runs(request@, relation(next), outcome(r)),
    ;
}

/// The list without entries.
#[derive(Debug, Clone, Copy, PartialEq, Eq, Structural)]
pub struct Empty;

/// The list `first` with `last` registered behind it.
#[derive(Debug, Clone, Copy)]
pub struct And<L, T> {
    pub first: L,
    pub last: T,
}

impl<E> Middlewares<E> for Empty {
    open spec fn runs(
        &self,
        request: RequestView,
        next: Relation<E>,
        result: Result<ResponseView, E>,
    ) -> bool {
        next(request, result)
    }

    fn run<N: Next<E>>(&self, request: &Request, next: &N) -> (r: Result<Response, E>) {
        next.call(request)
    }
}

impl<E, L: Middlewares<E>, M: Middleware<E>> Middlewares<E> for And<L, M> {
    open spec fn runs(
        &self,
        request: RequestView,
        next: Relation<E>,
        result: Result<ResponseView, E>,
    ) -> bool {
        self.first.runs(request, in_front(&self.last, next), result)
    }

    fn run<N: Next<E>>(&self, request: &Request, next: &N) -> (r: Result<Response, E>) {
        let wrapped = MiddlewareNext { middleware: &self.last, next };
        proof {
            assert(relation(&wrapped) =~= in_front(&self.last, relation(next)));
        }
        self.first.run(request, &wrapped)
    }
}

/// Registered middlewares around a terminal handler.
#[derive(Debug, Clone, Copy)]
pub struct MiddlewareChain<L, N> {
    pub middlewares: L,
    pub next: N,
}

impl<N> MiddlewareChain<Empty, N> {
    /// The chain without middlewares: the terminal handler alone.
    pub fn new(next: N) -> (r: Self)
        ensures
            r == (MiddlewareChain { middlewares: Empty, next }),
    {
        MiddlewareChain { middlewares: Empty, next }
    }
}

impl<L, N> MiddlewareChain<L, N> {
    /// Registers `middleware` behind those registered so far, as the
    /// innermost.
    pub fn push<M>(self, middleware: M) -> (r: MiddlewareChain<And<L, M>, N>)
        ensures
            r.middlewares == (And { first: self.middlewares, last: middleware }),
            r.next == self.next,
    {
        MiddlewareChain {
            middlewares: And { first: self.middlewares, last: middleware },
            next: self.next,
        }
    }
}

impl<E, L: Middlewares<E>, N: Next<E>> Next<E> for MiddlewareChain<L, N> {
    open spec fn responds(&self, request: RequestView, result: Result<ResponseView, E>) -> bool {
        self.middlewares.runs(request, relation(&self.next), result)
    }

    fn call(&self, request: &Request) -> (r: Result<Response, E>) {
        self.middlewares.run(request, &self.next)
    }
}

/// The response with its `Content-Length` written, where it has a body.
pub open spec fn spec_with_content_length(response: ResponseView) -> ResponseView {
    if response.body.len() != 0 {
        spec_with_header(response, "Content-Length"@, decimal(response.body.len()))
    } else {
        response
    }
}

/// Writes the `Content-Length` header of every response that has a body.
#[derive(Debug, Clone, Copy, PartialEq, Eq, Structural)]
pub struct ContentLengthMiddleware;

impl<E> Middleware<E> for ContentLengthMiddleware {
    open spec fn handles(
        &self,
        request: RequestView,
        next: Relation<E>,
        result: Result<ResponseView, E>,
    ) -> bool {
        exists|inner: Result<ResponseView, E>| #[trigger]
            next(request, inner) && result == match inner {
                Ok(response) => Ok::<ResponseView, E>(spec_with_content_length(response)),
                Err(e) => Err(e),
            }
    }

    fn call<N: Next<E>>(&self, request: &Request, next: &N) -> (r: Result<Response, E>) {
        let inner = next.call(request);
        proof {
            assert(relation(next)(request@, outcome(inner)));
        }
        match inner {
            Err(e) => Err(e),
            Ok(response) => {
                let length: usize = response.body.len();
                if length != 0 {
                    let text = usize_to_string(length);
                    Ok(response.with_header("Content-Length", text.as_str()))
                } else {
                    Ok(response)
                }
            },
        }
    }
}

/// Middleware ordering: with `a` registered before `b` around the terminal
/// handler `t`, a request goes to `a` first, whose continuation is `b`, whose
/// continuation is `t`. Whatever `b` does, and whether or not it calls `t`,
/// its answer comes back through `a`.
pub proof fn lemma_first_registered_is_outermost<
    E,
    A: Middleware<E>,
    B: Middleware<E>,
    T: Next<E>,
>(a: A, b: B, t: T, request: RequestView, result: Result<ResponseView, E>)
    ensures
        (MiddlewareChain {
            middlewares: And { first: And { first: Empty, last: a }, last: b },
            next: t,
        }).responds(request, result) == a.handles(request, in_front(&b, relation(&t)), result),
        in_front(&b, relation(&t))(request, result) == b.handles(request, relation(&t), result),
        relation(&t)(request, result) == t.responds(request, result),
{
}

/// Registering one more middleware puts it innermost: the chain answers as
/// the earlier middlewares do in front of the new one, and the new one stands
/// in front of the terminal handler.
pub proof fn lemma_push_is_innermost<E, L: Middlewares<E>, M: Middleware<E>, T: Next<E>>(
    chain: MiddlewareChain<L, T>,
    middleware: M,
    request: RequestView,
    result: Result<ResponseView, E>,
)
    ensures
        (MiddlewareChain {
            middlewares: And { first: chain.middlewares, last: middleware },
            next: chain.next,
        }).responds(request, result) == chain.middlewares.runs(
            request,
            in_front(&middleware, relation(&chain.next)),
            result,
        ),
{
}

} // verus!
