//! The server: its address, its router, and the answer to one request.
use crate::error::HTTPError;
use crate::headers::{Entry, Headers};
use crate::message::{HTTPEncodable, HTTPMessage, HTTPMessageView, HTTPRequest, HTTPResponse};
use crate::negotiation::{negotiateContent, negotiated};
use crate::router::HTTPRouter;
use crate::start_line::StatusLine;
use std::marker::PhantomData;
use std::sync::Arc;
use vstd::prelude::*;

verus! {

/// The text that goes out for `response` to a client that sent
/// `requestHeaders`: the wire text of the response after content negotiation.
pub open spec fn response_text(requestHeaders: Seq<Entry>, response: HTTPMessageView<StatusLine>)
    -> Seq<char> {
    HTTPMessage::<StatusLine>::wire(negotiated(requestHeaders, response))
}

/// Negotiates the content of `response` with the client that sent
/// `requestHeaders`, and encodes what comes of it. The result is that of the
/// encoder, which cannot fail.
pub fn respond(requestHeaders: &Headers, response: HTTPResponse) -> (encoded: Result<
    String,
    HTTPError,
>)
    ensures
        encoded matches Ok(text) && text@ == response_text(requestHeaders@, response@),
{
    let mut httpResponse = response;
    negotiateContent(requestHeaders, &mut httpResponse);
    let mut encodedHTTPResponse = String::new();
    match httpResponse.httpEncode(&mut encodedHTTPResponse) {
        Ok(()) => {
            assert(encodedHTTPResponse@ =~= response_text(requestHeaders@, response@));
            Ok(encodedHTTPResponse)
        },
        Err(error) => Err(error),
    }
}

/// What a server needs to serve a connection: where it listens, and what
/// answers its requests.
pub struct HTTPServerCore<R: HTTPRouter> {
    pub address: String,
    pub router: R,
}

impl<R: HTTPRouter> HTTPServerCore<R> {
    /// Hands the request to the router and encodes the router's response,
    /// after content negotiation. The router is asked with the request as it
    /// came, and the result is the wire text of an answer that the router
    /// gave to it, negotiated with this client.
    pub fn handleRequest(&self, httpRequest: HTTPRequest) -> (encoded: Result<String, HTTPError>)
        ensures
            encoded matches Ok(text) && exists|response: HTTPResponse|
                call_ensures(R::handle, (&self.router, &httpRequest), response) && text@
                    == #[trigger] response_text(httpRequest@.headers, response@),
    {
        let httpResponse = self.router.handle(&httpRequest);
        let ghost answered = httpResponse;
        let encoded = respond(&httpRequest.headers, httpResponse);
        assert(call_ensures(R::handle, (&self.router, &httpRequest), answered));
        assert(encoded matches Ok(text) && text@ == response_text(
            httpRequest@.headers,
            answered@,
        ));
        encoded
    }
}

/// A server core in the making, before it has its router. It listens at
/// `127.0.0.1:4221` unless set otherwise.
pub struct HTTPServerCoreBuilder<R: HTTPRouter> {
    pub address: String,
    pub marker: PhantomData<R>,
}

/// A server core in the making, with its router.
pub struct HTTPServerCoreDraft<R: HTTPRouter> {
    pub core: HTTPServerCore<R>,
}

impl<R: HTTPRouter> HTTPServerCore<R> {
    pub fn builder() -> (builder: HTTPServerCoreBuilder<R>)
        ensures
            builder.address@ == "127.0.0.1:4221"@,
    {
        HTTPServerCoreBuilder { address: "127.0.0.1:4221".to_owned(), marker: PhantomData }
    }
}

impl<R: HTTPRouter> HTTPServerCoreBuilder<R> {
    pub fn address(self, address: String) -> (builder: Self)
        ensures
            builder.address == address,
    {
        HTTPServerCoreBuilder { address, marker: PhantomData }
    }

    pub fn router(self, router: R) -> (draft: HTTPServerCoreDraft<R>)
        ensures
            draft.core.address == self.address,
            draft.core.router == router,
    {
        HTTPServerCoreDraft { core: HTTPServerCore { address: self.address, router } }
    }
}

impl<R: HTTPRouter> HTTPServerCoreDraft<R> {
    pub fn address(self, address: String) -> (draft: Self)
        ensures
            draft.core.address == address,
            draft.core.router == self.core.router,
    {
        HTTPServerCoreDraft { core: HTTPServerCore { address, router: self.core.router } }
    }

    pub fn build(self) -> (core: HTTPServerCore<R>)
        ensures
            core == self.core,
    {
        self.core
    }
}

/// A server: its core, shared by the connections that it serves.
pub struct HTTPServer<R: HTTPRouter> {
    core: Arc<HTTPServerCore<R>>,
}

impl<R: HTTPRouter> HTTPServer<R> {
    /// The core that the connections share.
    pub closed spec fn shared(&self) -> HTTPServerCore<R> {
        *self.core
    }

    pub fn new(core: HTTPServerCore<R>) -> (server: Self)
        ensures
            server.shared() == core,
    {
        Self { core: Arc::new(core) }
    }

    /// A handle on the core for one more connection.
    pub fn sharedCore(&self) -> (core: Arc<HTTPServerCore<R>>)
        ensures
            *core == self.shared(),
    {
        self.core.clone()
    }
}

} // verus!
