//! One request through the proxy: what is answered here, what is sent to the
//! upstream, and what goes back to the client once the upstream has
//! answered or failed.

use crate::config::ProxyConfig;
use crate::cookie::{build_cookie_header, cookie_text, pairs_after, CookieJar, Pair};
use crate::header::{
    cors_headers, copy_headers, deliver_headers, delivered_headers, failure_headers,
    forward_headers, forwarded_headers, line, preflight_headers, push_cors_headers,
    push_preflight_headers, Header, HeaderView, RawHeader, RawHeaderView,
};
use crate::method::{
    carries_body, choose_upstream_method, is_preflight, is_preflight_method,
    method_carries_body, upstream_method,
};
use vstd::prelude::*;
use vstd::string::{StrSliceExecFns, StringExecFns};
use vstd::utf8::encode_utf8;

verus! {

/// A request as the client made it.
#[derive(Clone, Debug, PartialEq, Eq)]
pub struct ProxyRequest {
    pub method: String,
    /// The whole path, as received.
    pub path: String,
    /// The query as received, without the `?`; empty where there is none.
    pub query: String,
    pub headers: Vec<RawHeader>,
    pub body: Vec<u8>,
}

/// A request as the upstream is to receive it.
#[derive(Clone, Debug, PartialEq, Eq)]
pub struct UpstreamRequest {
    pub method: String,
    pub url: String,
    pub headers: Vec<Header>,
    /// The body to send, if one is sent at all.
    pub body: Option<Vec<u8>>,
}

/// A response as the upstream gave it, its body read to the end.
#[derive(Clone, Debug, PartialEq, Eq)]
pub struct UpstreamResponse {
    pub status: u16,
    pub headers: Vec<RawHeader>,
    pub body: Vec<u8>,
}

/// A response as the client is to receive it.
#[derive(Clone, Debug, PartialEq, Eq)]
pub struct ProxyResponse {
    pub status: u16,
    pub headers: Vec<Header>,
    pub body: Vec<u8>,
}

/// How an upstream request ended.
#[derive(Clone, Debug, PartialEq, Eq)]
pub enum UpstreamOutcome {
    /// The upstream answered.
    Reply(UpstreamResponse),
    /// The request could not be carried out; the text says why.
    Failure(String),
}

/// What is to be done with a request.
#[derive(Clone, Debug, PartialEq, Eq)]
pub enum Routed {
    /// It is answered at once with this response; nothing is sent upstream.
    Answer(ProxyResponse),
    /// This request is to be sent upstream.
    Forward(UpstreamRequest),
}

/// What a `ProxyRequest` holds.
pub struct ProxyRequestView {
    pub method: Seq<char>,
    pub path: Seq<char>,
    pub query: Seq<char>,
    pub headers: Seq<RawHeaderView>,
    pub body: Seq<u8>,
}

/// What an `UpstreamRequest` holds.
pub struct UpstreamRequestView {
    pub method: Seq<char>,
    pub url: Seq<char>,
    pub headers: Seq<HeaderView>,
    pub body: Option<Seq<u8>>,
}

/// What an `UpstreamResponse` holds.
pub struct UpstreamResponseView {
    pub status: u16,
    pub headers: Seq<RawHeaderView>,
    pub body: Seq<u8>,
}

/// What a `ProxyResponse` holds.
pub struct ProxyResponseView {
    pub status: u16,
    pub headers: Seq<HeaderView>,
    pub body: Seq<u8>,
}

/// What an `UpstreamOutcome` holds.
pub enum UpstreamOutcomeView {
    Reply(UpstreamResponseView),
    Failure(Seq<char>),
}

/// What a `Routed` holds.
pub enum RoutedView {
    Answer(ProxyResponseView),
    Forward(UpstreamRequestView),
}

impl View for ProxyRequest {
    type V = ProxyRequestView;

    open spec fn view(&self) -> ProxyRequestView {
        ProxyRequestView {
            method: self.method@,
            path: self.path@,
            query: self.query@,
            headers: self.headers.deep_view(),
            body: self.body@,
        }
    }
}

impl View for UpstreamRequest {
    type V = UpstreamRequestView;

    open spec fn view(&self) -> UpstreamRequestView {
        UpstreamRequestView {
            method: self.method@,
            url: self.url@,
            headers: self.headers.deep_view(),
            body: match self.body {
                Some(b) => Some(b@),
                None => None,
            },
        }
    }
}

impl View for UpstreamResponse {
    type V = UpstreamResponseView;

    open spec fn view(&self) -> UpstreamResponseView {
        UpstreamResponseView {
            status: self.status,
            headers: self.headers.deep_view(),
            body: self.body@,
        }
    }
}

impl View for ProxyResponse {
    type V = ProxyResponseView;

    open spec fn view(&self) -> ProxyResponseView {
        ProxyResponseView {
            status: self.status,
            headers: self.headers.deep_view(),
            body: self.body@,
        }
    }
}

impl View for UpstreamOutcome {
    type V = UpstreamOutcomeView;

    open spec fn view(&self) -> UpstreamOutcomeView {
        match self {
            UpstreamOutcome::Reply(r) => UpstreamOutcomeView::Reply(r@),
            UpstreamOutcome::Failure(why) => UpstreamOutcomeView::Failure(why@),
        }
    }
}

impl View for Routed {
    type V = RoutedView;

    open spec fn view(&self) -> RoutedView {
        match self {
            Routed::Answer(r) => RoutedView::Answer(r@),
            Routed::Forward(r) => RoutedView::Forward(r@),
        }
    }
}

/// The address that the upstream is asked for: the origin, then the path as
/// it came, then `?` and the query where there is one.
pub open spec fn upstream_url(origin: Seq<char>, path: Seq<char>, query: Seq<char>) -> Seq<char> {
    if query.len() == 0 {
        origin + path
    } else {
        origin + path + "?"@ + query
    }
}

/// The header that replays the cookies `pairs`: none where there is no
/// cookie, else one `Cookie` header.
pub open spec fn cookie_headers(pairs: Seq<Pair>) -> Seq<HeaderView> {
    if pairs.len() == 0 {
        Seq::empty()
    } else {
        seq![line("Cookie"@, cookie_text(pairs))]
    }
}

/// The headers of the upstream request: what is copied from the client,
/// then the cookies, then what the settings add.
pub open spec fn upstream_headers(
    raw: Seq<RawHeaderView>,
    pairs: Seq<Pair>,
    injected: Seq<HeaderView>,
) -> Seq<HeaderView> {
    forwarded_headers(raw) + cookie_headers(pairs) + injected
}

/// The request that the upstream receives for the client's request
/// `request`, with the cookies `pairs` in the jar.
pub open spec fn upstream_request(
    origin: Seq<char>,
    injected: Seq<HeaderView>,
    pairs: Seq<Pair>,
    request: ProxyRequestView,
) -> UpstreamRequestView {
    UpstreamRequestView {
        method: upstream_method(request.method),
        url: upstream_url(origin, request.path, request.query),
        headers: upstream_headers(request.headers, pairs, injected),
        body: if carries_body(request.method) {
            Some(request.body)
        } else {
            None
        },
    }
}

/// The answer to a preflight request.
pub open spec fn preflight_response() -> ProxyResponseView {
    ProxyResponseView { status: 204, headers: preflight_headers(), body: Seq::empty() }
}

/// The response that the client receives for the upstream's `reply`.
pub open spec fn passed_on(reply: UpstreamResponseView) -> ProxyResponseView {
    ProxyResponseView {
        status: reply.status,
        headers: delivered_headers(reply.headers) + cors_headers(),
        body: reply.body,
    }
}

/// The response that the client receives when the upstream request failed
/// for the reason `why`.
pub open spec fn failure_response(why: Seq<char>) -> ProxyResponseView {
    ProxyResponseView {
        status: 502,
        headers: failure_headers(),
        body: encode_utf8("Proxy error: "@ + why),
    }
}

/// What is done with `request`: a preflight request is answered here, any
/// other is sent upstream.
pub open spec fn routed(
    origin: Seq<char>,
    injected: Seq<HeaderView>,
    pairs: Seq<Pair>,
    request: ProxyRequestView,
) -> RoutedView {
    if is_preflight(request.method) {
        RoutedView::Answer(preflight_response())
    } else {
        RoutedView::Forward(upstream_request(origin, injected, pairs, request))
    }
}

/// The response that the client receives once the upstream request has
/// ended with `outcome`.
pub open spec fn settled(outcome: UpstreamOutcomeView) -> ProxyResponseView {
    match outcome {
        UpstreamOutcomeView::Reply(reply) => passed_on(reply),
        UpstreamOutcomeView::Failure(why) => failure_response(why),
    }
}

/// The cookies in the jar once the upstream request has ended with
/// `outcome`: a reply's cookies are stored, a failure changes nothing.
pub open spec fn pairs_settled(pairs: Seq<Pair>, outcome: UpstreamOutcomeView) -> Seq<Pair> {
    match outcome {
        UpstreamOutcomeView::Reply(reply) => pairs_after(pairs, reply.headers),
        UpstreamOutcomeView::Failure(_) => pairs,
    }
}

/// The address that the upstream is asked for.
pub fn build_upstream_url(origin: &str, path: &str, query: &str) -> (url: String)
    ensures
        url@ == upstream_url(origin@, path@, query@),
{
    let mut url = String::from_str(origin);
    url.append(path);
    if !query.is_empty() {
        url.append("?");
        url.append(query);
    }
    url
}

/// The request to send upstream for the client's `request`.
pub fn prepare_upstream_request(
    config: &ProxyConfig,
    jar: &CookieJar,
    request: ProxyRequest,
) -> (up: UpstreamRequest)
    ensures
        up@ == upstream_request(
            config.upstream_origin@,
            config.injected_headers.deep_view(),
            jar.pairs(),
            request@,
        ),
{
    let url = build_upstream_url(
        config.upstream_origin.as_str(),
        request.path.as_str(),
        request.query.as_str(),
    );
    let method = choose_upstream_method(request.method.as_str());
    let mut headers = forward_headers(&request.headers);
    let ghost copied = headers.deep_view();
    if !jar.is_empty() {
        let cookie = build_cookie_header(jar);
        headers.push(Header { name: String::from_str("Cookie"), value: cookie });
        assert(headers.deep_view() =~= copied + cookie_headers(jar.pairs()));
    } else {
        assert(headers.deep_view() =~= copied + cookie_headers(jar.pairs()));
    }
    let ghost with_cookies = headers.deep_view();
    let mut injected = copy_headers(&config.injected_headers);
    headers.append(&mut injected);
    assert(headers.deep_view() =~= with_cookies + config.injected_headers.deep_view());
    let body = if method_carries_body(request.method.as_str()) {
        Some(request.body)
    } else {
        None
    };
    UpstreamRequest { method, url, headers, body }
}

/// The answer to a preflight request.
pub fn answer_preflight() -> (r: ProxyResponse)
    ensures
        r@ == preflight_response(),
{
    let mut headers: Vec<Header> = Vec::new();
    assert(headers.deep_view() =~= Seq::<HeaderView>::empty());
    push_preflight_headers(&mut headers);
    assert(headers.deep_view() =~= preflight_headers());
    ProxyResponse { status: 204, headers, body: Vec::new() }
}

/// Decides what is done with `request`: a request of method `OPTIONS` is
/// answered here, whatever its path; any other is sent upstream.
pub fn route(config: &ProxyConfig, jar: &CookieJar, request: ProxyRequest) -> (r: Routed)
    ensures
        r@ == routed(
            config.upstream_origin@,
            config.injected_headers.deep_view(),
            jar.pairs(),
            request@,
        ),
{
    if is_preflight_method(request.method.as_str()) {
        Routed::Answer(answer_preflight())
    } else {
        Routed::Forward(prepare_upstream_request(config, jar, request))
    }
}

/// The response to the client for the upstream's `reply`: the same status
/// and body, the headers that may be delivered, and the CORS headers.
pub fn pass_on(reply: UpstreamResponse) -> (r: ProxyResponse)
    ensures
        r@ == passed_on(reply@),
{
    let mut headers = deliver_headers(&reply.headers);
    push_cors_headers(&mut headers);
    ProxyResponse { status: reply.status, headers, body: reply.body }
}

/// The response to the client when the upstream request failed for the
/// reason `why`.
pub fn answer_failure(why: &str) -> (r: ProxyResponse)
    ensures
        r@ == failure_response(why@),
{
    let mut headers: Vec<Header> = Vec::new();
    headers.push(Header::new("Access-Control-Allow-Origin", "*"));
    assert(headers.deep_view() =~= failure_headers());
    let mut text = String::from_str("Proxy error: ");
    text.append(why);
    ProxyResponse { status: 502, headers, body: text.as_str().as_bytes_vec() }
}

/// Ends a request once the upstream request has ended with `outcome`:
/// stores the cookies that a reply sets and gives the response for the
/// client.
pub fn settle(jar: &mut CookieJar, outcome: UpstreamOutcome) -> (r: ProxyResponse)
    ensures
        r@ == settled(outcome@),
        final(jar).pairs() == pairs_settled(old(jar).pairs(), outcome@),
{
    match outcome {
        UpstreamOutcome::Reply(reply) => {
            jar.harvest(&reply.headers);
            pass_on(reply)
        },
        UpstreamOutcome::Failure(why) => answer_failure(why.as_str()),
    }
}

} // verus!
