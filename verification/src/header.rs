//! Header lines, the names that are never passed on, and the fixed header
//! sets that the proxy adds.

use crate::text::{decode_text, names_match, same_name};
use vstd::prelude::*;
use vstd::string::StringExecFns;
use vstd::utf8::{decode_utf8, valid_utf8};

verus! {

/// A header line whose value is text.
#[derive(Clone, Debug, PartialEq, Eq)]
pub struct Header {
    pub name: String,
    pub value: String,
}

/// A header line as it arrived: the value is bytes that may or may not be
/// text.
#[derive(Clone, Debug, PartialEq, Eq)]
pub struct RawHeader {
    pub name: String,
    pub value: Vec<u8>,
}

/// What a `Header` holds.
pub struct HeaderView {
    pub name: Seq<char>,
    pub value: Seq<char>,
}

/// What a `RawHeader` holds.
pub struct RawHeaderView {
    pub name: Seq<char>,
    pub value: Seq<u8>,
}

impl View for Header {
    type V = HeaderView;

    open spec fn view(&self) -> HeaderView {
        HeaderView { name: self.name@, value: self.value@ }
    }
}

impl DeepView for Header {
    type V = HeaderView;

    open spec fn deep_view(&self) -> HeaderView {
        self@
    }
}

impl View for RawHeader {
    type V = RawHeaderView;

    open spec fn view(&self) -> RawHeaderView {
        RawHeaderView { name: self.name@, value: self.value@ }
    }
}

impl DeepView for RawHeader {
    type V = RawHeaderView;

    open spec fn deep_view(&self) -> RawHeaderView {
        self@
    }
}

/// `name` is meaningful for one transport hop only.
pub open spec fn is_hop_by_hop(name: Seq<char>) -> bool {
    ||| same_name(name, "host"@)
    ||| same_name(name, "connection"@)
    ||| same_name(name, "keep-alive"@)
    ||| same_name(name, "transfer-encoding"@)
    ||| same_name(name, "te"@)
    ||| same_name(name, "trailer"@)
    ||| same_name(name, "upgrade"@)
}

/// `name` tells the upstream where the client's page was loaded from.
pub open spec fn reveals_origin(name: Seq<char>) -> bool {
    same_name(name, "origin"@) || same_name(name, "referer"@)
}

/// `name` is the request header that carries cookies.
pub open spec fn is_cookie_name(name: Seq<char>) -> bool {
    same_name(name, "cookie"@)
}

/// `name` is the response header that sets a cookie.
pub open spec fn is_set_cookie_name(name: Seq<char>) -> bool {
    same_name(name, "set-cookie"@)
}

/// A request header of this name is never copied to the upstream.
pub open spec fn is_scrubbed(name: Seq<char>) -> bool {
    is_hop_by_hop(name) || reveals_origin(name) || is_cookie_name(name)
}

/// A response header of this name is never copied to the client.
pub open spec fn is_withheld(name: Seq<char>) -> bool {
    ||| same_name(name, "transfer-encoding"@)
    ||| same_name(name, "content-encoding"@)
    ||| is_set_cookie_name(name)
}

/// The header `h` with its value read as text.
pub open spec fn decoded(h: RawHeaderView) -> HeaderView {
    HeaderView { name: h.name, value: decode_utf8(h.value) }
}

/// The request header `h` is copied to the upstream.
pub open spec fn is_forwardable(h: RawHeaderView) -> bool {
    !is_scrubbed(h.name) && valid_utf8(h.value)
}

/// The response header `h` is copied to the client.
pub open spec fn is_deliverable(h: RawHeaderView) -> bool {
    !is_withheld(h.name) && valid_utf8(h.value)
}

/// The request headers that reach the upstream out of `raw`, in order.
pub open spec fn forwarded_headers(raw: Seq<RawHeaderView>) -> Seq<HeaderView> {
    raw.filter(|h: RawHeaderView| is_forwardable(h)).map_values(|h: RawHeaderView| decoded(h))
}

/// The response headers that reach the client out of `raw`, in order.
pub open spec fn delivered_headers(raw: Seq<RawHeaderView>) -> Seq<HeaderView> {
    raw.filter(|h: RawHeaderView| is_deliverable(h)).map_values(|h: RawHeaderView| decoded(h))
}

/// A header line.
pub open spec fn line(name: Seq<char>, value: Seq<char>) -> HeaderView {
    HeaderView { name, value }
}

/// The four headers that open a response to any page, shared by every
/// response the proxy makes up or passes on.
pub open spec fn cors_grant() -> Seq<HeaderView> {
    seq![
        line("Access-Control-Allow-Origin"@, "*"@),
        line("Access-Control-Allow-Methods"@, "GET, POST, PUT, DELETE, OPTIONS, PATCH"@),
        line("Access-Control-Allow-Headers"@, "*"@),
        line("Access-Control-Allow-Credentials"@, "true"@),
    ]
}

/// The five headers that decorate a response passed on from the upstream.
pub open spec fn cors_headers() -> Seq<HeaderView> {
    cors_grant().push(line("Access-Control-Expose-Headers"@, "*"@))
}

/// The five headers of the answer to a preflight request.
pub open spec fn preflight_headers() -> Seq<HeaderView> {
    cors_grant().push(line("Access-Control-Max-Age"@, "86400"@))
}

/// The one header of the answer given when the upstream could not be
/// reached.
pub open spec fn failure_headers() -> Seq<HeaderView> {
    seq![line("Access-Control-Allow-Origin"@, "*"@)]
}

impl Header {
    /// A header line of the given name and value.
    pub fn new(name: &str, value: &str) -> (h: Header)
        ensures
            h@ == line(name@, value@),
    {
        Header { name: String::from_str(name), value: String::from_str(value) }
    }

    /// A second header line that holds the same.
    pub fn copy(&self) -> (h: Header)
        ensures
            h@ == self@,
    {
        Header { name: self.name.clone(), value: self.value.clone() }
    }
}

impl RawHeader {
    /// A header line of the given name whose value is the bytes of `value`.
    pub fn new(name: &str, value: &[u8]) -> (h: RawHeader)
        ensures
            h@ == (RawHeaderView { name: name@, value: value@ }),
    {
        RawHeader { name: String::from_str(name), value: vstd::slice::slice_to_vec(value) }
    }

    /// The header with its value read as text, where the value is well-formed
    /// UTF-8.
    pub fn decode(&self) -> (r: Option<Header>)
        ensures
            r is Some <==> valid_utf8(self.value@),
            r matches Some(h) ==> h@ == decoded(self@),
    {
        match decode_text(self.value.as_slice()) {
            Some(text) => Some(Header { name: self.name.clone(), value: String::from_str(text) }),
            None => None,
        }
    }
}

/// Tells whether a request header of this name is kept from the upstream.
pub fn is_scrubbed_name(name: &str) -> (r: bool)
    ensures
        r == is_scrubbed(name@),
{
    names_match(name, "host") || names_match(name, "connection") || names_match(name, "keep-alive")
        || names_match(name, "transfer-encoding") || names_match(name, "te") || names_match(
        name,
        "trailer",
    ) || names_match(name, "upgrade") || names_match(name, "origin") || names_match(
        name,
        "referer",
    ) || names_match(name, "cookie")
}

/// Tells whether a response header of this name is kept from the client.
pub fn is_withheld_name(name: &str) -> (r: bool)
    ensures
        r == is_withheld(name@),
{
    names_match(name, "transfer-encoding") || names_match(name, "content-encoding") || names_match(
        name,
        "set-cookie",
    )
}

/// Tells whether a response header of this name sets a cookie.
pub fn is_set_cookie(name: &str) -> (r: bool)
    ensures
        r == is_set_cookie_name(name@),
{
    names_match(name, "set-cookie")
}

/// Pushing one more raw header onto `raw` adds its decoded form to what is
/// forwarded exactly when it is forwardable.
pub proof fn lemma_forwarded_push(raw: Seq<RawHeaderView>, h: RawHeaderView)
    ensures
        forwarded_headers(raw.push(h)) == if is_forwardable(h) {
            forwarded_headers(raw).push(decoded(h))
        } else {
            forwarded_headers(raw)
        },
{
    let keep = |h: RawHeaderView| is_forwardable(h);
    let read = |h: RawHeaderView| decoded(h);
    raw.lemma_filter_push(h, keep);
    raw.filter(keep).lemma_push_map_commute(read, h);
}

/// Pushing one more raw header onto `raw` adds its decoded form to what is
/// delivered exactly when it is deliverable.
pub proof fn lemma_delivered_push(raw: Seq<RawHeaderView>, h: RawHeaderView)
    ensures
        delivered_headers(raw.push(h)) == if is_deliverable(h) {
            delivered_headers(raw).push(decoded(h))
        } else {
            delivered_headers(raw)
        },
{
    let keep = |h: RawHeaderView| is_deliverable(h);
    let read = |h: RawHeaderView| decoded(h);
    raw.lemma_filter_push(h, keep);
    raw.filter(keep).lemma_push_map_commute(read, h);
}

/// The request headers out of `raw` that go to the upstream: those whose
/// name is not scrubbed and whose value is text, in the order in which they
/// came.
pub fn forward_headers(raw: &Vec<RawHeader>) -> (out: Vec<Header>)
    ensures
        out.deep_view() == forwarded_headers(raw.deep_view()),
{
    let mut out: Vec<Header> = Vec::new();
    let mut i: usize = 0;
    assert(raw.deep_view().take(0) =~= Seq::<RawHeaderView>::empty());
    assert(out.deep_view() =~= forwarded_headers(Seq::<RawHeaderView>::empty()));
    while i < raw.len()
        invariant
            i <= raw.len(),
            out.deep_view() == forwarded_headers(raw.deep_view().take(i as int)),
        decreases raw.len() - i,
    {
        let ghost before = out.deep_view();
        proof {
            assert(raw.deep_view().take(i + 1) =~= raw.deep_view().take(i as int).push(raw[i as int]@));
            lemma_forwarded_push(raw.deep_view().take(i as int), raw[i as int]@);
        }
        if !is_scrubbed_name(raw[i].name.as_str()) {
            match raw[i].decode() {
                Some(h) => {
                    out.push(h);
                    assert(out.deep_view() =~= before.push(decoded(raw[i as int]@)));
                },
                None => {},
            }
        }
        i += 1;
    }
    assert(raw.deep_view().take(raw.len() as int) =~= raw.deep_view());
    out
}

/// The response headers out of `raw` that go to the client: those whose
/// name is not withheld and whose value is text, in the order in which they
/// came.
pub fn deliver_headers(raw: &Vec<RawHeader>) -> (out: Vec<Header>)
    ensures
        out.deep_view() == delivered_headers(raw.deep_view()),
{
    let mut out: Vec<Header> = Vec::new();
    let mut i: usize = 0;
    assert(raw.deep_view().take(0) =~= Seq::<RawHeaderView>::empty());
    assert(out.deep_view() =~= delivered_headers(Seq::<RawHeaderView>::empty()));
    while i < raw.len()
        invariant
            i <= raw.len(),
            out.deep_view() == delivered_headers(raw.deep_view().take(i as int)),
        decreases raw.len() - i,
    {
        let ghost before = out.deep_view();
        proof {
            assert(raw.deep_view().take(i + 1) =~= raw.deep_view().take(i as int).push(raw[i as int]@));
            lemma_delivered_push(raw.deep_view().take(i as int), raw[i as int]@);
        }
        if !is_withheld_name(raw[i].name.as_str()) {
            match raw[i].decode() {
                Some(h) => {
                    out.push(h);
                    assert(out.deep_view() =~= before.push(decoded(raw[i as int]@)));
                },
                None => {},
            }
        }
        i += 1;
    }
    assert(raw.deep_view().take(raw.len() as int) =~= raw.deep_view());
    out
}

/// Appends to `headers` the four headers that open a response to any page.
fn push_cors_grant(headers: &mut Vec<Header>)
    ensures
        final(headers).deep_view() == old(headers).deep_view() + cors_grant(),
{
    let ghost before = headers.deep_view();
    headers.push(Header::new("Access-Control-Allow-Origin", "*"));
    headers.push(Header::new("Access-Control-Allow-Methods", "GET, POST, PUT, DELETE, OPTIONS, PATCH"));
    headers.push(Header::new("Access-Control-Allow-Headers", "*"));
    headers.push(Header::new("Access-Control-Allow-Credentials", "true"));
    assert(headers.deep_view() =~= before + cors_grant());
}

/// Appends to `headers` the five headers that decorate a response passed on
/// from the upstream.
pub fn push_cors_headers(headers: &mut Vec<Header>)
    ensures
        final(headers).deep_view() == old(headers).deep_view() + cors_headers(),
{
    let ghost before = headers.deep_view();
    push_cors_grant(headers);
    let ghost granted = headers.deep_view();
    headers.push(Header::new("Access-Control-Expose-Headers", "*"));
    assert(headers.deep_view() =~= granted.push(line("Access-Control-Expose-Headers"@, "*"@)));
    assert(headers.deep_view() =~= before + cors_headers());
}

/// Appends to `headers` the five headers of the answer to a preflight
/// request.
pub fn push_preflight_headers(headers: &mut Vec<Header>)
    ensures
        final(headers).deep_view() == old(headers).deep_view() + preflight_headers(),
{
    let ghost before = headers.deep_view();
    push_cors_grant(headers);
    let ghost granted = headers.deep_view();
    headers.push(Header::new("Access-Control-Max-Age", "86400"));
    assert(headers.deep_view() =~= granted.push(line("Access-Control-Max-Age"@, "86400"@)));
    assert(headers.deep_view() =~= before + preflight_headers());
}

/// Copies of the header lines in `headers`, in order.
pub fn copy_headers(headers: &Vec<Header>) -> (out: Vec<Header>)
    ensures
        out.deep_view() == headers.deep_view(),
{
    let mut out: Vec<Header> = Vec::new();
    let mut i: usize = 0;
    assert(out.deep_view() =~= headers.deep_view().take(0));
    while i < headers.len()
        invariant
            i <= headers.len(),
            out.deep_view() == headers.deep_view().take(i as int),
        decreases headers.len() - i,
    {
        let ghost before = out.deep_view();
        out.push(headers[i].copy());
        assert(out.deep_view() =~= before.push(headers[i as int]@));
        assert(headers.deep_view().take(i + 1) =~= headers.deep_view().take(i as int).push(
            headers[i as int]@,
        ));
        i += 1;
    }
    assert(headers.deep_view().take(headers.len() as int) =~= headers.deep_view());
    out
}

} // verus!
