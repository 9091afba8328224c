//! What holds of every request and every response that goes through the
//! proxy.

use crate::cookie::{
    cookie_set_by, cookie_text, distinct_names, lemma_pairs_map, lemma_upsert, pairs_after,
    pairs_map, Pair,
};
use crate::header::{
    cors_headers, decoded, delivered_headers, failure_headers, forwarded_headers, is_cookie_name,
    is_deliverable, is_forwardable, is_scrubbed, is_withheld, lemma_delivered_push,
    lemma_forwarded_push, line, preflight_headers, HeaderView, RawHeaderView,
};
use crate::method::is_preflight;
use crate::proxy::{
    cookie_headers, failure_response, passed_on, pairs_settled, preflight_response, routed,
    settled, upstream_headers, upstream_request, ProxyRequestView, RoutedView,
    UpstreamOutcomeView, UpstreamResponseView,
};
use crate::text::same_name;
use vstd::prelude::*;
use vstd::utf8::valid_utf8;

verus! {

/// No header in `headers` has a name that is kept from the client.
pub open spec fn none_withheld(headers: Seq<HeaderView>) -> bool {
    forall|i: int| 0 <= i < headers.len() ==> !is_withheld(#[trigger] headers[i].name)
}

/// No header in `headers` has a name that is kept from the upstream.
pub open spec fn none_scrubbed(headers: Seq<HeaderView>) -> bool {
    forall|i: int| 0 <= i < headers.len() ==> !is_scrubbed(#[trigger] headers[i].name)
}

/// `h` is a request header of `raw` that is copied to the upstream, its
/// value read as text.
pub open spec fn forwardable_in(raw: Seq<RawHeaderView>, h: HeaderView) -> bool {
    exists|j: int| 0 <= j < raw.len() && is_forwardable(#[trigger] raw[j]) && h == decoded(raw[j])
}

/// `h` is a response header of `raw` that is copied to the client, its
/// value read as text.
pub open spec fn deliverable_in(raw: Seq<RawHeaderView>, h: HeaderView) -> bool {
    exists|j: int| 0 <= j < raw.len() && is_deliverable(#[trigger] raw[j]) && h == decoded(raw[j])
}

/// The upstream is asked for the origin followed by the path where the
/// query is empty, and for origin, path, `?` and query where it is not.
pub proof fn law_upstream_url(
    origin: Seq<char>,
    injected: Seq<HeaderView>,
    pairs: Seq<Pair>,
    request: ProxyRequestView,
)
    ensures
        request.query.len() == 0 ==> upstream_request(origin, injected, pairs, request).url
            == origin + request.path,
        request.query.len() != 0 ==> upstream_request(origin, injected, pairs, request).url
            == origin + request.path + "?"@ + request.query,
{
}

/// Every header copied from the client to the upstream is one that the
/// client sent, with a name that is not scrubbed and a value that is text.
pub proof fn law_forwarded_headers(raw: Seq<RawHeaderView>)
    ensures
        none_scrubbed(forwarded_headers(raw)),
        forall|i: int|
            0 <= i < forwarded_headers(raw).len() ==> forwardable_in(raw, #[trigger] forwarded_headers(raw)[i]),
        forall|j: int|
            0 <= j < raw.len() && is_forwardable(#[trigger] raw[j]) ==> forwarded_headers(
                raw,
            ).contains(decoded(raw[j])),
    decreases raw.len(),
{
    if raw.len() > 0 {
        let rest = raw.drop_last();
        let last = raw.last();
        law_forwarded_headers(rest);
        assert(rest.push(last) =~= raw);
        lemma_forwarded_push(rest, last);
        let out = forwarded_headers(raw);
        let before = forwarded_headers(rest);
        assert forall|i: int| 0 <= i < out.len() implies forwardable_in(raw, #[trigger] out[i]) by {
            if i < before.len() {
                assert(forwardable_in(rest, before[i]));
                let j = choose|j: int|
                    0 <= j < rest.len() && is_forwardable(#[trigger] rest[j]) && before[i] == decoded(
                        rest[j],
                    );
                assert(raw[j] == rest[j]);
            } else {
                assert(is_forwardable(raw[raw.len() - 1]) && out[i] == decoded(raw[raw.len() - 1]));
            }
        }
        assert forall|j: int| 0 <= j < raw.len() && is_forwardable(
            #[trigger] raw[j],
        ) implies out.contains(decoded(raw[j])) by {
            if j < rest.len() {
                assert(raw[j] == rest[j]);
                let i = choose|i: int| 0 <= i < before.len() && before[i] == decoded(rest[j]);
                assert(out[i] == decoded(raw[j]));
            } else {
                assert(out[out.len() - 1] == decoded(raw[j]));
            }
        }
        assert forall|i: int| 0 <= i < out.len() implies !is_scrubbed(#[trigger] out[i].name) by {
            if i < before.len() {
                assert(out[i] == before[i]);
            }
        }
    }
}

/// Every header copied from the upstream to the client is one that the
/// upstream sent, with a name that is not withheld and a value that is
/// text; and every such header of the upstream is delivered.
pub proof fn law_delivered_headers(raw: Seq<RawHeaderView>)
    ensures
        none_withheld(delivered_headers(raw)),
        forall|i: int|
            0 <= i < delivered_headers(raw).len() ==> deliverable_in(raw, #[trigger] delivered_headers(raw)[i]),
        forall|j: int|
            0 <= j < raw.len() && is_deliverable(#[trigger] raw[j]) ==> delivered_headers(
                raw,
            ).contains(decoded(raw[j])),
    decreases raw.len(),
{
    if raw.len() > 0 {
        let rest = raw.drop_last();
        let last = raw.last();
        law_delivered_headers(rest);
        assert(rest.push(last) =~= raw);
        lemma_delivered_push(rest, last);
        let out = delivered_headers(raw);
        let before = delivered_headers(rest);
        assert forall|i: int| 0 <= i < out.len() implies deliverable_in(raw, #[trigger] out[i]) by {
            if i < before.len() {
                assert(deliverable_in(rest, before[i]));
                let j = choose|j: int|
                    0 <= j < rest.len() && is_deliverable(#[trigger] rest[j]) && before[i] == decoded(
                        rest[j],
                    );
                assert(raw[j] == rest[j]);
            } else {
                assert(is_deliverable(raw[raw.len() - 1]) && out[i] == decoded(raw[raw.len() - 1]));
            }
        }
        assert forall|j: int| 0 <= j < raw.len() && is_deliverable(
            #[trigger] raw[j],
        ) implies out.contains(decoded(raw[j])) by {
            if j < rest.len() {
                assert(raw[j] == rest[j]);
                let i = choose|i: int| 0 <= i < before.len() && before[i] == decoded(rest[j]);
                assert(out[i] == decoded(raw[j]));
            } else {
                assert(out[out.len() - 1] == decoded(raw[j]));
            }
        }
        assert forall|i: int| 0 <= i < out.len() implies !is_withheld(#[trigger] out[i].name) by {
            if i < before.len() {
                assert(out[i] == before[i]);
            }
        }
    }
}

/// A header of the upstream request whose name is scrubbed was not copied
/// from the client: it is the `Cookie` header made from the jar, or one of
/// the headers that the settings add.
pub proof fn law_scrubbed_upstream_headers(
    raw: Seq<RawHeaderView>,
    pairs: Seq<Pair>,
    injected: Seq<HeaderView>,
    i: int,
)
    requires
        0 <= i < upstream_headers(raw, pairs, injected).len(),
        is_scrubbed(upstream_headers(raw, pairs, injected)[i].name),
    ensures
        i >= forwarded_headers(raw).len(),
        i == forwarded_headers(raw).len() && pairs.len() > 0 ==> upstream_headers(
            raw,
            pairs,
            injected,
        )[i] == line("Cookie"@, cookie_text(pairs)),
        i > forwarded_headers(raw).len() || pairs.len() == 0 ==> injected.contains(
            upstream_headers(raw, pairs, injected)[i],
        ),
{
    law_forwarded_headers(raw);
    let copied = forwarded_headers(raw);
    let cookies = cookie_headers(pairs);
    let all = upstream_headers(raw, pairs, injected);
    if i < copied.len() {
        assert(all[i] == copied[i]);
    } else if i >= copied.len() + cookies.len() {
        assert(all[i] == injected[i - copied.len() - cookies.len()]);
    }
}

/// Where the settings add no header of a scrubbed name, the upstream
/// request has a header of such a name exactly when the jar is not empty,
/// and then it has one: the `Cookie` header made from the jar.
pub proof fn law_one_cookie_header(
    raw: Seq<RawHeaderView>,
    pairs: Seq<Pair>,
    injected: Seq<HeaderView>,
)
    requires
        none_scrubbed(injected),
    ensures
        pairs.len() == 0 ==> none_scrubbed(upstream_headers(raw, pairs, injected)),
        pairs.len() > 0 ==> forall|i: int|
            0 <= i < upstream_headers(raw, pairs, injected).len() ==> (is_scrubbed(
                #[trigger] upstream_headers(raw, pairs, injected)[i].name,
            ) <==> i == forwarded_headers(raw).len()),
        pairs.len() > 0 ==> upstream_headers(raw, pairs, injected)[forwarded_headers(
            raw,
        ).len() as int] == line("Cookie"@, cookie_text(pairs)),
{
    law_forwarded_headers(raw);
    let copied = forwarded_headers(raw);
    let cookies = cookie_headers(pairs);
    let all = upstream_headers(raw, pairs, injected);
    assert forall|i: int| 0 <= i < all.len() implies (is_scrubbed(#[trigger] all[i].name) <==> (
    pairs.len() > 0 && i == copied.len())) by {
        if i < copied.len() {
            assert(all[i] == copied[i]);
        } else if i >= copied.len() + cookies.len() {
            assert(all[i] == injected[i - copied.len() - cookies.len()]);
        } else {
            assert(all[i] == line("Cookie"@, cookie_text(pairs)));
            lemma_cookie_is_scrubbed();
        }
    }
}

/// The `Cookie` header is made exactly when the jar holds a cookie, and it
/// is made of the pairs that the jar maps: each name with its current
/// value, once.
pub proof fn law_cookie_header(pairs: Seq<Pair>)
    requires
        distinct_names(pairs),
    ensures
        cookie_headers(pairs).len() == (if pairs_map(pairs).len() > 0 {
            1nat
        } else {
            0nat
        }),
        pairs_map(pairs).len() > 0 ==> cookie_headers(pairs)[0] == line(
            "Cookie"@,
            cookie_text(pairs),
        ),
        forall|name: Seq<char>, value: Seq<char>|
            pairs.contains((name, value)) <==> #[trigger] pairs_map(pairs).contains_pair(
                name,
                value,
            ),
{
    lemma_pairs_map(pairs);
    assert forall|name: Seq<char>, value: Seq<char>| pairs.contains((name, value)) implies #[trigger]
        pairs_map(pairs).contains_pair(name, value) by {
        let i = choose|i: int| 0 <= i < pairs.len() && pairs[i] == (name, value);
        assert(pairs_map(pairs).contains_pair(pairs[i].0, pairs[i].1));
    }
}

/// The name `Cookie` is a scrubbed one.
proof fn lemma_cookie_is_scrubbed()
    ensures
        is_cookie_name("Cookie"@),
        is_scrubbed("Cookie"@),
{
    reveal_strlit("Cookie");
    reveal_strlit("cookie");
}

/// The upstream request ends with the headers that the settings add, all of
/// them and in their order.
pub proof fn law_injected_headers(
    raw: Seq<RawHeaderView>,
    pairs: Seq<Pair>,
    injected: Seq<HeaderView>,
)
    ensures
        upstream_headers(raw, pairs, injected).len() >= injected.len(),
        upstream_headers(raw, pairs, injected).skip(
            upstream_headers(raw, pairs, injected).len() - injected.len(),
        ) == injected,
        forall|j: int|
            0 <= j < injected.len() ==> upstream_headers(raw, pairs, injected).contains(
                #[trigger] injected[j],
            ),
{
    let all = upstream_headers(raw, pairs, injected);
    let lead = all.len() - injected.len();
    assert(all.skip(lead) =~= injected);
    assert forall|j: int| 0 <= j < injected.len() implies all.contains(#[trigger] injected[j]) by {
        assert(all[lead + j] == injected[j]);
    }
}

/// None of the headers that the proxy makes up for a response has a name
/// that is kept from the client.
proof fn lemma_made_up_headers()
    ensures
        none_withheld(cors_headers()),
        none_withheld(preflight_headers()),
        none_withheld(failure_headers()),
{
    reveal_strlit("Access-Control-Allow-Origin");
    reveal_strlit("Access-Control-Allow-Methods");
    reveal_strlit("Access-Control-Allow-Headers");
    reveal_strlit("Access-Control-Allow-Credentials");
    reveal_strlit("Access-Control-Expose-Headers");
    reveal_strlit("Access-Control-Max-Age");
    reveal_strlit("transfer-encoding");
    reveal_strlit("content-encoding");
    reveal_strlit("set-cookie");
}

/// No response that the proxy gives has a header named `set-cookie`,
/// `transfer-encoding` or `content-encoding`, in any case of letters:
/// neither the answer to a preflight request, nor a response passed on from
/// the upstream, nor the answer given when the upstream failed.
pub proof fn law_no_withheld_header(outcome: UpstreamOutcomeView)
    ensures
        none_withheld(preflight_response().headers),
        none_withheld(settled(outcome).headers),
{
    lemma_made_up_headers();
    match outcome {
        UpstreamOutcomeView::Reply(reply) => {
            law_delivered_headers(reply.headers);
            let kept = delivered_headers(reply.headers);
            let all = passed_on(reply).headers;
            assert forall|i: int| 0 <= i < all.len() implies !is_withheld(
                #[trigger] all[i].name,
            ) by {
                if i < kept.len() {
                    assert(all[i] == kept[i]);
                } else {
                    assert(all[i] == cors_headers()[i - kept.len()]);
                }
            }
        },
        UpstreamOutcomeView::Failure(_) => {},
    }
}

/// A response passed on from the upstream ends with the five CORS headers.
pub proof fn law_cors_headers(reply: UpstreamResponseView)
    ensures
        cors_headers().len() == 5,
        passed_on(reply).headers.len() >= 5,
        passed_on(reply).headers.skip(passed_on(reply).headers.len() - 5) == cors_headers(),
        forall|j: int|
            0 <= j < 5 ==> passed_on(reply).headers.contains(#[trigger] cors_headers()[j]),
{
    let all = passed_on(reply).headers;
    assert(all.skip(all.len() - 5) =~= cors_headers());
    assert forall|j: int| 0 <= j < 5 implies all.contains(#[trigger] cors_headers()[j]) by {
        assert(all[all.len() - 5 + j] == cors_headers()[j]);
    }
}

/// Storing the cookies of a response keeps the names in the jar distinct.
pub proof fn law_names_stay_distinct(pairs: Seq<Pair>, raw: Seq<RawHeaderView>)
    requires
        distinct_names(pairs),
    ensures
        distinct_names(pairs_after(pairs, raw)),
    decreases raw.len(),
{
    if raw.len() > 0 {
        law_names_stay_distinct(pairs, raw.drop_last());
        match cookie_set_by(raw.last()) {
            Some(c) => {
                lemma_upsert(pairs_after(pairs, raw.drop_last()), c.0, c.1);
            },
            None => {},
        }
    }
}

/// The response header `h` sets a cookie of the name `name`.
pub open spec fn sets_name(h: RawHeaderView, name: Seq<char>) -> bool {
    cookie_set_by(h) matches Some(c) && c.0 == name
}

/// Of the headers of a response that set a cookie of one name, the last
/// decides: after the response the jar maps that name to the value that
/// this header gave.
pub proof fn law_last_cookie_wins(
    pairs: Seq<Pair>,
    raw: Seq<RawHeaderView>,
    i: int,
    name: Seq<char>,
    value: Seq<char>,
)
    requires
        distinct_names(pairs),
        0 <= i < raw.len(),
        cookie_set_by(raw[i]) == Some((name, value)),
        forall|j: int| i < j < raw.len() ==> !sets_name(#[trigger] raw[j], name),
    ensures
        pairs_map(pairs_after(pairs, raw)).contains_pair(name, value),
    decreases raw.len(),
{
    let rest = raw.drop_last();
    let before = pairs_after(pairs, rest);
    law_names_stay_distinct(pairs, rest);
    match cookie_set_by(raw.last()) {
        Some(c) => {
            lemma_upsert(before, c.0, c.1);
        },
        None => {},
    }
    if i < raw.len() - 1 {
        assert(rest[i] == raw[i]);
        assert forall|j: int| i < j < rest.len() implies !sets_name(#[trigger] rest[j], name) by {
            assert(rest[j] == raw[j]);
        }
        law_last_cookie_wins(pairs, rest, i, name, value);
        assert(!sets_name(raw[raw.len() - 1], name));
    }
}

/// A name that no header of a response sets stands in the jar after the
/// response as it stood before.
pub proof fn law_other_cookies_stay(pairs: Seq<Pair>, raw: Seq<RawHeaderView>, name: Seq<char>)
    requires
        distinct_names(pairs),
        forall|j: int| 0 <= j < raw.len() ==> !sets_name(#[trigger] raw[j], name),
    ensures
        pairs_map(pairs_after(pairs, raw)).contains_key(name) == pairs_map(pairs).contains_key(
            name,
        ),
        pairs_map(pairs).contains_key(name) ==> pairs_map(pairs_after(pairs, raw))[name]
            == pairs_map(pairs)[name],
    decreases raw.len(),
{
    if raw.len() > 0 {
        let rest = raw.drop_last();
        let before = pairs_after(pairs, rest);
        law_names_stay_distinct(pairs, rest);
        assert forall|j: int| 0 <= j < rest.len() implies !sets_name(#[trigger] rest[j], name) by {
            assert(rest[j] == raw[j]);
        }
        law_other_cookies_stay(pairs, rest, name);
        assert(!sets_name(raw[raw.len() - 1], name));
        match cookie_set_by(raw.last()) {
            Some(c) => {
                lemma_upsert(before, c.0, c.1);
            },
            None => {},
        }
    }
}

/// A request is answered here, and nothing is sent upstream, exactly when
/// its method is `OPTIONS`; the answer is then the same whatever the
/// request holds besides.
pub proof fn law_preflight_stays_here(
    origin: Seq<char>,
    injected: Seq<HeaderView>,
    pairs: Seq<Pair>,
    request: ProxyRequestView,
)
    ensures
        is_preflight(request.method) <==> routed(origin, injected, pairs, request) is Answer,
        is_preflight(request.method) ==> routed(origin, injected, pairs, request)
            == RoutedView::Answer(preflight_response()),
        !is_preflight(request.method) ==> routed(origin, injected, pairs, request)
            == RoutedView::Forward(upstream_request(origin, injected, pairs, request)),
{
}

/// A reply of the upstream goes to the client with its status and its body
/// as they are, whatever the status, and with each of its headers whose
/// name is not withheld and whose value is text: a redirection keeps its
/// status and its `Location`.
pub proof fn law_reply_goes_through(reply: UpstreamResponseView, j: int)
    requires
        0 <= j < reply.headers.len(),
        valid_utf8(reply.headers[j].value),
        !is_withheld(reply.headers[j].name) || same_name(reply.headers[j].name, "location"@),
    ensures
        settled(UpstreamOutcomeView::Reply(reply)).status == reply.status,
        settled(UpstreamOutcomeView::Reply(reply)).body == reply.body,
        settled(UpstreamOutcomeView::Reply(reply)).headers.contains(decoded(reply.headers[j])),
{
    let h = reply.headers[j];
    assert(!is_withheld(h.name)) by {
        reveal_strlit("location");
        reveal_strlit("transfer-encoding");
        reveal_strlit("content-encoding");
        reveal_strlit("set-cookie");
    }
    law_delivered_headers(reply.headers);
    let kept = delivered_headers(reply.headers);
    let i = choose|i: int| 0 <= i < kept.len() && kept[i] == decoded(h);
    assert(passed_on(reply).headers[i] == decoded(h));
}

/// An upstream request that failed leaves the jar as it was.
pub proof fn law_failure_keeps_cookies(pairs: Seq<Pair>, why: Seq<char>)
    ensures
        pairs_settled(pairs, UpstreamOutcomeView::Failure(why)) == pairs,
        settled(UpstreamOutcomeView::Failure(why)) == failure_response(why),
{
}

} // verus!
