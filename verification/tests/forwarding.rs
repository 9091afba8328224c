use api_proxy::config::ProxyConfig;
use api_proxy::cookie::{Cookie, CookieJar};
use api_proxy::header::{Header, RawHeader};
use api_proxy::method::{choose_upstream_method, is_preflight_method, method_carries_body};
use api_proxy::proxy::{
    answer_failure, answer_preflight, build_upstream_url, pass_on, prepare_upstream_request, route,
    settle, ProxyRequest, ProxyResponse, Routed, UpstreamOutcome, UpstreamRequest,
    UpstreamResponse,
};

fn header(name: &str, value: &str) -> Header {
    Header { name: name.to_string(), value: value.to_string() }
}

fn request(method: &str, path: &str, query: &str, headers: Vec<RawHeader>, body: &[u8]) -> ProxyRequest {
    ProxyRequest {
        method: method.to_string(),
        path: path.to_string(),
        query: query.to_string(),
        headers,
        body: body.to_vec(),
    }
}

fn forwarded(routed: Routed) -> UpstreamRequest {
    match routed {
        Routed::Forward(up) => up,
        Routed::Answer(_) => panic!("the request was answered without the upstream"),
    }
}

fn names_of(headers: &[Header]) -> Vec<String> {
    headers.iter().map(|h| h.name.to_lowercase()).collect()
}

fn injected() -> Vec<Header> {
    vec![
        header("x-pm-appversion", "web-drive@5.0.0"),
        header("x-pm-apiversion", "3"),
        header("Origin", "https://drive.proton.me"),
        header("Referer", "https://drive.proton.me/"),
    ]
}

fn cors() -> Vec<Header> {
    vec![
        header("Access-Control-Allow-Origin", "*"),
        header("Access-Control-Allow-Methods", "GET, POST, PUT, DELETE, OPTIONS, PATCH"),
        header("Access-Control-Allow-Headers", "*"),
        header("Access-Control-Allow-Credentials", "true"),
        header("Access-Control-Expose-Headers", "*"),
    ]
}

#[test]
fn url_without_query() {
    assert_eq!(
        build_upstream_url("https://mail.proton.me", "/api/v4/me", ""),
        "https://mail.proton.me/api/v4/me"
    );
}

#[test]
fn url_with_query() {
    assert_eq!(
        build_upstream_url("https://mail.proton.me", "/api/v4/files", "page=2&q=a%20b"),
        "https://mail.proton.me/api/v4/files?page=2&q=a%20b"
    );
}

#[test]
fn url_keeps_path_as_received() {
    assert_eq!(
        build_upstream_url("https://host/api", "/api//x/../y%2F", "?"),
        "https://host/api/api//x/../y%2F??"
    );
    assert_eq!(build_upstream_url("", "", ""), "");
}

#[test]
fn preflight_is_answered_here() {
    let config = ProxyConfig::standard();
    let jar = CookieJar::new();
    let probe = request(
        "OPTIONS",
        "/api/v4/auth",
        "",
        vec![RawHeader::new("origin", b"http://localhost")],
        b"",
    );
    match route(&config, &jar, probe) {
        Routed::Answer(response) => {
            assert_eq!(response.status, 204);
            assert!(response.body.is_empty());
            assert!(response.headers.contains(&header("Access-Control-Allow-Origin", "*")));
            assert!(response.headers.contains(&header("Access-Control-Max-Age", "86400")));
            assert_eq!(response, answer_preflight());
        }
        Routed::Forward(_) => panic!("a preflight request reached the upstream"),
    }
}

#[test]
fn preflight_answer_is_constant() {
    let config = ProxyConfig::standard();
    let mut jar = CookieJar::new();
    jar.insert("a".to_string(), "1".to_string());
    let probe = request("OPTIONS", "/other", "x=1", vec![RawHeader::new("cookie", b"c=d")], b"body");
    assert_eq!(route(&config, &jar, probe), Routed::Answer(answer_preflight()));
    assert_eq!(
        answer_preflight(),
        ProxyResponse {
            status: 204,
            headers: vec![
                header("Access-Control-Allow-Origin", "*"),
                header("Access-Control-Allow-Methods", "GET, POST, PUT, DELETE, OPTIONS, PATCH"),
                header("Access-Control-Allow-Headers", "*"),
                header("Access-Control-Allow-Credentials", "true"),
                header("Access-Control-Max-Age", "86400"),
            ],
            body: vec![],
        }
    );
}

#[test]
fn only_upper_case_options_is_preflight() {
    assert!(is_preflight_method("OPTIONS"));
    assert!(!is_preflight_method("options"));
    assert!(!is_preflight_method("GET"));
    assert!(!is_preflight_method(""));
    let config = ProxyConfig::standard();
    let jar = CookieJar::new();
    let up = forwarded(route(&config, &jar, request("options", "/x", "", vec![], b"")));
    assert_eq!(up.method, "options");
}

#[test]
fn cookie_learn() {
    let mut jar = CookieJar::new();
    let reply = UpstreamResponse {
        status: 200,
        headers: vec![
            RawHeader::new("content-type", b"application/json"),
            RawHeader::new("set-cookie", b"AUTH-abc=xyz; Path=/; Secure; HttpOnly"),
        ],
        body: b"{}".to_vec(),
    };
    let response = settle(&mut jar, UpstreamOutcome::Reply(reply));
    assert_eq!(
        jar.cookies(),
        vec![Cookie { name: "AUTH-abc".to_string(), value: "xyz".to_string() }]
    );
    assert_eq!(jar.len(), 1);
    assert_eq!(jar.get("AUTH-abc"), Some("xyz".to_string()));
    assert!(!names_of(&response.headers).contains(&"set-cookie".to_string()));
    assert_eq!(response.status, 200);
    assert_eq!(response.body, b"{}".to_vec());
    let mut expected = vec![header("content-type", "application/json")];
    expected.extend(cors());
    assert_eq!(response.headers, expected);
}

#[test]
fn cookie_replay() {
    let config = ProxyConfig::standard();
    let mut jar = CookieJar::new();
    jar.insert("AUTH-abc".to_string(), "xyz".to_string());
    jar.insert("SID".to_string(), "123".to_string());
    let up = forwarded(route(&config, &jar, request("GET", "/api/v4/me", "", vec![], b"")));
    let cookies: Vec<&Header> = up.headers.iter().filter(|h| h.name.to_lowercase() == "cookie").collect();
    assert_eq!(cookies.len(), 1);
    assert_eq!(cookies[0].name, "Cookie");
    let mut parts: Vec<&str> = cookies[0].value.split("; ").collect();
    parts.sort();
    assert_eq!(parts, vec!["AUTH-abc=xyz", "SID=123"]);
    assert_eq!(cookies[0].value, "AUTH-abc=xyz; SID=123");
    assert_eq!(up.url, "https://mail.proton.me/api/v4/me");
}

#[test]
fn header_scrubbing() {
    let config = ProxyConfig::standard();
    let jar = CookieJar::new();
    let incoming = request(
        "GET",
        "/x",
        "",
        vec![
            RawHeader::new("host", b"localhost:9543"),
            RawHeader::new("origin", b"http://localhost"),
            RawHeader::new("cookie", b"fake=1"),
            RawHeader::new("x-custom", b"ok"),
        ],
        b"",
    );
    let up = forwarded(route(&config, &jar, incoming));
    let mut expected = vec![header("x-custom", "ok")];
    expected.extend(injected());
    assert_eq!(up.headers, expected);
    assert!(!up.headers.contains(&header("origin", "http://localhost")));
    assert!(!up.headers.contains(&header("cookie", "fake=1")));
    assert_eq!(up.method, "GET");
    assert_eq!(up.url, "https://mail.proton.me/x");
    assert_eq!(up.body, None);
}

#[test]
fn header_scrubbing_with_cookies_in_the_jar() {
    let config = ProxyConfig::standard();
    let mut jar = CookieJar::new();
    jar.insert("SID".to_string(), "123".to_string());
    let incoming = request(
        "GET",
        "/x",
        "",
        vec![
            RawHeader::new("Host", b"localhost:9543"),
            RawHeader::new("Cookie", b"fake=1"),
            RawHeader::new("X-Custom", b"ok"),
            RawHeader::new("TE", b"trailers"),
        ],
        b"",
    );
    let up = forwarded(route(&config, &jar, incoming));
    let mut expected = vec![header("X-Custom", "ok"), header("Cookie", "SID=123")];
    expected.extend(injected());
    assert_eq!(up.headers, expected);
}

#[test]
fn injected_headers_are_appended_beside_client_headers() {
    let config = ProxyConfig {
        listen_port: 1,
        upstream_origin: "http://up".to_string(),
        injected_headers: vec![header("x-app", "1"), header("X-App", "2")],
    };
    let jar = CookieJar::new();
    let incoming = request("GET", "/", "", vec![RawHeader::new("x-app", b"client")], b"");
    let up = prepare_upstream_request(&config, &jar, incoming);
    assert_eq!(
        up.headers,
        vec![header("x-app", "client"), header("x-app", "1"), header("X-App", "2")]
    );
    assert_eq!(up.url, "http://up/");
}

#[test]
fn body_is_left_out_for_get_and_head() {
    let config = ProxyConfig::standard();
    let jar = CookieJar::new();
    for method in ["GET", "HEAD"] {
        let up = forwarded(route(&config, &jar, request(method, "/x", "", vec![], b"data")));
        assert_eq!(up.body, None);
        assert!(!method_carries_body(method));
    }
}

#[test]
fn body_is_sent_unchanged_for_other_methods() {
    let config = ProxyConfig::standard();
    let jar = CookieJar::new();
    for method in ["POST", "PUT", "DELETE", "PATCH", "get", "Head", "CUSTOM"] {
        let body = [0u8, 255, 10, 13, 0];
        let up = forwarded(route(&config, &jar, request(method, "/x", "a=b", vec![], &body)));
        assert_eq!(up.body, Some(body.to_vec()));
        assert_eq!(up.method, method);
        assert_eq!(up.url, "https://mail.proton.me/x?a=b");
        assert!(method_carries_body(method));
    }
    let up = forwarded(route(&config, &jar, request("POST", "/x", "", vec![], b"")));
    assert_eq!(up.body, Some(vec![]));
}

#[test]
fn method_that_cannot_be_sent_becomes_get() {
    assert_eq!(choose_upstream_method("PATCH"), "PATCH");
    assert_eq!(choose_upstream_method("M-SEARCH"), "M-SEARCH");
    assert_eq!(choose_upstream_method("a!#$%&'*+-.^_`|~9Z"), "a!#$%&'*+-.^_`|~9Z");
    assert_eq!(choose_upstream_method("averyveryverylongmethodname"), "averyveryverylongmethodname");
    assert_eq!(choose_upstream_method(""), "GET");
    assert_eq!(choose_upstream_method("BAD METHOD"), "GET");
    assert_eq!(choose_upstream_method("PO/ST"), "GET");
    assert_eq!(choose_upstream_method("GÉT"), "GET");
    assert_eq!(choose_upstream_method("a(b)"), "GET");
    assert_eq!(choose_upstream_method("a\"b"), "GET");
    assert_eq!(choose_upstream_method("a,b"), "GET");
    assert_eq!(choose_upstream_method("a:b"), "GET");
    assert_eq!(choose_upstream_method("a@b"), "GET");
    assert_eq!(choose_upstream_method("a[b]"), "GET");
    assert_eq!(choose_upstream_method("a{b}"), "GET");
    assert_eq!(choose_upstream_method("a\u{7f}"), "GET");
}

#[test]
fn method_table_agrees_with_the_client_library() {
    let mut code: u32 = 0;
    while code < 0x300 {
        if let Some(c) = char::from_u32(code) {
            let method = format!("X{}", c);
            let taken = reqwest::Method::from_bytes(method.as_bytes()).is_ok();
            assert_eq!(choose_upstream_method(&method) == method, taken, "{:x}", code);
        }
        code += 1;
    }
}

#[test]
fn request_with_unsendable_method_keeps_its_body() {
    let config = ProxyConfig::standard();
    let jar = CookieJar::new();
    let up = forwarded(route(&config, &jar, request("BAD METHOD", "/x", "", vec![], b"data")));
    assert_eq!(up.method, "GET");
    assert_eq!(up.body, Some(b"data".to_vec()));
}

#[test]
fn upstream_failure() {
    let mut jar = CookieJar::new();
    jar.insert("a".to_string(), "1".to_string());
    let response = settle(
        &mut jar,
        UpstreamOutcome::Failure("error sending request: dns error".to_string()),
    );
    assert_eq!(response.status, 502);
    assert_eq!(response.headers, vec![header("Access-Control-Allow-Origin", "*")]);
    assert!(response.body.starts_with(b"Proxy error:"));
    assert_eq!(response.body, b"Proxy error: error sending request: dns error".to_vec());
    assert_eq!(jar.cookies(), vec![Cookie { name: "a".to_string(), value: "1".to_string() }]);
}

#[test]
fn failure_body_is_utf8_of_the_reason() {
    assert_eq!(answer_failure("").body, b"Proxy error: ".to_vec());
    assert_eq!(answer_failure("délai").body, "Proxy error: délai".as_bytes().to_vec());
}

#[test]
fn redirect_passthrough() {
    let mut jar = CookieJar::new();
    let reply = UpstreamResponse {
        status: 302,
        headers: vec![
            RawHeader::new("location", b"/login"),
            RawHeader::new("set-cookie", b"Session=abc; Path=/"),
        ],
        body: vec![],
    };
    let response = settle(&mut jar, UpstreamOutcome::Reply(reply));
    assert_eq!(response.status, 302);
    assert!(response.headers.contains(&header("location", "/login")));
    assert_eq!(response.headers[0], header("location", "/login"));
    assert_eq!(jar.get("Session"), Some("abc".to_string()));
}

#[test]
fn every_status_is_passed_on() {
    for status in [100u16, 200, 204, 301, 302, 307, 404, 500, 502, 599, 999] {
        let reply = UpstreamResponse { status, headers: vec![], body: b"x".to_vec() };
        let response = pass_on(reply);
        assert_eq!(response.status, status);
        assert_eq!(response.body, b"x".to_vec());
        assert_eq!(response.headers, cors());
    }
}

#[test]
fn passed_on_response_never_holds_withheld_headers() {
    let reply = UpstreamResponse {
        status: 200,
        headers: vec![
            RawHeader::new("Set-Cookie", b"a=1"),
            RawHeader::new("SET-COOKIE", b"b=2"),
            RawHeader::new("transfer-encoding", b"chunked"),
            RawHeader::new("Content-Encoding", b"br"),
            RawHeader::new("etag", b"\"1\""),
        ],
        body: vec![],
    };
    let response = pass_on(reply);
    let names = names_of(&response.headers);
    for name in ["set-cookie", "transfer-encoding", "content-encoding"] {
        assert!(!names.contains(&name.to_string()));
    }
    let mut expected = vec![header("etag", "\"1\"")];
    expected.extend(cors());
    assert_eq!(response.headers, expected);
}

#[test]
fn cookies_of_one_response_are_seen_by_the_next_request() {
    let config = ProxyConfig::standard();
    let mut jar = CookieJar::new();
    let login = forwarded(route(&config, &jar, request("POST", "/auth", "", vec![], b"{}")));
    assert!(!names_of(&login.headers).contains(&"cookie".to_string()));
    let reply = UpstreamResponse {
        status: 200,
        headers: vec![
            RawHeader::new("set-cookie", b"AUTH=1; Path=/"),
            RawHeader::new("set-cookie", b"REFRESH=2; Path=/"),
            RawHeader::new("set-cookie", b"AUTH=3; Path=/"),
        ],
        body: vec![],
    };
    settle(&mut jar, UpstreamOutcome::Reply(reply));
    let next = forwarded(route(&config, &jar, request("GET", "/me", "", vec![], b"")));
    assert!(next.headers.contains(&header("Cookie", "AUTH=3; REFRESH=2")));
}
