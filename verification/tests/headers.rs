use api_proxy::config::ProxyConfig;
use api_proxy::header::{
    deliver_headers, forward_headers, is_scrubbed_name, is_set_cookie, is_withheld_name,
    push_cors_headers, push_preflight_headers, Header, RawHeader,
};
use api_proxy::text::{char_is_whitespace, names_match, texts_equal};

fn header(name: &str, value: &str) -> Header {
    Header { name: name.to_string(), value: value.to_string() }
}

#[test]
fn scrubbed_names_are_the_ten() {
    for name in [
        "host",
        "connection",
        "keep-alive",
        "transfer-encoding",
        "te",
        "trailer",
        "upgrade",
        "origin",
        "referer",
        "cookie",
    ] {
        assert!(is_scrubbed_name(name), "{}", name);
        assert!(is_scrubbed_name(&name.to_uppercase()), "{}", name);
    }
}

#[test]
fn other_names_are_not_scrubbed() {
    for name in ["x-custom", "accept", "content-type", "set-cookie", "hosts", "t", "", "cookies"] {
        assert!(!is_scrubbed_name(name), "{}", name);
    }
}

#[test]
fn withheld_names_are_the_three() {
    for name in ["transfer-encoding", "Content-Encoding", "SET-COOKIE"] {
        assert!(is_withheld_name(name), "{}", name);
    }
    for name in ["location", "content-length", "cookie", "set-cookie ", "content-type"] {
        assert!(!is_withheld_name(name), "{}", name);
    }
}

#[test]
fn set_cookie_name_in_any_case() {
    assert!(is_set_cookie("set-cookie"));
    assert!(is_set_cookie("Set-Cookie"));
    assert!(!is_set_cookie("cookie"));
    assert!(!is_set_cookie("set_cookie"));
}

#[test]
fn names_match_ignores_ascii_case_only() {
    assert!(names_match("Keep-Alive", "keep-alive"));
    assert!(names_match("", ""));
    assert!(!names_match("keep-alive", "keep_alive"));
    assert!(!names_match("keep-alive", "keep-aliv"));
    assert!(!names_match("é", "É"));
    assert!(!names_match("coo\u{212a}ie", "cookie"));
    assert!(!names_match("@", "`"));
    assert!(!names_match("[", "{"));
}

#[test]
fn texts_equal_is_exact() {
    assert!(texts_equal("GET", "GET"));
    assert!(!texts_equal("GET", "get"));
    assert!(!texts_equal("GET", "GETS"));
    assert!(texts_equal("", ""));
}

#[test]
fn whitespace_is_what_trimming_removes() {
    for c in [' ', '\t', '\n', '\u{b}', '\u{c}', '\r', '\u{85}', '\u{a0}', '\u{1680}', '\u{2000}',
        '\u{200a}', '\u{2028}', '\u{2029}', '\u{202f}', '\u{205f}', '\u{3000}']
    {
        assert!(char_is_whitespace(c), "{:?}", c);
    }
    for c in ['a', '0', '=', ';', '\u{8}', '\u{e}', '\u{1f}', '\u{200b}', '\u{180e}', '\u{feff}'] {
        assert!(!char_is_whitespace(c), "{:?}", c);
    }
}

#[test]
fn whitespace_agrees_with_the_standard_library() {
    let mut code: u32 = 0;
    while code < 0x11_0000 {
        if let Some(c) = char::from_u32(code) {
            assert_eq!(char_is_whitespace(c), c.is_whitespace(), "{:x}", code);
        }
        code += 1;
    }
}

#[test]
fn forward_headers_scrubs_and_keeps_order() {
    let raw = vec![
        RawHeader::new("host", b"localhost:9543"),
        RawHeader::new("accept", b"*/*"),
        RawHeader::new("origin", b"http://localhost"),
        RawHeader::new("cookie", b"fake=1"),
        RawHeader::new("x-custom", b"ok"),
        RawHeader::new("Connection", b"keep-alive"),
        RawHeader::new("accept", b"text/html"),
    ];
    assert_eq!(
        forward_headers(&raw),
        vec![header("accept", "*/*"), header("x-custom", "ok"), header("accept", "text/html")]
    );
}

#[test]
fn forward_headers_skips_values_that_are_not_text() {
    let raw = vec![
        RawHeader::new("x-bin", &[0xff, 0xfe]),
        RawHeader::new("x-cut", &[0xe2, 0x82]),
        RawHeader::new("x-text", "grüße".as_bytes()),
        RawHeader::new("x-empty", b""),
    ];
    assert_eq!(forward_headers(&raw), vec![header("x-text", "grüße"), header("x-empty", "")]);
}

#[test]
fn deliver_headers_withholds_the_three() {
    let raw = vec![
        RawHeader::new("content-type", b"application/json"),
        RawHeader::new("set-cookie", b"a=1"),
        RawHeader::new("Transfer-Encoding", b"chunked"),
        RawHeader::new("content-encoding", b"gzip"),
        RawHeader::new("location", b"/login"),
        RawHeader::new("x-bin", &[0x80]),
        RawHeader::new("host", b"upstream"),
    ];
    assert_eq!(
        deliver_headers(&raw),
        vec![
            header("content-type", "application/json"),
            header("location", "/login"),
            header("host", "upstream"),
        ]
    );
}

#[test]
fn cors_headers_are_the_five() {
    let mut headers = vec![header("x", "y")];
    push_cors_headers(&mut headers);
    assert_eq!(
        headers,
        vec![
            header("x", "y"),
            header("Access-Control-Allow-Origin", "*"),
            header("Access-Control-Allow-Methods", "GET, POST, PUT, DELETE, OPTIONS, PATCH"),
            header("Access-Control-Allow-Headers", "*"),
            header("Access-Control-Allow-Credentials", "true"),
            header("Access-Control-Expose-Headers", "*"),
        ]
    );
}

#[test]
fn preflight_headers_are_the_five() {
    let mut headers = Vec::new();
    push_preflight_headers(&mut headers);
    assert_eq!(
        headers,
        vec![
            header("Access-Control-Allow-Origin", "*"),
            header("Access-Control-Allow-Methods", "GET, POST, PUT, DELETE, OPTIONS, PATCH"),
            header("Access-Control-Allow-Headers", "*"),
            header("Access-Control-Allow-Credentials", "true"),
            header("Access-Control-Max-Age", "86400"),
        ]
    );
}

#[test]
fn raw_header_decodes_text_only() {
    assert_eq!(RawHeader::new("a", b"b").decode(), Some(header("a", "b")));
    assert_eq!(RawHeader::new("a", &[0xc0, 0x80]).decode(), None);
    assert_eq!(RawHeader::new("a", &[0xed, 0xa0, 0x80]).decode(), None);
    assert_eq!(RawHeader::new("a", &[0xf0, 0x9f, 0x8d, 0xaa]).decode(), Some(header("a", "🍪")));
}

#[test]
fn header_copy_holds_the_same() {
    let h = Header::new("Name", "value");
    assert_eq!(h.copy(), header("Name", "value"));
}

#[test]
fn standard_settings() {
    let config = ProxyConfig::standard();
    assert_eq!(config.listen_port, 9543);
    assert_eq!(config.upstream_origin, "https://mail.proton.me");
    assert_eq!(
        config.injected_headers,
        vec![
            header("x-pm-appversion", "web-drive@5.0.0"),
            header("x-pm-apiversion", "3"),
            header("Origin", "https://drive.proton.me"),
            header("Referer", "https://drive.proton.me/"),
        ]
    );
}
