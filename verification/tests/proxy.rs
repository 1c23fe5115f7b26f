use portbridge::handler::{
    check_body_size, rewrite_response, Handler, HttpRequest, HttpVersion, ProxyError,
    MAX_BODY_BYTES,
};
use portbridge::headers::{
    find_header, find_upgrade_type, forward_headers, insert_forwarded_headers, insert_header,
    strip_connection_and_hop_headers, Header,
};
use portbridge::settings::{ServerMap, ServerSetting, Settings};
use portbridge::text::{has_token_ci_str, str_eq_ci};

fn h(name: &str, value: &str) -> Header {
    Header {
        name: name.to_string(),
        value: value.to_string(),
    }
}

fn get(headers: &Vec<Header>, name: &str) -> Option<String> {
    find_header(headers, name).map(|i| headers[i].value.clone())
}

fn simple_map() -> ServerMap {
    let mut map = ServerMap::new();
    map.insert("a.example".to_string(), "http://127.0.0.1:8000".to_string());
    map
}

#[test]
fn round_trip_rewrites_authority_and_keeps_path() {
    let handler = Handler::new(simple_map());
    let req = HttpRequest {
        method: "GET".to_string(),
        version: HttpVersion::Http11,
        path_and_query: "/".to_string(),
        headers: vec![h("host", "a.example")],
    };
    let out = handler.rewrite_request("10.0.0.1", &req).unwrap();
    assert_eq!(out.method, "GET");
    assert_eq!(out.version, HttpVersion::Http11);
    assert_eq!(out.scheme, "http");
    assert_eq!(out.authority, "127.0.0.1:8000");
    assert_eq!(out.path_and_query, "/");
    assert!(get(&out.headers, "connection").is_none());
    assert!(get(&out.headers, "upgrade").is_none());
    assert_eq!(get(&out.headers, "host"), Some("a.example".to_string()));
    assert_eq!(
        get(&out.headers, "x-forwarded-for"),
        Some("10.0.0.1".to_string())
    );
    assert_eq!(
        get(&out.headers, "x-forwarded-proto"),
        Some("https".to_string())
    );
}

#[test]
fn unmapped_host_goes_to_fallback() {
    let handler = Handler::new(simple_map());
    let req = HttpRequest {
        method: "GET".to_string(),
        version: HttpVersion::Http11,
        path_and_query: "/x?q=1".to_string(),
        headers: vec![h("host", "b.example")],
    };
    let out = handler.rewrite_request("10.0.0.1", &req).unwrap();
    assert_eq!(out.authority, "127.0.0.1:8000");
    assert_eq!(out.scheme, "http");
    assert_eq!(out.path_and_query, "/x?q=1");
}

#[test]
fn missing_host_goes_to_fallback() {
    let handler = Handler::new(simple_map());
    let req = HttpRequest {
        method: "POST".to_string(),
        version: HttpVersion::Http10,
        path_and_query: "/submit".to_string(),
        headers: vec![],
    };
    let out = handler.rewrite_request("10.0.0.1", &req).unwrap();
    assert_eq!(out.authority, "127.0.0.1:8000");
}

#[test]
fn unparsable_mapped_uri_goes_to_fallback() {
    let mut map = ServerMap::new();
    map.insert("bad.example".to_string(), "ht tp://not a uri".to_string());
    let handler = Handler::new(map);
    let req = HttpRequest {
        method: "GET".to_string(),
        version: HttpVersion::Http11,
        path_and_query: "/".to_string(),
        headers: vec![h("host", "bad.example")],
    };
    let out = handler.rewrite_request("10.0.0.1", &req).unwrap();
    assert_eq!(out.authority, "127.0.0.1:8000");
}

#[test]
fn mapped_uri_without_authority_is_refused() {
    let mut map = ServerMap::new();
    map.insert("odd.example".to_string(), "/upstream".to_string());
    let handler = Handler::new(map);
    let req = HttpRequest {
        method: "GET".to_string(),
        version: HttpVersion::Http11,
        path_and_query: "/".to_string(),
        headers: vec![h("host", "odd.example")],
    };
    let err = handler.rewrite_request("10.0.0.1", &req).unwrap_err();
    assert_eq!(err, ProxyError::UpstreamUriMissingAuthority);
}

#[test]
fn https_scheme_is_kept_from_upstream() {
    let mut map = ServerMap::new();
    map.insert("s.example".to_string(), "https://10.1.1.1:8443/".to_string());
    let handler = Handler::new(map);
    let req = HttpRequest {
        method: "GET".to_string(),
        version: HttpVersion::Http11,
        path_and_query: "/".to_string(),
        headers: vec![h("host", "s.example")],
    };
    let out = handler.rewrite_request("10.0.0.1", &req).unwrap();
    assert_eq!(out.scheme, "https");
    assert_eq!(out.authority, "10.1.1.1:8443");
}

#[test]
fn connection_named_and_hop_headers_are_stripped() {
    let handler = Handler::new(simple_map());
    let req = HttpRequest {
        method: "GET".to_string(),
        version: HttpVersion::Http11,
        path_and_query: "/".to_string(),
        headers: vec![
            h("host", "a.example"),
            h("connection", "Foo, bar"),
            h("Foo", "1"),
            h("BAR", "2"),
            h("keep-alive", "300"),
            h("Transfer-Encoding", "chunked"),
            h("te", "trailers"),
            h("trailer", "Expires"),
            h("proxy-authenticate", "Basic"),
            h("proxy-authorization", "secret"),
            h("accept", "text/html"),
        ],
    };
    let out = handler.rewrite_request("10.0.0.1", &req).unwrap();
    for name in [
        "connection",
        "foo",
        "bar",
        "keep-alive",
        "transfer-encoding",
        "te",
        "trailer",
        "proxy-authenticate",
        "proxy-authorization",
        "upgrade",
    ] {
        assert!(get(&out.headers, name).is_none(), "{} survived", name);
    }
    assert_eq!(get(&out.headers, "accept"), Some("text/html".to_string()));
    assert_eq!(get(&out.headers, "host"), Some("a.example".to_string()));
}

#[test]
fn upgrade_pair_is_reinstated_on_upgrade_requests() {
    let handler = Handler::new(simple_map());
    let req = HttpRequest {
        method: "GET".to_string(),
        version: HttpVersion::Http11,
        path_and_query: "/chat".to_string(),
        headers: vec![
            h("host", "a.example"),
            h("Connection", "Upgrade"),
            h("Upgrade", "websocket"),
        ],
    };
    let out = handler.rewrite_request("10.0.0.1", &req).unwrap();
    assert_eq!(get(&out.headers, "connection"), Some("upgrade".to_string()));
    assert_eq!(get(&out.headers, "upgrade"), Some("websocket".to_string()));
}

#[test]
fn upgrade_header_without_connection_marker_is_stripped() {
    let headers = vec![h("Upgrade", "websocket"), h("accept", "*/*")];
    let out = forward_headers(&headers, "10.0.0.1");
    assert!(get(&out, "upgrade").is_none());
    assert_eq!(get(&out, "accept"), Some("*/*".to_string()));
}

#[test]
fn forwarded_for_accumulates_across_chained_proxies() {
    let handler = Handler::new(simple_map());
    let req = HttpRequest {
        method: "GET".to_string(),
        version: HttpVersion::Http11,
        path_and_query: "/".to_string(),
        headers: vec![h("host", "a.example")],
    };
    let hop1 = handler.rewrite_request("10.0.0.1", &req).unwrap();
    let req2 = HttpRequest {
        method: hop1.method,
        version: hop1.version,
        path_and_query: hop1.path_and_query,
        headers: hop1.headers,
    };
    let hop2 = handler.rewrite_request("10.0.0.2", &req2).unwrap();
    assert_eq!(
        get(&hop2.headers, "x-forwarded-for"),
        Some("10.0.0.1, 10.0.0.2".to_string())
    );
}

#[test]
fn forwarded_for_appends_to_prior_value() {
    let mut headers = vec![h("X-Forwarded-For", "1.2.3.4")];
    insert_forwarded_headers(&mut headers, "5.6.7.8");
    assert_eq!(
        get(&headers, "x-forwarded-for"),
        Some("1.2.3.4, 5.6.7.8".to_string())
    );
}

#[test]
fn forwarded_proto_is_not_overwritten() {
    let mut headers = vec![h("x-forwarded-proto", "http")];
    insert_forwarded_headers(&mut headers, "5.6.7.8");
    assert_eq!(get(&headers, "x-forwarded-proto"), Some("http".to_string()));
}

#[test]
fn strip_on_empty_headers_is_empty() {
    let mut headers: Vec<Header> = vec![];
    strip_connection_and_hop_headers(&mut headers);
    assert!(headers.is_empty());
}

#[test]
fn insert_header_replaces_all_values() {
    let mut headers = vec![h("set-cookie", "a=1"), h("Set-Cookie", "b=2")];
    insert_header(&mut headers, "set-cookie", "c=3".to_string());
    assert_eq!(headers.len(), 1);
    assert_eq!(get(&headers, "set-cookie"), Some("c=3".to_string()));
}

#[test]
fn find_upgrade_type_needs_both_headers() {
    assert_eq!(
        find_upgrade_type(&vec![
            h("connection", "keep-alive, Upgrade"),
            h("upgrade", "websocket"),
        ]),
        Some("websocket".to_string())
    );
    assert_eq!(
        find_upgrade_type(&vec![h("connection", "keep-alive")]),
        None
    );
    assert_eq!(find_upgrade_type(&vec![h("upgrade", "websocket")]), None);
    assert_eq!(
        find_upgrade_type(&vec![h("connection", "upgraded"), h("upgrade", "websocket")]),
        None
    );
}

#[test]
fn switching_protocols_response_keeps_upgrade_and_splices() {
    let headers = vec![
        h("Connection", "Upgrade"),
        h("Upgrade", "websocket"),
        h("sec-websocket-accept", "abc"),
    ];
    let (out, splice) = rewrite_response(101, &headers);
    assert!(splice);
    assert_eq!(get(&out, "connection"), Some("upgrade".to_string()));
    assert_eq!(get(&out, "upgrade"), Some("websocket".to_string()));
    assert_eq!(get(&out, "sec-websocket-accept"), Some("abc".to_string()));
}

#[test]
fn plain_response_is_stripped_and_not_spliced() {
    let headers = vec![
        h("connection", "close"),
        h("keep-alive", "300"),
        h("content-type", "text/plain"),
    ];
    let (out, splice) = rewrite_response(200, &headers);
    assert!(!splice);
    assert!(get(&out, "connection").is_none());
    assert!(get(&out, "keep-alive").is_none());
    assert_eq!(get(&out, "content-type"), Some("text/plain".to_string()));
}

#[test]
fn body_size_bound_is_enforced() {
    assert!(check_body_size(0).is_ok());
    assert!(check_body_size(MAX_BODY_BYTES).is_ok());
    assert_eq!(
        check_body_size(MAX_BODY_BYTES + 1),
        Err(ProxyError::PayloadTooLarge)
    );
}

#[test]
fn settings_build_map_and_later_entry_wins() {
    let settings = Settings::new(vec![
        ServerSetting {
            host: "a.example".to_string(),
            proxy_pass: "http://10.0.0.1:1".to_string(),
        },
        ServerSetting {
            host: "b.example".to_string(),
            proxy_pass: "http://10.0.0.2:2".to_string(),
        },
        ServerSetting {
            host: "a.example".to_string(),
            proxy_pass: "http://10.0.0.3:3".to_string(),
        },
    ]);
    let map = settings.servers();
    assert_eq!(
        map.lookup(&"a.example".to_string()),
        Some("http://10.0.0.3:3".to_string())
    );
    assert_eq!(
        map.lookup(&"b.example".to_string()),
        Some("http://10.0.0.2:2".to_string())
    );
    assert_eq!(map.lookup(&"c.example".to_string()), None);
}

#[test]
fn map_lookup_is_case_sensitive_on_hosts() {
    let map = simple_map();
    assert!(map.lookup(&"A.EXAMPLE".to_string()).is_none());
    assert!(map.lookup(&"a.example".to_string()).is_some());
}

#[test]
fn token_list_matching_trims_and_ignores_case() {
    assert!(has_token_ci_str("keep-alive,  Upgrade ", "upgrade"));
    assert!(has_token_ci_str("Upgrade", "upgrade"));
    assert!(has_token_ci_str("\tUPGRADE\t", "upgrade"));
    assert!(!has_token_ci_str("upgraded", "upgrade"));
    assert!(!has_token_ci_str("up grade", "upgrade"));
    assert!(!has_token_ci_str("", "upgrade"));
    assert!(has_token_ci_str("a,,b", ""));
    assert!(!has_token_ci_str("keep-alive", "upgrade"));
}

#[test]
fn name_comparison_ignores_ascii_case_only() {
    assert!(str_eq_ci("Connection", "connection"));
    assert!(str_eq_ci("TE", "te"));
    assert!(!str_eq_ci("te", "t"));
    assert!(!str_eq_ci("a", "b"));
    assert!(str_eq_ci("", ""));
}
