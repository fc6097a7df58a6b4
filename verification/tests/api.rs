use slint_clash::api::{
    encode_path_segment, reload_outcome, ApiError, ApiRequest, ClashApi, Field, Method,
};

fn field(name: &str, value: &str) -> Field {
    Field { name: name.to_owned(), value: value.to_owned() }
}

#[test]
fn encodes_proxy_names_as_single_url_segments() {
    assert_eq!(encode_path_segment("香港/01"), "%E9%A6%99%E6%B8%AF%2F01");
    assert_eq!(encode_path_segment("Proxy-A_1"), "Proxy-A_1");
}

#[test]
fn rejects_an_unknown_mode_without_network_access() {
    let api = ClashApi::new("http://127.0.0.1:1".to_owned(), None);
    let outcome = api.set_mode("invalid");
    assert!(outcome.is_err());
    assert_eq!(outcome.unwrap_err().message(), "Unsupported Mihomo mode: invalid");
}

#[test]
fn version_uses_the_bearer_token_and_checks_the_http_contract() {
    let api = ClashApi::new("http://127.0.0.1:4711/".to_owned(), Some("test-secret".to_owned()));
    assert_eq!(
        api.version(),
        ApiRequest {
            method: Method::Get,
            url: "http://127.0.0.1:4711/version".to_owned(),
            bearer: Some("test-secret".to_owned()),
            timeout_ms: 5000,
            json: None,
            query: vec![],
        }
    );
}

#[test]
fn proxy_selection_encodes_the_group_and_sends_the_node_name() {
    let api = ClashApi::new("http://127.0.0.1:4711".to_owned(), None);
    let request = api.select_proxy("香港/自选", "Node A");
    assert_eq!(request.method, Method::Put);
    assert_eq!(
        request.url,
        "http://127.0.0.1:4711/proxies/%E9%A6%99%E6%B8%AF%2F%E8%87%AA%E9%80%89"
    );
    assert_eq!(request.json, Some(field("name", "Node A")));
    assert_eq!(request.bearer, None);
    assert_eq!(request.timeout_ms, 5000);
}

#[test]
fn slashes_at_the_end_and_empty_secrets_are_dropped() {
    let api = ClashApi::new("http://localhost//".to_owned(), Some(String::new()));
    let request = api.build_request(Method::Get, "/version", 1);
    assert_eq!(request.url, "http://localhost/version");
    assert_eq!(request.bearer, None);
    let bare = ClashApi::new("///".to_owned(), None).build_request(Method::Get, "/x", 1);
    assert_eq!(bare.url, "/x");
}

#[test]
fn requests_go_to_their_endpoints() {
    let api = ClashApi::new("http://h".to_owned(), Some("s".to_owned()));
    let reload = api.reload_config("/tmp/a.yaml");
    assert_eq!(reload.method, Method::Put);
    assert_eq!(reload.url, "http://h/configs");
    assert_eq!(reload.timeout_ms, 10_000);
    assert_eq!(reload.json, Some(field("path", "/tmp/a.yaml")));
    assert_eq!(reload.bearer, Some("s".to_owned()));

    let runtime = api.runtime_config();
    assert_eq!(runtime.method, Method::Get);
    assert_eq!(runtime.url, "http://h/configs");
    assert_eq!(runtime.timeout_ms, 5000);

    let mode = api.set_mode("direct").unwrap();
    assert_eq!(mode.method, Method::Patch);
    assert_eq!(mode.url, "http://h/configs");
    assert_eq!(mode.timeout_ms, 5000);
    assert_eq!(mode.json, Some(field("mode", "direct")));
    assert!(api.set_mode("rule").is_ok());
    assert!(api.set_mode("global").is_ok());
    assert!(api.set_mode("Rule").is_err());

    let proxies = api.proxies();
    assert_eq!(proxies.method, Method::Get);
    assert_eq!(proxies.url, "http://h/proxies");
    assert_eq!(proxies.timeout_ms, 10_000);

    let traffic = api.traffic_sample();
    assert_eq!(traffic.method, Method::Get);
    assert_eq!(traffic.url, "http://h/traffic");
    assert_eq!(traffic.timeout_ms, 5000);
}

#[test]
fn a_delay_test_waits_longer_than_it_asks_for() {
    let api = ClashApi::new("http://h".to_owned(), None);
    let request = api.proxy_delay("a b", "http://test/204?x=1", u32::MAX);
    assert_eq!(request.method, Method::Get);
    assert_eq!(request.url, "http://h/proxies/a%20b/delay");
    assert_eq!(request.timeout_ms, 4_294_969_295);
    assert_eq!(
        request.query,
        vec![field("url", "http://test/204?x=1"), field("timeout", "4294967295")]
    );
    assert_eq!(request.json, None);
}

#[test]
fn a_reload_is_rejected_with_the_trimmed_answer() {
    assert_eq!(reload_outcome(204, "204 No Content", "x"), Ok(()));
    assert_eq!(reload_outcome(200, "200 OK", ""), Ok(()));
    assert_eq!(reload_outcome(299, "299", ""), Ok(()));
    for status in [100_u16, 199, 300, 400, 500] {
        assert!(reload_outcome(status, "status", "").is_err());
    }
    let error = reload_outcome(400, "400 Bad Request", " \n bad yaml\t").unwrap_err();
    assert_eq!(
        error,
        ApiError::Rejected { status: "400 Bad Request".to_owned(), reason: "bad yaml".to_owned() }
    );
    assert_eq!(
        error.message(),
        "Mihomo rejected the configuration (400 Bad Request): bad yaml"
    );
}

#[test]
fn segments_can_be_read_back() {
    let text = "50% off/?#[] ~._-é";
    let segment = encode_path_segment(text);
    assert_eq!(segment, "50%25%20off%2F%3F%23%5B%5D%20~._-%C3%A9");
    let mut bytes: Vec<u8> = Vec::new();
    let raw = segment.as_bytes();
    let mut i: usize = 0;
    while i < raw.len() {
        if raw[i] == b'%' {
            bytes.push(u8::from_str_radix(&segment[i + 1..i + 3], 16).unwrap());
            i += 3;
        } else {
            bytes.push(raw[i]);
            i += 1;
        }
    }
    assert_eq!(String::from_utf8(bytes).unwrap(), text);
    assert_eq!(encode_path_segment(""), "");
    assert_ne!(encode_path_segment("a/b"), encode_path_segment("a%2Fb"));
}

#[test]
fn segments_hold_no_separators() {
    let all: String = (0..=0x2ff_u32).filter_map(char::from_u32).collect();
    for c in encode_path_segment(&all).chars() {
        assert!(c.is_ascii_alphanumeric() || matches!(c, '-' | '.' | '_' | '~' | '%'));
    }
}
