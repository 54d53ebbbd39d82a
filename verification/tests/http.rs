use crowdsec_envoy_bouncer::filter_config::FilterConfig;
use crowdsec_envoy_bouncer::http::{
    block_banned, blocked_by_waf, describe_request, extract_request_info, BodyStep,
    CrowdsecFilterHttp, HeadersStep, LocalResponse, RequestHeaders, WafCall, WafResponse,
    WafVerdict,
};
use crowdsec_envoy_bouncer::ip_storage::IpStorage;
use crowdsec_envoy_bouncer::net::parse_ip_with_cidr;

fn waf_config() -> FilterConfig {
    let mut config = FilterConfig::default();
    config.waf_enabled = true;
    config.waf_url = "http://crowdsec:7422/waf".to_string();
    config.waf_api_key = "key".to_string();
    config
}

fn context(config: FilterConfig) -> CrowdsecFilterHttp {
    CrowdsecFilterHttp::new(config, "v1")
}

fn bans(text: &str) -> IpStorage {
    let mut bans = IpStorage::new();
    bans.insert_direct(parse_ip_with_cidr(text).unwrap());
    bans
}

fn source() -> Option<Vec<u8>> {
    Some(b"1.2.3.4:5555".to_vec())
}

fn pair(name: &str, value: &str) -> (String, String) {
    (name.to_string(), value.to_string())
}

fn request() -> RequestHeaders {
    RequestHeaders {
        path: Some("/login?x=1".to_string()),
        authority: None,
        host: Some("example.org".to_string()),
        method: Some("post".to_string()),
        user_agent: None,
        all: vec![
            pair(":path", "/login?x=1"),
            pair("host", "example.org"),
            pair("X-Crowdsec-Appsec-Ip", "9.9.9.9"),
            pair("accept", "*/*"),
        ],
    }
}

fn respond(step: HeadersStep) -> LocalResponse {
    match step {
        HeadersStep::Respond(response) => response,
        other => panic!("{:?}", other),
    }
}

fn headers_call(step: HeadersStep) -> (WafCall, Option<LocalResponse>) {
    match step {
        HeadersStep::CallWaf(call, otherwise) => (call, otherwise),
        other => panic!("{:?}", other),
    }
}

fn body_call(step: BodyStep) -> (WafCall, Option<LocalResponse>) {
    match step {
        BodyStep::CallWaf(call, otherwise) => (call, otherwise),
        other => panic!("{:?}", other),
    }
}

/// A request of a banned client that the WAF is to see first.
fn forwarded(waf_url: &str, end_of_stream: bool) -> (CrowdsecFilterHttp, HeadersStep) {
    let mut config = waf_config();
    config.waf_forward_on_decision = true;
    config.waf_url = waf_url.to_string();
    config.response_code = 429;
    let mut http = context(config);
    let step = http.on_http_request_headers(&bans("1.2.3.4"), source(), &request(), end_of_stream);
    (http, step)
}

#[test]
fn test_waf_url_parsing() {
    // Test basic URL parsing
    let result = CrowdsecFilterHttp::parse_waf_url_static("http://crowdsec_waf/waf").unwrap();
    assert_eq!(result.0, "crowdsec_waf"); // cluster
    assert_eq!(result.1, "/waf"); // path
    assert_eq!(result.2, "crowdsec_waf"); // authority

    // Test URL with port
    let result = CrowdsecFilterHttp::parse_waf_url_static("http://crowdsec:7422/waf").unwrap();
    assert_eq!(result.0, "crowdsec"); // cluster (host part only)
    assert_eq!(result.1, "/waf"); // path
    assert_eq!(result.2, "crowdsec:7422"); // authority (host:port)

    // Test URL without path
    let result = CrowdsecFilterHttp::parse_waf_url_static("http://waf_service").unwrap();
    assert_eq!(result.0, "waf_service"); // cluster
    assert_eq!(result.1, "/"); // default path
    assert_eq!(result.2, "waf_service"); // authority

    // Test URL caching in constructor
    let mut config = FilterConfig::default();
    config.waf_enabled = true;
    config.waf_url = "http://crowdsec_waf/waf".to_string();

    let http_context = CrowdsecFilterHttp::new(config, "v1");

    // Verify URL parts were cached
    assert!(http_context.waf_url_parts.is_some());
    let cached_parts = http_context.waf_url_parts.as_ref().unwrap();
    assert_eq!(cached_parts.0, "crowdsec_waf");
    assert_eq!(cached_parts.1, "/waf");
    assert_eq!(cached_parts.2, "crowdsec_waf");
}

#[test]
fn bad_waf_urls_are_refused() {
    assert_eq!(
        CrowdsecFilterHttp::parse_waf_url_static("ftp://host/x").unwrap_err(),
        "WAF URL must start with http:// or https://"
    );
    assert_eq!(
        CrowdsecFilterHttp::parse_waf_url_static("http://").unwrap_err(),
        "WAF URL missing host"
    );
    assert_eq!(
        CrowdsecFilterHttp::parse_waf_url_static("https:///path").unwrap_err(),
        "WAF URL missing host"
    );
}

#[test]
fn waf_urls_with_https_and_odd_parts() {
    let parts = CrowdsecFilterHttp::parse_waf_url_static("https://h:1:2/a/b?c").unwrap();
    assert_eq!(
        parts,
        ("h".to_string(), "/a/b?c".to_string(), "h:1:2".to_string())
    );
    let parts = CrowdsecFilterHttp::parse_waf_url_static("http://:80/").unwrap();
    assert_eq!(
        parts,
        ("".to_string(), "/".to_string(), ":80".to_string())
    );
}

#[test]
fn without_the_waf_its_url_is_not_looked_at() {
    let mut config = waf_config();
    config.waf_enabled = false;
    assert!(context(config).waf_url_parts.is_none());
}

#[test]
fn banned_clients_are_turned_away() {
    let mut http = context(FilterConfig::default());
    let response = respond(http.on_http_request_headers(
        &bans("1.2.3.0/24"),
        source(),
        &request(),
        true,
    ));
    assert_eq!(response.status, 403);
    assert_eq!(response.content_type, "text/plain");
    assert_eq!(response.body, "Forbidden: Your IP is banned.");
    let mut http = context(FilterConfig::default());
    let step = http.on_http_request_headers(&bans("9.9.9.9"), source(), &request(), true);
    assert!(matches!(step, HeadersStep::Continue));
}

#[test]
fn unknown_clients_go_on() {
    let mut http = context(waf_config());
    let step = http.on_http_request_headers(&bans("0.0.0.0/0"), None, &request(), true);
    assert!(matches!(step, HeadersStep::Continue));
    let step = http.on_http_request_headers(
        &bans("0.0.0.0/0"),
        Some(b"pipe".to_vec()),
        &request(),
        true,
    );
    assert!(matches!(step, HeadersStep::Continue));
}

#[test]
fn bans_alone_decide_without_a_waf() {
    let mut config = FilterConfig::default();
    config.response_code = 429;
    let response = block_banned(&bans("1.2.3.4"), &config, source()).unwrap();
    assert_eq!(response.status, 429);
    assert!(block_banned(&bans("1.2.3.5"), &config, source()).is_none());
    assert!(block_banned(&bans("1.2.3.4"), &config, None).is_none());
}

#[test]
fn requests_without_a_body_go_to_the_waf_at_once() {
    let mut http = context(waf_config());
    let (call, otherwise) = headers_call(http.on_http_request_headers(
        &IpStorage::new(),
        source(),
        &request(),
        true,
    ));
    assert!(otherwise.is_none());
    assert_eq!(call.cluster, "crowdsec");
    assert_eq!(call.timeout.as_millis(), 500);
    assert!(call.body.is_none());
    assert_eq!(
        call.headers,
        vec![
            pair(":method", "POST"),
            pair(":path", "/waf"),
            pair(":authority", "crowdsec:7422"),
            pair("X-Crowdsec-Appsec-Ip", "1.2.3.4"),
            pair("X-Crowdsec-Appsec-Uri", "/login?x=1"),
            pair("X-Crowdsec-Appsec-Host", "example.org"),
            pair("X-Crowdsec-Appsec-Verb", "POST"),
            pair("X-Crowdsec-Appsec-Api-Key", "key"),
            pair("X-Crowdsec-Appsec-User-Agent", "unknown"),
            pair("X-Crowdsec-Appsec-Http-Version", "11"),
            pair("User-Agent", "cs-envoy-bouncer/v1"),
            pair("host", "example.org"),
            pair("accept", "*/*"),
        ]
    );
}

#[test]
fn ipv6_clients_are_told_to_the_waf_in_their_notation() {
    let mut http = context(waf_config());
    let (call, _) = headers_call(http.on_http_request_headers(
        &IpStorage::new(),
        Some(b"[2001:db8::1]:80".to_vec()),
        &request(),
        true,
    ));
    assert_eq!(
        call.headers[3],
        pair("X-Crowdsec-Appsec-Ip", "2001:db8::1")
    );
}

#[test]
fn banned_clients_may_be_shown_to_the_waf() {
    let mut config = waf_config();
    config.waf_forward_on_decision = true;
    let mut http = context(config.clone());
    let (_, otherwise) =
        headers_call(http.on_http_request_headers(&bans("1.2.3.4"), source(), &request(), true));
    assert_eq!(otherwise.unwrap().status, 403);
    // Without a usable WAF the ban holds.
    config.waf_url = "nonsense".to_string();
    let mut http = context(config.clone());
    let step = http.on_http_request_headers(&bans("1.2.3.4"), source(), &request(), true);
    assert_eq!(respond(step).status, 403);
    config.waf_enabled = false;
    let mut http = context(config);
    let step = http.on_http_request_headers(&bans("1.2.3.4"), source(), &request(), false);
    assert_eq!(respond(step).status, 403);
}

#[test]
fn requests_with_a_body_wait_for_it() {
    let mut http = context(waf_config());
    let step = http.on_http_request_headers(&IpStorage::new(), source(), &request(), false);
    assert!(matches!(step, HeadersStep::Continue));
    assert!(http.has_request_body);
    let step = http.on_http_request_body(Some(b"ab".to_vec()), source(), None, false);
    assert!(matches!(step, BodyStep::Continue));
    let step = http.on_http_request_body(
        Some(b"abcd".to_vec()),
        source(),
        Some("text/x".to_string()),
        true,
    );
    let (call, otherwise) = body_call(step);
    assert!(otherwise.is_none());
    assert_eq!(call.body.unwrap(), b"abcd".to_vec());
    assert_eq!(
        call.headers[6],
        pair("X-Crowdsec-Appsec-Verb", "POST")
    );
    let n = call.headers.len();
    assert_eq!(call.headers[n - 2], pair("Content-Length", "4"));
    assert_eq!(call.headers[n - 1], pair("Content-Type", "text/x"));
}

#[test]
fn a_body_is_not_collected_twice() {
    let mut http = context(FilterConfig::default());
    for buffer in [&b"abc"[..], b"ab", b"abc", b"abcde"] {
        let step = http.on_http_request_body(Some(buffer.to_vec()), source(), None, true);
        assert!(matches!(step, BodyStep::Continue));
    }
    http.on_http_request_body(None, source(), None, true);
    assert_eq!(http.request_body, b"abcde".to_vec());
}

#[test]
fn bodies_without_a_kept_header_go_on() {
    let mut http = context(waf_config());
    http.has_request_body = true;
    assert_eq!(
        http.send_waf_request(
            "1.2.3.4".to_string(),
            "GET".to_string(),
            None,
            Some(&vec![]),
            None
        )
        .unwrap_err(),
        "Headers not cached - call cache_request_headers() during header phase"
    );
    let step = http.on_http_request_body(Some(vec![1]), source(), None, true);
    assert!(matches!(step, BodyStep::Continue));
    http.cache_request_headers(extract_request_info(&request()));
    http.waf_url_parts = None;
    assert_eq!(
        http.send_waf_request(
            "1.2.3.4".to_string(),
            "GET".to_string(),
            None,
            Some(&vec![]),
            None
        )
        .unwrap_err(),
        "WAF URL not initialized"
    );
}

#[test]
fn decisions_from_parts() {
    let mut http = context(waf_config());
    let info = extract_request_info(&request());
    let step = http.decide_headers(Some("ip".to_string()), false, "V".to_string(), info, true);
    let (call, _) = headers_call(step);
    assert_eq!(call.headers[3], pair("X-Crowdsec-Appsec-Ip", "ip"));
    assert_eq!(call.headers[6], pair("X-Crowdsec-Appsec-Verb", "V"));
    let info = extract_request_info(&request());
    http.decide_headers(Some("ip".to_string()), false, "V".to_string(), info, false);
    let step = http.decide_body(
        Some(vec![7]),
        Some("ip".to_string()),
        "W".to_string(),
        None,
        true,
    );
    assert_eq!(body_call(step).0.headers[6].1, "W");
}

#[test]
fn missing_request_fields_have_defaults() {
    let info = extract_request_info(&RequestHeaders {
        path: None,
        authority: None,
        host: None,
        method: None,
        user_agent: None,
        all: vec![],
    });
    assert_eq!(info.uri, "/");
    assert_eq!(info.host, "unknown");
    assert_eq!(info.method, "GET");
    assert_eq!(info.user_agent, "unknown");
    let info = extract_request_info(&RequestHeaders {
        path: None,
        authority: Some("a".to_string()),
        host: Some("h".to_string()),
        method: None,
        user_agent: Some("u".to_string()),
        all: vec![],
    });
    assert_eq!(info.host, "a");
    assert_eq!(info.user_agent, "u");
}

#[test]
fn a_known_content_type_is_not_repeated() {
    let mut with_type = request();
    with_type.all.push(pair("CONTENT-TYPE", "a/b"));
    let info = extract_request_info(&with_type);
    let headers = describe_request(
        "ip".to_string(),
        "V".to_string(),
        &info,
        "k",
        "agent",
        Some(b"xyz"),
        Some("c/d".to_string()),
    );
    assert_eq!(headers[headers.len() - 1], pair("Content-Length", "3"));
    assert_eq!(headers[headers.len() - 2], pair("CONTENT-TYPE", "a/b"));
    let headers = describe_request(
        "ip".to_string(),
        "V".to_string(),
        &info,
        "k",
        "agent",
        None,
        Some("c/d".to_string()),
    );
    assert_eq!(headers.len(), 8 + 3);
}

fn verdict(status: Option<&str>, size: usize, waf: Option<WafResponse>) -> Option<LocalResponse> {
    let http = context(waf_config());
    match http.on_http_call_response(status.map(str::to_string), size, waf) {
        WafVerdict::Respond(response) => Some(response),
        WafVerdict::Resume => None,
    }
}

fn answer(action: &str, http_status: Option<u16>) -> Option<WafResponse> {
    Some(WafResponse {
        action: action.to_string(),
        http_status,
    })
}

#[test]
fn only_a_403_of_the_waf_blocks() {
    for status in [None, Some("200"), Some("500"), Some("401"), Some("418")] {
        assert!(verdict(status, 10, answer("ban", None)).is_none());
    }
    assert!(verdict(Some("403"), 0, None).is_some());
}

#[test]
fn the_waf_says_how_a_request_is_blocked() {
    let ban = verdict(Some("403"), 9, answer("ban", Some(451))).unwrap();
    assert_eq!(ban.status, 451);
    assert_eq!(ban.content_type, "text/plain");
    assert_eq!(ban.body, "Forbidden: Request blocked by WAF");
    assert_eq!(
        verdict(Some("403"), 9, answer("ban", None)).unwrap().status,
        403
    );
    let captcha = verdict(Some("403"), 9, answer("captcha", None)).unwrap();
    assert_eq!(captcha.status, 403);
    assert_eq!(captcha.content_type, "text/html");
    assert_eq!(
        captcha.body,
        "<html><body>Please complete CAPTCHA verification</body></html>"
    );
    let other = verdict(Some("403"), 9, answer("log", Some(200))).unwrap();
    assert_eq!(other.status, 403);
    // Without a body nothing the answer says counts.
    let empty = verdict(Some("403"), 0, answer("ban", Some(451))).unwrap();
    assert_eq!(empty.status, 403);
    assert_eq!(blocked_by_waf(None).body, "Forbidden: Request blocked by WAF");
}

#[test]
fn banned_clients_are_blocked_after_the_waf() {
    let (http, step) = forwarded("http://waf", true);
    assert_eq!(headers_call(step).1.unwrap().status, 429);
    for status in [None, Some("200"), Some("500"), Some("401"), Some("418")] {
        match http.on_http_call_response(status.map(str::to_string), 0, None) {
            WafVerdict::Respond(response) => {
                assert_eq!(response.status, 429);
                assert_eq!(response.content_type, "text/plain");
                assert_eq!(response.body, "Forbidden: Your IP is banned.");
            }
            WafVerdict::Resume => panic!(),
        }
    }
    match http.on_http_call_response(Some("403".to_string()), 9, answer("ban", Some(451))) {
        WafVerdict::Respond(response) => assert_eq!(response.status, 451),
        WafVerdict::Resume => panic!(),
    }
}

#[test]
fn banned_clients_with_a_body_are_blocked_where_the_waf_fails() {
    let (mut http, step) = forwarded("http://waf", false);
    assert!(matches!(step, HeadersStep::Continue));
    let step = http.on_http_request_body(Some(b"a".to_vec()), source(), None, false);
    assert!(matches!(step, BodyStep::Continue));
    let step = http.on_http_request_body(Some(b"ab".to_vec()), source(), None, true);
    let (call, otherwise) = body_call(step);
    assert_eq!(call.body.unwrap(), b"ab".to_vec());
    assert_eq!(otherwise.unwrap().status, 429);
    // With a URL that does not parse the WAF is not asked at all.
    let (mut http, _) = forwarded("nonsense", false);
    match http.on_http_request_body(Some(b"ab".to_vec()), source(), None, true) {
        BodyStep::Respond(response) => assert_eq!(response.status, 429),
        other => panic!("{:?}", other),
    }
    // Nor is it where the source address has gone.
    let (mut http, _) = forwarded("http://waf", false);
    match http.on_http_request_body(None, None, None, true) {
        BodyStep::Respond(response) => assert_eq!(response.status, 429),
        other => panic!("{:?}", other),
    }
}

#[test]
fn banned_clients_are_answered_once() {
    let mut off = FilterConfig::default();
    off.waf_forward_on_decision = true;
    for config in [FilterConfig::default(), waf_config(), off] {
        let mut http = context(config);
        let step = http.on_http_request_headers(&bans("1.2.3.4"), source(), &request(), false);
        assert_eq!(respond(step).status, 403);
        assert!(!http.ban_pending);
        let step = http.on_http_request_body(Some(b"ab".to_vec()), source(), None, true);
        assert!(matches!(step, BodyStep::Continue));
        assert_eq!(http.request_body, b"ab".to_vec());
    }
    let (http, _) = forwarded("http://waf", true);
    assert!(http.ban_pending);
}
