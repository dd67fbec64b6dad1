use lemonkee::net::{
    answer_url, download_next, download_status, download_to_file, http_error, http_response,
    merge_headers, oauth_accepted, oauth_answer, oauth_ended, oauth_listener_start, oauth_response,
    run_oauth_listener, temporary_name, Accepted, DownloadStage, DownloadStep, HttpRequestConfig,
    ListenStep, OAuthAnswer, OAuthRead, OAuthRequest, OAuthResult, OAuthStep, ParsedUrl,
    OAUTH_HTML,
};

fn config(data: Option<Vec<u8>>, timeout_ms: Option<u64>) -> HttpRequestConfig {
    HttpRequestConfig {
        url: "https://example.com/".to_string(),
        method: "PROPFIND".to_string(),
        headers: vec![],
        data,
        timeout_ms,
    }
}

#[test]
fn defaults_of_requests() {
    assert_eq!(config(None, None).timeout(), 60000);
    assert_eq!(config(None, Some(5)).timeout(), 5);
    assert!(config(None, None).body().is_empty());
    assert_eq!(config(Some(vec![1]), None).body(), vec![1]);
}

fn header(name: &str, value: &[u8]) -> (String, Vec<u8>) {
    (name.to_string(), value.to_vec())
}

#[test]
fn headers_are_merged() {
    let raw = vec![
        header("set-cookie", b"a=1"),
        header("etag", b"\"x\""),
        header("set-cookie", b"b=2"),
        header("x-odd", &[0x61, 0xff]),
        header("set-cookie", b"c=3"),
    ];
    let expected = vec![
        ("set-cookie".to_string(), "a=1, b=2, c=3".to_string()),
        ("etag".to_string(), "\"x\"".to_string()),
        ("x-odd".to_string(), "a\u{fffd}".to_string()),
    ];
    assert_eq!(merge_headers(&raw), expected);
    let response = http_response(207, &raw, vec![9]);
    assert_eq!(response.status, 207);
    assert_eq!(response.headers, expected);
    assert_eq!(response.data, vec![9]);
    assert!(merge_headers(&vec![]).is_empty());
}

#[test]
fn errors_of_requests() {
    assert_eq!(http_error(true, "timeout: global"), "timeout");
    assert_eq!(http_error(false, "host not found"), "host not found");
}

#[test]
fn downloads() {
    assert_eq!(download_status(200), Ok(()));
    assert_eq!(download_status(404), Err("HTTP status 404".to_string()));
    assert_eq!(download_status(206), Err("HTTP status 206".to_string()));
    assert_eq!(temporary_name("plugin.js", 0x2a), ".plugin.js.download-000000000000002a");
    assert_eq!(temporary_name("x", u64::MAX), ".x.download-ffffffffffffffff");
    let first = download_to_file(Some("x".to_string())).unwrap();
    let second = download_to_file(Some("x".to_string())).unwrap();
    assert!(first.starts_with(".x.download-") && first.len() == ".x.download-".len() + 16);
    assert_ne!(first, second);
    assert_eq!(download_to_file(None), Err("Download path has no file name".to_string()));
}

#[test]
fn only_complete_downloads_are_named() {
    assert!(matches!(download_next(DownloadStage::Copy, None), DownloadStep::Go(DownloadStage::Sync)));
    assert!(matches!(download_next(DownloadStage::Sync, None), DownloadStep::Go(DownloadStage::Rename)));
    assert!(matches!(download_next(DownloadStage::Rename, None), DownloadStep::Done));
    for stage in [DownloadStage::Copy, DownloadStage::Sync, DownloadStage::Rename] {
        assert!(matches!(
            download_next(stage, Some("full".to_string())),
            DownloadStep::Remove(message) if message == "full"
        ));
    }
}

#[test]
fn ports_and_paths_of_listeners() {
    assert_eq!(oauth_listener_start(48149, "/oauth"), Ok(()));
    for (port, path) in [
        (0, "/oauth"),
        (1, "oauth"),
        (1, ""),
        (1, "//oauth"),
        (1, "/oauth?x"),
        (1, "/oauth#x"),
        (1, "/oa\rx"),
        (1, "/oa\nx"),
    ] {
        assert_eq!(
            oauth_listener_start(port, path),
            Err("Invalid OAuth listener port or path".to_string())
        );
    }
}

#[test]
fn requests_are_read_in_portions() {
    let mut request = OAuthRequest::new();
    assert!(request.wants_more(false, false));
    assert!(!request.wants_more(true, false));
    assert!(!request.wants_more(false, true));
    assert!(matches!(request.read(OAuthRead::Nothing), OAuthStep::Continue));
    assert!(matches!(request.read(OAuthRead::Data(b"GET / HTTP/1.1\r\n\r".to_vec())), OAuthStep::Continue));
    assert!(matches!(
        request.read(OAuthRead::Data(b"\nrest".to_vec())),
        OAuthStep::Request(text) if text == "GET / HTTP/1.1\r\n\r\nrest"
    ));
}

#[test]
fn requests_are_given_up() {
    let mut request = OAuthRequest::new();
    assert!(matches!(request.read(OAuthRead::Data(vec![])), OAuthStep::GiveUp));
    assert!(matches!(request.read(OAuthRead::Failed), OAuthStep::GiveUp));
    assert!(matches!(request.read(OAuthRead::Data(b"\xff\r\n\r\n".to_vec())), OAuthStep::GiveUp));
    let mut long = OAuthRequest::new();
    assert!(matches!(long.read(OAuthRead::Data(vec![b'x'; 16383])), OAuthStep::Continue));
    assert!(long.wants_more(false, false));
    assert!(matches!(long.read(OAuthRead::Data(vec![b'x'])), OAuthStep::Continue));
    assert!(!long.wants_more(false, false));
}

fn ask(line: &str, host: &str) -> OAuthAnswer {
    oauth_answer(&format!("{line}\r\nAccept: */*\r\nHost: {host}\r\n\r\n"), "/oauth", 48149)
}

fn result(answer: OAuthAnswer) -> OAuthResult {
    match answer {
        OAuthAnswer::Complete(result) => result,
        _ => panic!("expected a result"),
    }
}

#[test]
fn a_grant_is_received() {
    let grant = result(ask(
        "GET /oauth/done?code=a%2Fb&state=x+y&code=second HTTP/1.1",
        "localhost:48149",
    ));
    assert_eq!(grant.url, "http://localhost:48149/oauth/done?code=a%2Fb&state=x+y&code=second");
    assert_eq!(grant.code, Some("a/b".to_string()));
    assert_eq!(grant.state, Some("x y".to_string()));
    assert_eq!(grant.error, None);
    let refusal = result(ask("GET /oauth?error=access_denied HTTP/1.0", " 127.0.0.1:48149 "));
    assert_eq!(refusal.error, Some("access_denied".to_string()));
    assert_eq!(refusal.url, "http://127.0.0.1:48149/oauth?error=access_denied");
}

#[test]
fn invalid_requests_are_refused() {
    for line in [
        "GET /oauth HTTP/2",
        "GET /oauth",
        "GET /oauth HTTP/1.1 more",
        "GET oauth HTTP/1.1",
        "GET //oauth HTTP/1.1",
        "",
    ] {
        let answer = ask(line, "localhost:48149");
        assert!(matches!(answer, OAuthAnswer::InvalidRequest));
        assert!(answer.response().starts_with("HTTP/1.1 400 Bad Request\r\n"));
        assert!(answer.response().ends_with("\r\n\r\nInvalid request"));
    }
}

#[test]
fn other_hosts_are_refused() {
    for host in ["localhost", "localhost:48150", "evil.example:48149", "127.0.0.1:481490", ""] {
        let answer = ask("GET /oauth HTTP/1.1", host);
        assert!(matches!(answer, OAuthAnswer::InvalidHost));
        assert!(answer.response().ends_with("\r\n\r\nInvalid host"));
    }
    let missing = oauth_answer("GET /oauth HTTP/1.1\r\n\r\n", "/oauth", 48149);
    assert!(matches!(missing, OAuthAnswer::InvalidHost));
    let first = oauth_answer(
        "GET /oauth HTTP/1.1\r\nhOsT: evil\r\nHost: localhost:48149\r\n\r\n",
        "/oauth",
        48149,
    );
    assert!(matches!(first, OAuthAnswer::InvalidHost));
}

#[test]
fn other_addresses_are_not_found() {
    for line in ["POST /oauth HTTP/1.1", "GET /other HTTP/1.1"] {
        let answer = ask(line, "localhost:48149");
        assert!(matches!(answer, OAuthAnswer::NotFound));
        assert!(answer.response().starts_with("HTTP/1.1 404 Not Found\r\n"));
    }
}

#[test]
fn answers_to_parsed_addresses() {
    assert!(matches!(answer_url("GET", "/a", None), OAuthAnswer::InvalidUrl));
    assert!(OAuthAnswer::InvalidUrl.response().ends_with("\r\n\r\nInvalid URL"));
    let url = || ParsedUrl {
        path: "/a/b".to_string(),
        pairs: vec![
            ("state".to_string(), "1".to_string()),
            ("other".to_string(), "2".to_string()),
            ("state".to_string(), "3".to_string()),
        ],
        text: "http://localhost:1/a/b?...".to_string(),
    };
    assert!(matches!(answer_url("PUT", "/a", Some(url())), OAuthAnswer::NotFound));
    assert!(matches!(answer_url("GET", "/b", Some(url())), OAuthAnswer::NotFound));
    let found = result(answer_url("GET", "/a", Some(url())));
    assert_eq!(found.url, "http://localhost:1/a/b?...");
    assert_eq!(found.state, Some("1".to_string()));
    assert_eq!(found.code, None);
}

#[test]
fn responses_count_bytes() {
    assert_eq!(
        oauth_response("200 OK", "\u{fc}"),
        "HTTP/1.1 200 OK\r\nContent-Type: text/html; charset=UTF-8\r\nContent-Length: 2\r\nConnection: close\r\nCache-Control: no-store\r\nContent-Security-Policy: default-src 'none'; frame-ancestors 'none'\r\n\r\n\u{fc}"
    );
}

#[test]
fn the_listener_waits_for_browsers() {
    let step = |accepted, stopped| oauth_accepted(accepted, stopped, "/oauth", 48149);
    assert!(matches!(step(Accepted::Connection, false), ListenStep::Serve));
    assert!(matches!(step(Accepted::Connection, true), ListenStep::Stop));
    assert!(matches!(step(Accepted::Interrupted, false), ListenStep::Wait));
    match step(Accepted::Failed("reset".to_string()), false) {
        ListenStep::Report(result) => {
            assert_eq!(result.url, "http://127.0.0.1:48149/oauth");
            assert_eq!(result.error, Some("reset".to_string()));
            assert_eq!((result.state, result.code), (None, None));
        }
        _ => panic!("expected a report"),
    }
}

#[test]
fn the_listener_serves_until_a_grant() {
    let request = |line: &str| Some(format!("{line}\r\nHost: localhost:48149\r\n\r\n"));
    let served = run_oauth_listener(request("GET /nothing HTTP/1.1"), false, "/oauth", 48149);
    assert!(served.response.unwrap().ends_with("Not found"));
    assert!(served.result.is_none());
    let served = run_oauth_listener(request("GET /oauth?code=1 HTTP/1.1"), false, "/oauth", 48149);
    assert!(served.response.unwrap().ends_with(OAUTH_HTML));
    assert_eq!(served.result.unwrap().code, Some("1".to_string()));
    let served = run_oauth_listener(request("GET /oauth?code=1 HTTP/1.1"), true, "/oauth", 48149);
    assert!(served.response.is_none() && served.result.is_none());
    let served = run_oauth_listener(None, false, "/oauth", 48149);
    assert!(served.response.is_none() && served.result.is_none());
}

#[test]
fn a_stopped_listener_tells_nothing() {
    let result = || OAuthResult { url: "u".to_string(), state: None, code: None, error: None };
    assert_eq!(oauth_ended(Some(result()), false).unwrap().url, "u");
    assert!(oauth_ended(Some(result()), true).is_none());
    assert!(oauth_ended(None, false).is_none());
}
