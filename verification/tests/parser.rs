use httprun::parser::{parse_http_file, HttpMethod, ScanMode, Scanner};

#[test]
fn parses_request_with_body_and_handler() {
    let content = r#"
@token = abc123

### create item
POST https://example.com/items
Content-Type: application/json
X-Trace: 123

{
  "name": "widget"
}

> {%
  client.test("status is 200", function() {
    client.assert(response.status === 200);
  });
%}
"#;

    let parsed = parse_http_file(content).expect("parse should succeed");
    assert_eq!(parsed.in_place_vars, vec![("token".to_string(), "abc123".to_string())]);
    assert_eq!(parsed.requests.len(), 1);

    let req = &parsed.requests[0];
    assert_eq!(req.name.as_deref(), Some("create item"));
    assert_eq!(req.method, HttpMethod::Post);
    assert_eq!(req.url, "https://example.com/items");
    assert_eq!(req.headers.len(), 2);
    assert_eq!(req.headers[0].name, "Content-Type");
    assert_eq!(req.headers[0].value, "application/json");
    assert_eq!(req.headers[1].name, "X-Trace");
    assert_eq!(req.headers[1].value, "123");
    assert_eq!(
        req.body.as_deref(),
        Some("{\n  \"name\": \"widget\"\n}")
    );
    let handler = req.response_handler.as_deref().expect("handler present");
    assert!(handler.contains("client.test(\"status is 200\""));
    assert!(handler.contains("client.assert(response.status === 200);"));
}

#[test]
fn parses_one_request_with_header_body_and_handler() {
    let text = "### create item\nPOST https://x/y\nH: v\n\n{\"a\":1}\n\n> {%\nclient.assert(response.status===200);\n%}\n";
    let parsed = parse_http_file(text).unwrap();
    assert_eq!(parsed.requests.len(), 1);
    assert!(parsed.in_place_vars.is_empty());
    let req = &parsed.requests[0];
    assert_eq!(req.name.as_deref(), Some("create item"));
    assert_eq!(req.method, HttpMethod::Post);
    assert_eq!(req.url, "https://x/y");
    assert_eq!(req.headers.len(), 1);
    assert_eq!(req.headers[0].name, "H");
    assert_eq!(req.headers[0].value, "v");
    assert_eq!(req.body.as_deref(), Some("{\"a\":1}"));
    assert_eq!(
        req.response_handler.as_deref(),
        Some("client.assert(response.status===200);")
    );
    assert_eq!(req.line_number, 2);
}

#[test]
fn unterminated_handler_runs_to_the_end_of_the_file() {
    let text = "GET https://x/y\n\n> {%\nclient.log(1);\n  client.log(2);\n";
    let parsed = parse_http_file(text).unwrap();
    assert_eq!(parsed.requests.len(), 1);
    let req = &parsed.requests[0];
    assert_eq!(req.body, None);
    assert_eq!(
        req.response_handler.as_deref(),
        Some("client.log(1);\n  client.log(2);")
    );
}

#[test]
fn empty_and_unknown_input_gives_nothing() {
    let parsed = parse_http_file("").unwrap();
    assert!(parsed.requests.is_empty());
    assert!(parsed.in_place_vars.is_empty());
    let parsed = parse_http_file("hello\nFETCH https://x\n  \n// note\n# note\n<> old.json\n").unwrap();
    assert!(parsed.requests.is_empty());
    assert!(parsed.in_place_vars.is_empty());
}

#[test]
fn separator_name_goes_to_the_next_request() {
    let text = "### first\nGET https://a\n### second\nDELETE https://b HTTP/1.1\n###\nHEAD https://c\n";
    let parsed = parse_http_file(text).unwrap();
    assert_eq!(parsed.requests.len(), 3);
    assert_eq!(parsed.requests[0].name.as_deref(), Some("first"));
    assert_eq!(parsed.requests[0].method, HttpMethod::Get);
    assert_eq!(parsed.requests[0].line_number, 2);
    assert_eq!(parsed.requests[1].name.as_deref(), Some("second"));
    assert_eq!(parsed.requests[1].method, HttpMethod::Delete);
    assert_eq!(parsed.requests[1].url, "https://b");
    assert_eq!(parsed.requests[1].line_number, 4);
    assert_eq!(parsed.requests[2].name, None);
    assert_eq!(parsed.requests[2].method, HttpMethod::Head);
    assert_eq!(parsed.requests[2].line_number, 6);
}

#[test]
fn a_separator_without_a_name_keeps_the_remembered_name() {
    let parsed = parse_http_file("### kept\n###\nGET https://a\n").unwrap();
    assert_eq!(parsed.requests[0].name.as_deref(), Some("kept"));
    let parsed = parse_http_file("### one\n### two\nGET https://a\n").unwrap();
    assert_eq!(parsed.requests[0].name.as_deref(), Some("two"));
}

#[test]
fn history_marker_closes_a_request() {
    let text = "GET https://a\nAccept: */*\n<> 2024-01-01.200.json\nPUT https://b\n\nbody\n<> x.json\n";
    let parsed = parse_http_file(text).unwrap();
    assert_eq!(parsed.requests.len(), 2);
    assert_eq!(parsed.requests[0].headers.len(), 1);
    assert_eq!(parsed.requests[0].body, None);
    assert_eq!(parsed.requests[1].method, HttpMethod::Put);
    assert_eq!(parsed.requests[1].body.as_deref(), Some("body"));
}

#[test]
fn declaration_after_the_request_line_is_not_read() {
    let text = "@a = 1\nGET https://a\n@b = 2\n\n@c = 3\n";
    let parsed = parse_http_file(text).unwrap();
    assert_eq!(parsed.in_place_vars, vec![("a".to_string(), "1".to_string())]);
    assert_eq!(parsed.requests.len(), 1);
    assert!(parsed.requests[0].headers.is_empty());
    assert_eq!(parsed.requests[0].body.as_deref(), Some("@c = 3"));
}

#[test]
fn declarations_keep_their_order_and_repeat() {
    let parsed = parse_http_file("@a = 1\n@b=2\n@a = 3\n").unwrap();
    assert_eq!(
        parsed.in_place_vars,
        vec![
            ("a".to_string(), "1".to_string()),
            ("b".to_string(), "2".to_string()),
            ("a".to_string(), "3".to_string()),
        ]
    );
}

#[test]
fn declaration_name_ends_before_the_last_equals_sign_of_its_word() {
    let parsed = parse_http_file("@a=b=c\n@k=v w\n@x =y\n@n=\n@=z\n@u=1 = 2\n").unwrap();
    assert_eq!(
        parsed.in_place_vars,
        vec![
            ("a=b".to_string(), "c".to_string()),
            ("k".to_string(), "v w".to_string()),
            ("x".to_string(), "y".to_string()),
            ("u=1".to_string(), "2".to_string()),
        ]
    );
}

#[test]
fn body_keeps_blank_lines_inside_and_loses_trailing_white_space() {
    let text = "POST https://a\n\n\nline one\n\n  line two  \n\n\n";
    let parsed = parse_http_file(text).unwrap();
    assert_eq!(
        parsed.requests[0].body.as_deref(),
        Some("\nline one\n\n  line two")
    );
}

#[test]
fn carriage_returns_before_line_feeds_are_dropped() {
    let text = "GET https://a\r\nAccept: text/plain\r\n\r\nbody\r\n";
    let parsed = parse_http_file(text).unwrap();
    let req = &parsed.requests[0];
    assert_eq!(req.url, "https://a");
    assert_eq!(req.headers[0].value, "text/plain");
    assert_eq!(req.body.as_deref(), Some("body"));
}

#[test]
fn handler_follows_headers_directly() {
    let text = "GET https://a\nAccept: a\n>   {%\nx\n%}\nGET https://b\n";
    let parsed = parse_http_file(text).unwrap();
    assert_eq!(parsed.requests.len(), 2);
    assert_eq!(parsed.requests[0].response_handler.as_deref(), Some("x"));
    assert_eq!(parsed.requests[0].body, None);
    assert_eq!(parsed.requests[1].url, "https://b");
    assert_eq!(parsed.requests[1].line_number, 6);
}

#[test]
fn blank_handler_is_no_handler() {
    let parsed = parse_http_file("GET https://a\n> {%\n   \n%}\n").unwrap();
    assert_eq!(parsed.requests[0].response_handler, None);
}

#[test]
fn duplicate_headers_stay_in_order() {
    let text = "GET https://a\nX: 1\nY : 2\nX:3\nbad header\nZ:\n";
    let parsed = parse_http_file(text).unwrap();
    let headers: Vec<(String, String)> = parsed.requests[0]
        .headers
        .iter()
        .map(|h| (h.name.clone(), h.value.clone()))
        .collect();
    assert_eq!(
        headers,
        vec![
            ("X".to_string(), "1".to_string()),
            ("Y".to_string(), "2".to_string()),
            ("X".to_string(), "3".to_string()),
        ]
    );
}

#[test]
fn method_keywords_round_trip() {
    let all = [
        (HttpMethod::Get, "GET"),
        (HttpMethod::Post, "POST"),
        (HttpMethod::Put, "PUT"),
        (HttpMethod::Patch, "PATCH"),
        (HttpMethod::Delete, "DELETE"),
        (HttpMethod::Head, "HEAD"),
        (HttpMethod::Options, "OPTIONS"),
    ];
    for (method, text) in all {
        assert_eq!(method.as_str(), text);
        assert_eq!(HttpMethod::from_str(text), Some(method));
    }
    assert_eq!(HttpMethod::from_str("get"), None);
    assert_eq!(HttpMethod::from_str("GET "), None);
    assert_eq!(HttpMethod::from_str(""), None);
    assert_eq!(HttpMethod::from_str("TRACE"), None);
}

#[test]
fn scanner_moves_through_its_four_states() {
    let mut scanner = Scanner::new();
    assert_eq!(scanner.mode(), ScanMode::AwaitingRequest);
    scanner.feed("# comment", 1);
    assert_eq!(scanner.mode(), ScanMode::AwaitingRequest);
    scanner.feed("PATCH https://a", 2);
    assert_eq!(scanner.mode(), ScanMode::ReadingHeaders);
    scanner.feed("A: b", 3);
    assert_eq!(scanner.mode(), ScanMode::ReadingHeaders);
    scanner.feed("", 4);
    assert_eq!(scanner.mode(), ScanMode::ReadingBody);
    scanner.feed("text", 5);
    assert_eq!(scanner.mode(), ScanMode::ReadingBody);
    scanner.feed("> {%", 6);
    assert_eq!(scanner.mode(), ScanMode::ReadingHandler);
    scanner.feed("### not a separator here", 7);
    assert_eq!(scanner.mode(), ScanMode::ReadingHandler);
    scanner.feed("  %}  ", 8);
    assert_eq!(scanner.mode(), ScanMode::AwaitingRequest);
    let result = scanner.finish();
    assert_eq!(result.requests.len(), 1);
    assert_eq!(result.requests[0].method, HttpMethod::Patch);
    assert_eq!(result.requests[0].line_number, 2);
    assert_eq!(result.requests[0].body.as_deref(), Some("text"));
    assert_eq!(
        result.requests[0].response_handler.as_deref(),
        Some("### not a separator here")
    );
}
