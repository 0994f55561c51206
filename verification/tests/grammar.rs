use httprun::line::{
    check_handler_close, check_handler_open, check_history, check_ignorable, check_separator,
    read_declaration, read_header_line, read_request_line, read_separator_name,
};
use httprun::digits::is_decimal_digit_char;
use httprun::parser::HttpMethod;
use httprun::text::is_space_char;
use httprun::variable::{segments_in, Segment};
use regex::Regex;

fn chars(s: &str) -> Vec<char> {
    s.chars().collect()
}

fn words_over(alphabet: &[char], longest: usize) -> Vec<String> {
    let mut all = vec![String::new()];
    let mut from = 0;
    for _ in 0..longest {
        let upto = all.len();
        for i in from..upto {
            for c in alphabet {
                let mut longer = all[i].clone();
                longer.push(*c);
                all.push(longer);
            }
        }
        from = upto;
    }
    all
}

fn sample_lines() -> Vec<String> {
    let mut all: Vec<String> = [
        "",
        "GET https://example.com",
        "GET https://example.com HTTP/1.1",
        "GET  https://example.com   HTTP/2",
        "GET https://example.com HTTP/",
        "GET https://example.com HTTP/1.1 extra",
        "GET https://example.com http/1.1",
        "GET\thttps://example.com",
        "GET\u{a0}https://example.com",
        "GET",
        "GET ",
        "GETX https://example.com",
        "get https://example.com",
        "POST https://x/y?a=1&b={{c}}",
        "PUT {{host}}/items/1",
        "PATCH /relative",
        "DELETE https://x HTTP/1.1.1...",
        "HEAD https://x HTTP/...",
        "OPTIONS * HTTP/1.0",
        "GET https://x HTTP/١.١",
        "GET https://x HTTP/１",
        "GET https://x HTTP/²",
        "GET https://x HTTP/Ⅷ",
        "GET https://x HTTP/½",
        "OPTIONSX *",
        "POSTPUT x",
        "TRACE https://x",
        "Content-Type: application/json",
        "Content-Type:application/json",
        "Content-Type   :   text/plain; charset=utf-8",
        "X-1: 2",
        "-: -",
        "Name:",
        "Name: ",
        "Name :",
        ": value",
        "Bad Name: value",
        "Name_x: value",
        "Näme: value",
        "Name: a: b: c",
        "Name:\tvalue",
        "Name",
        "@token = abc123",
        "@token=abc123",
        "@token =abc123",
        "@token= abc123",
        "@a=b=c",
        "@a=b = c",
        "@a=b c",
        "@a==",
        "@=",
        "@==x",
        "@=x",
        "@a",
        "@a =",
        "@ a = b",
        "@",
        "@host=http://x?y=1",
        "@host = http://x?y=1",
        "name = value",
        "###",
        "### name",
        "###name",
        "####",
        "#### name",
        "##",
        "# comment",
        "#",
        "// comment",
        "/ not a comment",
        "//",
        "<> history.json",
        "<>history.json",
        "<>",
        "<>\thistory",
        "< > history",
        "> {%",
        ">{%",
        ">   {%",
        "> {% x",
        "> {",
        ">",
        "> {%%}",
        "%}",
        "%} x",
        "x %}",
        "%",
        "{\"a\": 1}",
        "plain text",
    ]
    .iter()
    .map(|s| s.to_string())
    .collect();
    let padded: Vec<String> = all
        .iter()
        .flat_map(|s| vec![format!(" {}", s), format!("{} ", s), format!("\t{}\u{3000}", s)])
        .collect();
    all.extend(padded);
    all
}

fn check_request_line(re: &Regex, line: &str) {
    let expected = re.captures(line).map(|c| {
        (
            HttpMethod::from_str(&c[1]).unwrap(),
            c[2].to_string(),
        )
    });
    assert_eq!(read_request_line(&chars(line)), expected, "{:?}", line);
}

fn check_header_line(re: &Regex, line: &str) {
    let expected = re
        .captures(line)
        .map(|c| (c[1].to_string(), c[2].trim().to_string()));
    let found = read_header_line(&chars(line)).map(|h| (h.name, h.value));
    assert_eq!(found, expected, "{:?}", line);
}

fn check_declaration(re: &Regex, line: &str) {
    let expected = re
        .captures(line)
        .map(|c| (c[1].to_string(), c[2].trim().to_string()));
    assert_eq!(read_declaration(&chars(line)), expected, "{:?}", line);
}

#[test]
fn request_lines_agree_with_the_pattern() {
    let re =
        Regex::new(r"^(GET|POST|PUT|PATCH|DELETE|HEAD|OPTIONS)\s+(\S+)(?:\s+HTTP/[\d.]+)?$").unwrap();
    for line in sample_lines() {
        check_request_line(&re, &line);
    }
    for tail in words_over(&['/', '1', '.', ' ', 'H', 'T', 'P', 'x'], 5) {
        check_request_line(&re, &format!("GET{}", tail));
        check_request_line(&re, &format!("PUT u HTTP{}", tail));
    }
}

#[test]
fn header_lines_agree_with_the_pattern() {
    let re = Regex::new(r"^([A-Za-z0-9\-]+)\s*:\s*(.+)$").unwrap();
    for line in sample_lines() {
        check_header_line(&re, &line);
    }
    for line in words_over(&['a', '-', ':', ' ', '_', '9'], 6) {
        check_header_line(&re, &line);
    }
}

#[test]
fn declarations_agree_with_the_pattern() {
    let re = Regex::new(r"^@(\S+)\s*=\s*(.+)$").unwrap();
    for line in sample_lines() {
        check_declaration(&re, &line);
    }
    for tail in words_over(&['a', '=', ' ', '@'], 7) {
        check_declaration(&re, &format!("@{}", tail));
        check_declaration(&re, &tail);
    }
}

#[test]
fn handler_marks_agree_with_the_patterns() {
    let open = Regex::new(r"^>\s*\{%\s*$").unwrap();
    let close = Regex::new(r"^\s*%\}\s*$").unwrap();
    let mut lines = sample_lines();
    lines.extend(words_over(&['>', '{', '%', '}', ' ', '\t'], 6));
    for line in lines {
        assert_eq!(check_handler_open(&chars(&line)), open.is_match(&line), "{:?}", line);
        assert_eq!(check_handler_close(&chars(&line)), close.is_match(&line), "{:?}", line);
    }
}

#[test]
fn history_marks_and_comments_agree_with_their_definitions() {
    let history = Regex::new(r"^<>\s+").unwrap();
    let mut lines = sample_lines();
    lines.extend(words_over(&['<', '>', '#', '/', ' ', 'a'], 5));
    for line in lines {
        let t = chars(&line);
        assert_eq!(check_history(&t), history.is_match(&line), "{:?}", line);
        assert_eq!(
            check_ignorable(&t),
            line.is_empty() || line.starts_with("//") || line.starts_with('#'),
            "{:?}",
            line
        );
        assert_eq!(check_separator(&t), line.starts_with("###"), "{:?}", line);
        if line.starts_with("###") {
            let after = line[3..].trim();
            let expected = if after.is_empty() { None } else { Some(after.to_string()) };
            assert_eq!(read_separator_name(&t), expected, "{:?}", line);
        }
    }
}

fn check_segments(re: &Regex, text: &str) {
    let mut expected: Vec<(bool, String, String)> = Vec::new();
    let mut last = 0;
    for c in re.captures_iter(text) {
        let whole = c.get(0).unwrap();
        if whole.start() > last {
            expected.push((false, text[last..whole.start()].to_string(), String::new()));
        }
        expected.push((true, whole.as_str().to_string(), c[1].trim().to_string()));
        last = whole.end();
    }
    if last < text.len() {
        expected.push((false, text[last..].to_string(), String::new()));
    }
    let found: Vec<(bool, String, String)> = segments_in(text)
        .into_iter()
        .map(|s| match s {
            Segment::Text(t) => (false, t, String::new()),
            Segment::Placeholder { whole, name } => (true, whole, name),
        })
        .collect();
    assert_eq!(found, expected, "{:?}", text);
}

#[test]
fn placeholders_agree_with_the_pattern() {
    let re = Regex::new(r"\{\{([^}]+)\}\}").unwrap();
    for text in [
        "",
        "plain",
        "{{a}}",
        "x{{a}}y",
        "{{a}}{{b}}",
        "{{ a }}",
        "{{}}",
        "{{ }}",
        "{{a}",
        "{a}}",
        "{{{a}}}",
        "{{{{a}}}}",
        "{{a}}}}",
        "{{a{{b}}",
        "{{a\nb}}",
        "{{a}b}}",
        "{ {a}}",
        "{{$uuid}}-{{$timestamp}}",
        "https://{{host}}/items/{{ id }}?q={{q}}",
        "é{{ü}}ß",
    ] {
        check_segments(&re, text);
    }
    for text in words_over(&['{', '}', 'a', ' '], 8) {
        check_segments(&re, &text);
    }
}

#[test]
fn character_classes_agree_with_the_patterns() {
    let digit = Regex::new(r"^\d$").unwrap();
    let space = Regex::new(r"^\s$").unwrap();
    let mut buffer = [0u8; 4];
    for code in 0..=0x10FFFFu32 {
        if let Some(c) = char::from_u32(code) {
            if c == '\n' {
                continue;
            }
            let text: &str = c.encode_utf8(&mut buffer);
            assert_eq!(is_decimal_digit_char(c), digit.is_match(text), "U+{:04X}", code);
            assert_eq!(is_space_char(c), space.is_match(text), "U+{:04X}", code);
        }
    }
    assert!(is_space_char('\n'));
    assert!(!is_decimal_digit_char('\n'));
}
