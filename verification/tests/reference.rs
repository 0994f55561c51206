use std::collections::HashMap;

use httprun::bindings::Bindings;
use httprun::parser::{parse_http_file, HttpMethod};
use httprun::variable::VariableStore;
use regex::{Captures, Regex};

#[derive(Debug, PartialEq)]
struct Request {
    name: Option<String>,
    method: HttpMethod,
    url: String,
    headers: Vec<(String, String)>,
    body: Option<String>,
    handler: Option<String>,
    line_number: usize,
}

#[derive(Clone, Copy)]
enum State {
    Awaiting,
    Headers,
    Body,
    Handler,
}

struct Patterns {
    request_line: Regex,
    header_line: Regex,
    handler_start: Regex,
    handler_end: Regex,
    history: Regex,
    declaration: Regex,
}

fn patterns() -> Patterns {
    Patterns {
        request_line: Regex::new(
            r"^(GET|POST|PUT|PATCH|DELETE|HEAD|OPTIONS)\s+(\S+)(?:\s+HTTP/[\d.]+)?$",
        )
        .unwrap(),
        header_line: Regex::new(r"^([A-Za-z0-9\-]+)\s*:\s*(.+)$").unwrap(),
        handler_start: Regex::new(r"^>\s*\{%\s*$").unwrap(),
        handler_end: Regex::new(r"^\s*%\}\s*$").unwrap(),
        history: Regex::new(r"^<>\s+").unwrap(),
        declaration: Regex::new(r"^@(\S+)\s*=\s*(.+)$").unwrap(),
    }
}

struct Draft {
    name: Option<String>,
    start: Option<(HttpMethod, String, usize)>,
    headers: Vec<(String, String)>,
    body: Vec<String>,
    handler: Vec<String>,
}

fn close(requests: &mut Vec<Request>, draft: &mut Draft) {
    if let Some((method, url, line_number)) = draft.start.take() {
        let body_text = draft.body.join("\n");
        let body = if body_text.trim().is_empty() {
            None
        } else {
            Some(body_text.trim_end().to_string())
        };
        let handler_text = draft.handler.join("\n");
        let handler = if handler_text.trim().is_empty() { None } else { Some(handler_text) };
        requests.push(Request {
            name: draft.name.take(),
            method,
            url,
            headers: std::mem::take(&mut draft.headers),
            body,
            handler,
            line_number,
        });
    }
    draft.body.clear();
    draft.handler.clear();
}

fn rename(draft: &mut Draft, trimmed: &str) {
    let after = trimmed[3..].trim();
    if !after.is_empty() {
        draft.name = Some(after.to_string());
    }
}

/// The same file format, read with regular expressions.
fn parse_with_patterns(p: &Patterns, content: &str) -> (Vec<Request>, Vec<(String, String)>) {
    let mut requests = Vec::new();
    let mut declarations = Vec::new();
    let mut state = State::Awaiting;
    let mut draft =
        Draft { name: None, start: None, headers: vec![], body: vec![], handler: vec![] };
    for (i, line) in content.lines().enumerate() {
        let trimmed = line.trim();
        match state {
            State::Awaiting => {
                if trimmed.is_empty() || trimmed.starts_with("//") || trimmed.starts_with('#') {
                    if trimmed.starts_with("###") {
                        rename(&mut draft, trimmed);
                    }
                } else if let Some(c) = p.declaration.captures(trimmed) {
                    declarations.push((c[1].to_string(), c[2].trim().to_string()));
                } else if p.history.is_match(trimmed) {
                } else if let Some(c) = p.request_line.captures(trimmed) {
                    let method = HttpMethod::from_str(&c[1]).unwrap();
                    draft.start = Some((method, c[2].to_string(), i + 1));
                    state = State::Headers;
                }
            }
            State::Headers => {
                if trimmed.is_empty() {
                    state = State::Body;
                } else if p.handler_start.is_match(trimmed) {
                    state = State::Handler;
                } else if trimmed.starts_with("###") {
                    close(&mut requests, &mut draft);
                    rename(&mut draft, trimmed);
                    state = State::Awaiting;
                } else if p.history.is_match(trimmed) {
                    close(&mut requests, &mut draft);
                    state = State::Awaiting;
                } else if let Some(c) = p.header_line.captures(trimmed) {
                    draft.headers.push((c[1].to_string(), c[2].trim().to_string()));
                }
            }
            State::Body => {
                if p.handler_start.is_match(trimmed) {
                    state = State::Handler;
                } else if trimmed.starts_with("###") {
                    close(&mut requests, &mut draft);
                    rename(&mut draft, trimmed);
                    state = State::Awaiting;
                } else if p.history.is_match(trimmed) {
                    close(&mut requests, &mut draft);
                    state = State::Awaiting;
                } else {
                    draft.body.push(line.to_string());
                }
            }
            State::Handler => {
                if p.handler_end.is_match(trimmed) {
                    close(&mut requests, &mut draft);
                    state = State::Awaiting;
                } else {
                    draft.handler.push(line.to_string());
                }
            }
        }
    }
    close(&mut requests, &mut draft);
    (requests, declarations)
}

fn parse_with_library(content: &str) -> (Vec<Request>, Vec<(String, String)>) {
    let parsed = parse_http_file(content).unwrap();
    let requests = parsed
        .requests
        .into_iter()
        .map(|r| Request {
            name: r.name,
            method: r.method,
            url: r.url,
            headers: r.headers.into_iter().map(|h| (h.name, h.value)).collect(),
            body: r.body,
            handler: r.response_handler,
            line_number: r.line_number,
        })
        .collect();
    (requests, parsed.in_place_vars)
}

struct Dice(u64);

impl Dice {
    fn roll(&mut self, sides: usize) -> usize {
        self.0 = self.0.wrapping_mul(6364136223846793005).wrapping_add(1442695040888963407);
        ((self.0 >> 33) as usize) % sides
    }

    fn pick<'a>(&mut self, from: &'a [&'a str]) -> &'a str {
        from[self.roll(from.len())]
    }
}

const LINES: &[&str] = &[
    "",
    "   ",
    "\t",
    "GET https://example.com/a",
    "POST https://example.com/b HTTP/1.1",
    "PUT {{host}}/c",
    "DELETE /d   HTTP/2",
    "PATCH https://e HTTP/x",
    "HEAD",
    "OPTIONS *",
    "get https://lower",
    "### first",
    "###",
    "###   spaced name  ",
    "####",
    "# comment",
    "// comment",
    "@var = value",
    "@b=c=d",
    "@bad",
    "@ x = y",
    "<> 2024-01-01T000000.200.json",
    "<>",
    "<>x",
    "Content-Type: application/json",
    "X-Id :  {{id}}  ",
    "Accept:",
    "Not A Header: x",
    "{",
    "  \"key\": \"value\",",
    "}",
    "name=value&other=1",
    "> {%",
    ">{%",
    ">  {%  ",
    "> {% client.log(1); %}",
    "client.test(\"t\", function() {});",
    "  client.assert(true);",
    "%}",
    "  %}  ",
    "%} trailing",
    "\u{a0}GET https://nbsp\u{a0}",
    "GET\u{3000}https://wide",
];

const ENDS: &[&str] = &["\n", "\n", "\n", "\r\n", "\r\n", "\r", "\n\n", " \n", ""];

#[test]
fn files_are_read_as_the_patterns_read_them() {
    let p = patterns();
    let mut dice = Dice(2024);
    for round in 0..4000 {
        let mut content = String::new();
        let count = dice.roll(14);
        for _ in 0..count {
            content.push_str(dice.pick(LINES));
            content.push_str(dice.pick(ENDS));
        }
        assert_eq!(
            parse_with_library(&content),
            parse_with_patterns(&p, &content),
            "round {}: {:?}",
            round,
            content
        );
    }
}

#[test]
fn whole_requests_are_read_as_the_patterns_read_them() {
    let p = patterns();
    let mut dice = Dice(7);
    let starts = ["", "### one\n", "@a = 1\n### two\n", "# note\n\n"];
    let requests = ["GET https://a\n", "POST https://b HTTP/1.1\r\n", "PUT {{u}}\n"];
    let headers = ["", "A: 1\n", "A: 1\nB:2\r\n", "bad\nC : 3\n"];
    let bodies = ["", "\n", "\nbody\n", "\n\n  two\nlines  \n\n", "\n{\"a\": 1}\r\n"];
    let handlers = ["", "> {%\nx();\n%}\n", "> {%\n  y();\n", ">{%\n%}\n", "> {%\n\n \n%}\n"];
    let ends = ["", "###\n", "<> file.json\n", "### next\nGET https://z\n"];
    for round in 0..3000 {
        let mut content = String::new();
        for _ in 0..1 + dice.roll(3) {
            content.push_str(dice.pick(&starts));
            content.push_str(dice.pick(&requests));
            content.push_str(dice.pick(&headers));
            content.push_str(dice.pick(&bodies));
            content.push_str(dice.pick(&handlers));
            content.push_str(dice.pick(&ends));
        }
        assert_eq!(
            parse_with_library(&content),
            parse_with_patterns(&p, &content),
            "round {}: {:?}",
            round,
            content
        );
    }
}

fn substitute_with_pattern(
    re: &Regex,
    in_place: &HashMap<String, String>,
    globals: &HashMap<String, String>,
    env: &HashMap<String, String>,
    input: &str,
) -> String {
    re.replace_all(input, |caps: &Captures| {
        let name = caps[1].trim();
        if let Some(v) = in_place.get(name) {
            return v.clone();
        }
        if let Some(v) = globals.get(name) {
            return v.clone();
        }
        if let Some(v) = env.get(name) {
            return v.clone();
        }
        caps[0].to_string()
    })
    .to_string()
}

fn map_of(pairs: &[(&str, &str)]) -> HashMap<String, String> {
    pairs.iter().map(|(k, v)| (k.to_string(), v.to_string())).collect()
}

fn bindings_of(pairs: &[(&str, &str)]) -> Bindings {
    let mut b = Bindings::new();
    for (k, v) in pairs {
        b.insert(k.to_string(), v.to_string());
    }
    b
}

#[test]
fn placeholders_are_replaced_as_the_pattern_replaces_them() {
    let re = Regex::new(r"\{\{([^}]+)\}\}").unwrap();
    let env = [("a", "env-a"), ("b", "env-b"), ("c", "env-c"), ("{a", "odd"), ("x y", "spaced")];
    let globals = [("b", "global-b"), ("c", "global-c"), ("d", "{{a}}")];
    let in_place = [("c", "place-c"), ("e", "}}"), ("", "empty")];
    let mut store = VariableStore::new(bindings_of(&env));
    store.merge_globals(&bindings_of(&globals));
    for (k, v) in in_place {
        store.set_in_place(k.to_string(), v.to_string());
    }
    let (env, globals, in_place) = (map_of(&env), map_of(&globals), map_of(&in_place));

    let pieces = [
        "{{", "}}", "{", "}", "a", "b", "c", "d", "e", "f", " ", "x y", "{{a}}", "{{ b }}",
        "{{c}}", "{{d}}", "{{e}}", "{{f}}", "{{x y}}", "{{{a}}", "\n", "é", "text ",
    ];
    let mut dice = Dice(99);
    for round in 0..20000 {
        let mut input = String::new();
        for _ in 0..dice.roll(9) {
            input.push_str(dice.pick(&pieces));
        }
        assert_eq!(
            store.substitute(&input).unwrap(),
            substitute_with_pattern(&re, &in_place, &globals, &env, &input),
            "round {}: {:?}",
            round,
            input
        );
    }
}
