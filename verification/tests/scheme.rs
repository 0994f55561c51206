use httprun::runner::{ensure_http_scheme, has_url_scheme};

#[test]
fn has_url_scheme_accepts_valid_schemes() {
    assert!(has_url_scheme("http://example.com"));
    assert!(has_url_scheme("https://example.com"));
    assert!(has_url_scheme("ftp://example.com"));
    assert!(has_url_scheme("custom+v1.2-scheme://example.com"));
}

#[test]
fn has_url_scheme_rejects_invalid_or_missing_schemes() {
    assert!(!has_url_scheme("://example.com"));
    assert!(!has_url_scheme("1http://example.com"));
    assert!(!has_url_scheme("http:/example.com"));
    assert!(!has_url_scheme("example.com/path"));
    assert!(!has_url_scheme("example.com://path"));
}

#[test]
fn ensure_http_scheme_only_prepends_when_missing() {
    assert_eq!(
        ensure_http_scheme("https://example.com"),
        "https://example.com"
    );
    assert_eq!(
        ensure_http_scheme("ftp://example.com"),
        "ftp://example.com"
    );
    assert_eq!(
        ensure_http_scheme("example.com/path"),
        "https://example.com/path"
    );
    assert_eq!(
        ensure_http_scheme("  example.com  "),
        "https://example.com"
    );
}

#[test]
fn scheme_is_read_before_the_first_mark_only() {
    assert!(has_url_scheme("a://b://c"));
    assert!(!has_url_scheme("a b://c"));
    assert!(!has_url_scheme(""));
    assert!(has_url_scheme("x-y.z://h"));
    assert!(!has_url_scheme("localhost.local://h"));
    assert_eq!(ensure_http_scheme(""), "https://");
}

fn names_scheme(url: &str) -> bool {
    let Some(idx) = url.find("://") else {
        return false;
    };
    if idx == 0 {
        return false;
    }
    let mut chars = url[..idx].chars();
    if !chars.next().unwrap().is_ascii_alphabetic() {
        return false;
    }
    let mut plus_or_dash = false;
    let mut dot = false;
    for c in chars {
        match c {
            'a'..='z' | 'A'..='Z' | '0'..='9' => {}
            '+' | '-' => plus_or_dash = true,
            '.' => dot = true,
            _ => return false,
        }
    }
    !(dot && !plus_or_dash)
}

#[test]
fn schemes_over_a_small_alphabet() {
    let alphabet = ['a', 'Z', '1', '+', '.', ':', '/', ' ', 'é'];
    let mut all = vec![String::new()];
    let mut from = 0;
    for _ in 0..6 {
        let upto = all.len();
        for i in from..upto {
            for c in alphabet {
                let mut longer = all[i].clone();
                longer.push(c);
                all.push(longer);
            }
        }
        from = upto;
    }
    for url in &all {
        assert_eq!(has_url_scheme(url), names_scheme(url), "{:?}", url);
        let trimmed = url.trim();
        let expected = if names_scheme(trimmed) {
            trimmed.to_string()
        } else {
            format!("https://{}", trimmed)
        };
        assert_eq!(ensure_http_scheme(url), expected, "{:?}", url);
    }
}
