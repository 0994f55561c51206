use httprun::bindings::Bindings;
use httprun::variable::{
    clock_reading, random_int_text, segments_in, timestamp_text, DynamicVariable, Segment,
    VariableStore,
};

fn bindings(pairs: &[(&str, &str)]) -> Bindings {
    let mut b = Bindings::new();
    for (k, v) in pairs {
        b.insert(k.to_string(), v.to_string());
    }
    b
}

fn store(env: &[(&str, &str)], globals: &[(&str, &str)], in_place: &[(&str, &str)]) -> VariableStore {
    let mut s = VariableStore::new(bindings(env));
    s.merge_globals(&bindings(globals));
    for (k, v) in in_place {
        s.set_in_place(k.to_string(), v.to_string());
    }
    s
}

#[test]
fn text_without_placeholders_is_unchanged() {
    let s = store(&[("a", "1")], &[("b", "2")], &[("c", "3")]);
    for text in [
        "",
        "plain text",
        "a b c",
        "{a}",
        "{{}}",
        "{{a}",
        "{a}}",
        "{ {a} }",
        "}}{{",
        "line one\nline two\n",
        "https://example.com/items?id=1",
    ] {
        assert_eq!(s.substitute(text).unwrap(), text);
    }
}

#[test]
fn in_place_wins_over_global_wins_over_environment() {
    let s = store(
        &[("all", "env"), ("env-global", "env"), ("env-place", "env"), ("env", "env")],
        &[("all", "global"), ("env-global", "global"), ("global-place", "global"), ("global", "global")],
        &[("all", "place"), ("env-place", "place"), ("global-place", "place"), ("place", "place")],
    );
    assert_eq!(s.substitute("{{all}}").unwrap(), "place");
    assert_eq!(s.substitute("{{env-place}}").unwrap(), "place");
    assert_eq!(s.substitute("{{global-place}}").unwrap(), "place");
    assert_eq!(s.substitute("{{place}}").unwrap(), "place");
    assert_eq!(s.substitute("{{env-global}}").unwrap(), "global");
    assert_eq!(s.substitute("{{global}}").unwrap(), "global");
    assert_eq!(s.substitute("{{env}}").unwrap(), "env");
    assert_eq!(s.substitute("{{none}}").unwrap(), "{{none}}");
    assert_eq!(s.lookup("all").map(|v| v.as_str()), Some("place"));
    assert_eq!(s.lookup("env-global").map(|v| v.as_str()), Some("global"));
    assert_eq!(s.lookup("env").map(|v| v.as_str()), Some("env"));
    assert_eq!(s.lookup("none"), None);
}

#[test]
fn placeholders_are_replaced_where_they_stand() {
    let s = store(&[("host", "example.com")], &[("id", "7")], &[("q", "a b")]);
    assert_eq!(
        s.substitute("https://{{host}}/items/{{ id }}?q={{q}}&r={{missing}}").unwrap(),
        "https://example.com/items/7?q=a b&r={{missing}}"
    );
    assert_eq!(s.substitute("{{host}}{{host}}").unwrap(), "example.comexample.com");
    assert_eq!(s.substitute("{{ host}} {{host }}").unwrap(), "example.com example.com");
}

#[test]
fn replaced_text_is_not_read_again() {
    let s = store(&[("a", "{{b}}"), ("b", "deep"), ("open", "{{"), ("c", "b}}")], &[], &[]);
    assert_eq!(s.substitute("{{a}}").unwrap(), "{{b}}");
    assert_eq!(s.substitute("{{open}}b}}").unwrap(), "{{b}}");
    assert_eq!(s.substitute("{{open}}{{c}}").unwrap(), "{{b}}");
}

#[test]
fn placeholder_names_may_hold_open_braces_and_line_feeds() {
    let s = store(&[("{a", "x"), ("a\nb", "y")], &[], &[]);
    assert_eq!(s.substitute("{{{a}}}").unwrap(), "x}");
    assert_eq!(s.substitute("{{a\nb}}").unwrap(), "y");
    assert_eq!(s.substitute("{{ }}").unwrap(), "{{ }}");
}

#[test]
fn merging_globals_adds_and_replaces_and_never_removes() {
    let mut s = VariableStore::new(Bindings::new());
    s.merge_globals(&bindings(&[("a", "1"), ("b", "2")]));
    s.merge_globals(&bindings(&[("b", "3"), ("c", "4")]));
    s.merge_globals(&Bindings::new());
    assert_eq!(s.substitute("{{a}}{{b}}{{c}}").unwrap(), "134");
}

#[test]
fn later_in_place_declaration_wins() {
    let mut s = VariableStore::new(Bindings::new());
    s.set_in_place("a".to_string(), "first".to_string());
    s.set_in_place("a".to_string(), "second".to_string());
    assert_eq!(s.substitute("{{a}}").unwrap(), "second");
}

#[test]
fn dynamic_names_are_known() {
    assert_eq!(DynamicVariable::named("$uuid"), Some(DynamicVariable::Uuid));
    assert_eq!(DynamicVariable::named("$timestamp"), Some(DynamicVariable::Timestamp));
    assert_eq!(DynamicVariable::named("$randomInt"), Some(DynamicVariable::RandomInt));
    assert_eq!(DynamicVariable::named("$randomint"), None);
    assert_eq!(DynamicVariable::named("uuid"), None);
    assert_eq!(DynamicVariable::named("$uuid "), None);
    assert_eq!(DynamicVariable::named(""), None);
}

fn is_uuid_text(s: &str) -> bool {
    let chars: Vec<char> = s.chars().collect();
    chars.len() == 36
        && chars.iter().enumerate().all(|(i, c)| {
            if i == 8 || i == 13 || i == 18 || i == 23 {
                *c == '-'
            } else {
                c.is_ascii_digit() || ('a'..='f').contains(c)
            }
        })
}

#[test]
fn dynamic_values_have_their_form() {
    let s = store(&[("$uuid", "env"), ("$timestamp", "env"), ("$randomInt", "env")], &[], &[]);
    let uuid = s.substitute("{{$uuid}}").unwrap();
    assert!(is_uuid_text(&uuid), "{}", uuid);
    assert_eq!(uuid.chars().nth(14), Some('4'));
    let other = s.substitute("{{ $uuid }}").unwrap();
    assert!(is_uuid_text(&other), "{}", other);
    assert_ne!(uuid, other);

    let stamp = s.substitute("{{$timestamp}}").unwrap();
    let seconds: u64 = stamp.parse().unwrap();
    assert!(seconds > 1_600_000_000, "{}", stamp);
    assert_eq!(seconds.to_string(), stamp);

    for _ in 0..50 {
        let n = s.substitute("{{$randomInt}}").unwrap();
        let value: u32 = n.parse().unwrap();
        assert!(value < 1000, "{}", n);
        assert_eq!(value.to_string(), n);
    }

    let both = s.substitute("a-{{$randomInt}}-b-{{$timestamp}}-c").unwrap();
    let parts: Vec<&str> = both.split('-').collect();
    assert_eq!(parts.len(), 5);
    assert_eq!((parts[0], parts[2], parts[4]), ("a", "b", "c"));
    assert!(parts[1].parse::<u32>().unwrap() < 1000);
    assert!(parts[3].parse::<u64>().is_ok());
}

#[test]
fn generated_values_have_their_form() {
    assert!(is_uuid_text(&DynamicVariable::Uuid.generate()));
    assert!(DynamicVariable::Timestamp.generate().parse::<u64>().is_ok());
    assert!(DynamicVariable::RandomInt.generate().parse::<u32>().unwrap() < 1000);
}

#[test]
fn dynamic_values_from_given_clock_readings() {
    assert_eq!(timestamp_text(0), "0");
    assert_eq!(timestamp_text(1_700_000_000), "1700000000");
    assert_eq!(random_int_text(0), "0");
    assert_eq!(random_int_text(999), "999");
    assert_eq!(random_int_text(1000), "0");
    assert_eq!(random_int_text(123_456_789), "789");
    assert_eq!(random_int_text(999_999_999), "999");
    assert_eq!(random_int_text(5_007), "7");
}

fn seg(s: &Segment) -> (bool, String, String) {
    match s {
        Segment::Text(t) => (false, t.clone(), String::new()),
        Segment::Placeholder { whole, name } => (true, whole.clone(), name.clone()),
    }
}

#[test]
fn segments_of_a_text() {
    let found: Vec<(bool, String, String)> =
        segments_in("a{{ b }}c{{d}}").iter().map(seg).collect();
    assert_eq!(
        found,
        vec![
            (false, "a".to_string(), String::new()),
            (true, "{{ b }}".to_string(), "b".to_string()),
            (false, "c".to_string(), String::new()),
            (true, "{{d}}".to_string(), "d".to_string()),
        ]
    );
    assert!(segments_in("").is_empty());
    let only_text: Vec<(bool, String, String)> = segments_in("{{}}").iter().map(seg).collect();
    assert_eq!(only_text, vec![(false, "{{}}".to_string(), String::new())]);
}

#[test]
fn rendering_one_segment() {
    let s = store(&[("a", "1")], &[], &[]);
    assert_eq!(s.render(&Segment::Text("{{a}}".to_string())), "{{a}}");
    assert_eq!(
        s.render(&Segment::Placeholder { whole: "{{a}}".to_string(), name: "a".to_string() }),
        "1"
    );
    assert_eq!(
        s.render(&Segment::Placeholder { whole: "{{ b }}".to_string(), name: "b".to_string() }),
        "{{ b }}"
    );
}

#[test]
fn bindings_bind_each_name_once() {
    let mut b = Bindings::new();
    assert!(b.is_empty());
    assert_eq!(b.len(), 0);
    b.insert("a".to_string(), "1".to_string());
    b.insert("b".to_string(), "2".to_string());
    b.insert("a".to_string(), "3".to_string());
    assert!(!b.is_empty());
    assert_eq!(b.len(), 2);
    assert_eq!(b.get("a").map(|v| v.as_str()), Some("3"));
    assert_eq!(b.get("b").map(|v| v.as_str()), Some("2"));
    assert_eq!(b.get("c"), None);
    assert!(b.contains("a"));
    assert!(!b.contains("A"));
    let mut entries = b.entries().clone();
    entries.sort();
    assert_eq!(
        entries,
        vec![("a".to_string(), "3".to_string()), ("b".to_string(), "2".to_string())]
    );
}

#[test]
fn bindings_merge_and_copy() {
    let mut left = bindings(&[("a", "1"), ("b", "2")]);
    let right = bindings(&[("b", "20"), ("c", "30")]);
    let before = left.clone();
    left.merge(&right);
    assert_eq!(left.len(), 3);
    assert_eq!(left.get("a").map(|v| v.as_str()), Some("1"));
    assert_eq!(left.get("b").map(|v| v.as_str()), Some("20"));
    assert_eq!(left.get("c").map(|v| v.as_str()), Some("30"));
    assert_eq!(before.len(), 2);
    assert_eq!(before.get("b").map(|v| v.as_str()), Some("2"));
    assert_eq!(right.len(), 2);
}

#[test]
fn bindings_from_pairs_let_the_later_pair_win() {
    let pairs = vec![
        ("a".to_string(), "1".to_string()),
        ("b".to_string(), "2".to_string()),
        ("a".to_string(), "3".to_string()),
    ];
    let b = Bindings::from_pairs(&pairs);
    assert_eq!(b.len(), 2);
    assert_eq!(b.get("a").map(|v| v.as_str()), Some("3"));
    assert_eq!(b.get("b").map(|v| v.as_str()), Some("2"));
}

#[test]
fn declarations_of_a_file_are_set_in_their_order() {
    let mut s = store(&[("a", "env"), ("c", "env")], &[], &[("b", "before")]);
    s.declare(&vec![
        ("a".to_string(), "1".to_string()),
        ("b".to_string(), "2".to_string()),
        ("a".to_string(), "3".to_string()),
    ]);
    assert_eq!(s.substitute("{{a}}-{{b}}-{{c}}").unwrap(), "3-2-env");
    s.declare(&vec![]);
    assert_eq!(s.substitute("{{a}}-{{b}}-{{c}}").unwrap(), "3-2-env");
}

#[test]
fn a_clock_before_the_epoch_reads_as_the_epoch() {
    assert_eq!(clock_reading(None), (0, 0));
    assert_eq!(clock_reading(Some((0, 0))), (0, 0));
    assert_eq!(clock_reading(Some((1_700_000_000, 123_456_789))), (1_700_000_000, 123_456_789));
    assert_eq!(clock_reading(Some((u64::MAX, 999_999_999))), (u64::MAX, 999_999_999));
}
