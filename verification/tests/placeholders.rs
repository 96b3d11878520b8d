use emitter::placeholders::{find_placeholder, placeholder_name, substitute, Placeholder};

fn expand(text: &str, lookup: impl Fn(&str) -> Option<String>) -> String {
    let mut bytes = text.as_bytes().to_vec();
    while let Some(p) = find_placeholder(&bytes) {
        let name = String::from_utf8(placeholder_name(&bytes, p)).unwrap();
        let value = lookup(&name).unwrap_or_default();
        bytes = substitute(&bytes, p, &value.into_bytes());
    }
    String::from_utf8(bytes).unwrap()
}

#[test]
fn finds_the_first_placeholder() {
    let t = b"url: ${HOST}:${PORT}".to_vec();
    assert_eq!(find_placeholder(&t), Some(Placeholder { start: 5, end: 11 }));
    assert_eq!(placeholder_name(&t, Placeholder { start: 5, end: 11 }), b"HOST".to_vec());
    assert_eq!(find_placeholder(&b"no vars here".to_vec()), None);
    assert_eq!(find_placeholder(&b"open ${ but never closed".to_vec()), None);
    assert_eq!(find_placeholder(&b"}${X}".to_vec()), Some(Placeholder { start: 1, end: 4 }));
}

#[test]
fn substitutes_values_and_blanks_unknown_vars() {
    let lookup = |n: &str| match n {
        "HOST" => Some("db.local".to_string()),
        "PORT" => Some("5432".to_string()),
        _ => None,
    };
    assert_eq!(expand("url: ${HOST}:${PORT}/x", lookup), "url: db.local:5432/x");
    assert_eq!(expand("key: ${MISSING}!", lookup), "key: !");
    assert_eq!(expand("plain text", lookup), "plain text");
    assert_eq!(expand("tail ${OPEN", lookup), "tail ${OPEN");
    assert_eq!(expand("${}", lookup), "");
    assert_eq!(expand("é ${HOST} ü", lookup), "é db.local ü");
}

#[test]
fn substitute_keeps_surroundings() {
    let t = b"ab${X}cd".to_vec();
    let p = find_placeholder(&t).unwrap();
    assert_eq!(substitute(&t, p, &b"123".to_vec()), b"ab123cd".to_vec());
    assert_eq!(substitute(&t, p, &Vec::new()), b"abcd".to_vec());
}
