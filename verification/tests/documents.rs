use grazel::bootstrap::node_ws_url;
use grazel::{bootstrap_json, json_escape};

#[test]
fn bootstrap_json_shape() {
    assert_eq!(
        bootstrap_json(9099, "both", "grazel"),
        r#"{"node_ws":"ws://127.0.0.1:9099","mode":"both","name":"grazel"}"#
    );
}

#[test]
fn bootstrap_json_escapes_name() {
    let j = bootstrap_json(1, "local", "a\"b\\c");
    assert!(j.contains(r#""name":"a\"b\\c""#), "{j}");
}

#[test]
fn control_characters_are_escaped() {
    assert_eq!(json_escape("\u{0}\u{8}\u{c}\u{1f}"), "\\u0000\\u0008\\u000c\\u001f");
    assert_eq!(json_escape("a\nb\rc\td"), "a\\nb\\rc\\td");
    assert_eq!(json_escape("\"\\"), "\\\"\\\\");
    assert_eq!(json_escape(""), "");
    // The rest stands for itself, DEL, slashes and what is not ASCII with it.
    assert_eq!(json_escape("/\u{7f}é\u{1f600}"), "/\u{7f}é\u{1f600}");
    for n in 0u32..0x20 {
        let c = char::from_u32(n).unwrap();
        assert!(json_escape(&c.to_string()).chars().all(|e| e >= ' '));
    }
}

/// Reads a JSON string from behind its opening quote.
fn read_back(text: &str) -> (String, String) {
    let mut held = String::new();
    let mut rest = text.chars();
    loop {
        match rest.next().unwrap() {
            '"' => return (held, rest.collect()),
            '\\' => match rest.next().unwrap() {
                'n' => held.push('\n'),
                'r' => held.push('\r'),
                't' => held.push('\t'),
                'u' => {
                    let digits: String = (0..4).map(|_| rest.next().unwrap()).collect();
                    held.push(char::from_u32(u32::from_str_radix(&digits, 16).unwrap()).unwrap());
                }
                c => held.push(c),
            },
            c => held.push(c),
        }
    }
}

#[test]
fn escaped_text_is_read_back() {
    for text in ["", "plain", "\"", "\\", "\\\"", "\\n", "\n\r\t\u{0}\u{1f}", "mixed \"q\" \\ \u{7} é"] {
        let written = format!("{}\" and more", json_escape(text));
        assert_eq!(read_back(&written), (text.to_string(), " and more".to_string()));
    }
}

#[test]
fn the_document_is_read_back() {
    let name = "na\"me\\\n\",\"name\":\"x";
    let body = bootstrap_json(65535, "peer", name);
    let rest = body.strip_prefix("{\"node_ws\":\"").unwrap();
    let (url, rest) = read_back(rest);
    let (mode, rest) = read_back(rest.strip_prefix(",\"mode\":\"").unwrap());
    let (read_name, rest) = read_back(rest.strip_prefix(",\"name\":\"").unwrap());
    assert_eq!(url, "ws://127.0.0.1:65535");
    assert_eq!(mode, "peer");
    assert_eq!(read_name, name);
    assert_eq!(rest, "}");
}

#[test]
fn addresses_carry_the_port() {
    for port in [0u16, 7, 10, 9099, 10000, 65535] {
        assert_eq!(node_ws_url(port), format!("ws://127.0.0.1:{port}"));
    }
}
