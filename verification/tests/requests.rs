use grazel::http::{answer, header, response_for};
use grazel::read_static;
use grazel::web::{reply, request_path, static_file, wanted_file, Reply};
use std::io::{Cursor, Read};

#[test]
fn static_rejects_traversal() {
    let ui = "/nonexistent-ui-root";
    assert_eq!(read_static(ui, "/../etc/passwd", None), None);
    assert_eq!(read_static(ui, "/a/../../b", None), None);
    assert_eq!(read_static(ui, "/", None), None); // index.html missing -> 404, not panic
    // Whatever was read, a path that escapes the root has no answer.
    assert_eq!(read_static(ui, "/../etc/passwd", Some(vec![1])), None);
    assert_eq!(read_static(ui, "/a/../../b", Some(vec![1])), None);
    assert_eq!(static_file(ui, "/../etc/passwd"), None);
    assert_eq!(static_file(ui, "/a/../../b"), None);
    assert_eq!(static_file(ui, "/"), Some("/nonexistent-ui-root/index.html".to_string()));
}

#[test]
fn static_serves_a_file() {
    let dir = "/tmp/grazel-static";
    assert_eq!(static_file(dir, "/"), Some("/tmp/grazel-static/index.html".to_string()));
    let (root, ct) = read_static(dir, "/", Some(b"<h1>hi</h1>".to_vec())).unwrap();
    assert_eq!(root, b"<h1>hi</h1>");
    assert_eq!(ct, "text/html; charset=utf-8");
    assert_eq!(static_file(dir, "/app.js"), Some("/tmp/grazel-static/app.js".to_string()));
    let (js, jct) = read_static(dir, "/app.js", Some(b"console.log(1)".to_vec())).unwrap();
    assert_eq!(js, b"console.log(1)");
    assert_eq!(jct, "text/javascript; charset=utf-8");
    assert_eq!(read_static(dir, "/missing.js", None), None);
}

#[test]
fn files_are_found_under_the_ui_directory() {
    assert_eq!(static_file("ui", "index.html"), Some("ui/index.html".to_string()));
    assert_eq!(static_file("ui/", "//a//b.css"), Some("ui/a//b.css".to_string()));
    assert_eq!(static_file("", "/x"), Some("x".to_string()));
    assert_eq!(static_file("ui", "/.hidden/..x"), Some("ui/.hidden/..x".to_string()));
    for path in ["", "//", "///", "/.", "/..", "/a/.", "/a/..", "/./a", "..", "a/../b"] {
        assert_eq!(static_file("ui", path), None, "{path:?}");
    }
}

#[test]
fn the_directory_has_no_say_in_the_type() {
    let (_, ct) = read_static("web.css", "/x", Some(vec![])).unwrap();
    assert_eq!(ct, "application/octet-stream");
    let (_, ct) = read_static("..", "/x.css/", Some(vec![])).unwrap();
    assert_eq!(ct, "text/css; charset=utf-8");
}

#[test]
fn queries_are_cut_off() {
    for url in ["", "/", "/a", "/a?", "/a?b?c", "?x", "/a#b?c"] {
        assert_eq!(request_path(url), url.split('?').next().unwrap());
    }
}

#[test]
fn the_document_is_no_file() {
    assert_eq!(wanted_file("ui", "/bootstrap.json?x=1"), None);
    assert_eq!(wanted_file("ui", "/a.js?x=1"), Some("ui/a.js".to_string()));
    assert_eq!(wanted_file("ui", "/../a.js"), None);
    assert_eq!(
        reply("{}", "ui", "/bootstrap.json?x", Some(vec![1])),
        Reply::Bootstrap("{}".to_string())
    );
    assert_eq!(reply("{}", "ui", "/a.js?x", Some(vec![1])), Reply::File(vec![1], "text/javascript; charset=utf-8"));
    assert_eq!(reply("{}", "ui", "/a.js", None), Reply::NotFound);
    assert_eq!(reply("{}", "ui", "/../a.js", Some(vec![1])), Reply::NotFound);
    assert_eq!(reply("{}", "ui", "//bootstrap.json", None), Reply::NotFound);
}

fn parts(response: tiny_http::Response<Cursor<Vec<u8>>>) -> (u16, Vec<(String, String)>, Vec<u8>) {
    let status = response.status_code().0;
    let headers = response
        .headers()
        .iter()
        .map(|h| (h.field.to_string(), h.value.to_string()))
        .collect();
    let mut body = Vec::new();
    response.into_reader().read_to_end(&mut body).unwrap();
    (status, headers, body)
}

fn typed(content_type: &str) -> Vec<(String, String)> {
    vec![("Content-Type".to_string(), content_type.to_string())]
}

#[test]
fn answers_become_messages() {
    assert_eq!(
        parts(answer("{\"é\":1}", "ui", "/bootstrap.json", None)),
        (200, typed("application/json"), "{\"é\":1}".as_bytes().to_vec())
    );
    assert_eq!(
        parts(answer("{}", "ui", "/x.svg?v=2", Some(vec![0, 255, 10]))),
        (200, typed("image/svg+xml"), vec![0, 255, 10])
    );
    assert_eq!(
        parts(answer("{}", "ui", "/x.svg", None)),
        (404, typed("text/plain; charset=UTF-8"), b"not found".to_vec())
    );
    assert_eq!(
        parts(answer("{}", "ui", "/../x.svg", Some(vec![1]))),
        (404, typed("text/plain; charset=UTF-8"), b"not found".to_vec())
    );
    assert_eq!(
        parts(response_for(Reply::File(vec![], "image/png"))),
        (200, typed("image/png"), vec![])
    );
}

#[test]
fn headers_hold_their_texts() {
    let h = header("X-Name", "a value");
    assert_eq!(h.field.as_str().as_str(), "X-Name");
    assert_eq!(h.value.as_str(), "a value");
    assert!(tiny_http::Header::from_bytes("X-Name".as_bytes(), "é".as_bytes()).is_err());
    assert!(tiny_http::Header::from_bytes("É".as_bytes(), "v".as_bytes()).is_err());
}
