//! What is served over HTTP: the session-placement document and the files of
//! the UI directory.

use crate::paths::{extension_of, join_path, joined, path_extension, segments, split_segments};
use crate::text::{characters, same_text, text_between, texts};
use vstd::prelude::*;

verus! {

// ---- content types --------------------------------------------------------

/// The content type that goes with a file extension.
pub open spec fn type_of_extension(extension: Option<Seq<char>>) -> Seq<char> {
    match extension {
        None => "application/octet-stream"@,
        Some(e) => if e == "html"@ || e == "htm"@ {
            "text/html; charset=utf-8"@
        } else if e == "js"@ || e == "mjs"@ {
            "text/javascript; charset=utf-8"@
        } else if e == "css"@ {
            "text/css; charset=utf-8"@
        } else if e == "json"@ || e == "map"@ {
            "application/json"@
        } else if e == "svg"@ {
            "image/svg+xml"@
        } else if e == "png"@ {
            "image/png"@
        } else if e == "ico"@ {
            "image/x-icon"@
        } else if e == "wasm"@ {
            "application/wasm"@
        } else {
            "application/octet-stream"@
        },
    }
}

/// The content type of a file, by its extension.
pub fn content_type(path: &str) -> (content_type: &'static str)
    ensures
        content_type@ == type_of_extension(extension_of(path@)),
{
    let extension = match path_extension(path) {
        Some(extension) => extension,
        None => {
            return "application/octet-stream";
        },
    };
    let e = extension.as_str();
    if same_text(e, "html") || same_text(e, "htm") {
        "text/html; charset=utf-8"
    } else if same_text(e, "js") || same_text(e, "mjs") {
        "text/javascript; charset=utf-8"
    } else if same_text(e, "css") {
        "text/css; charset=utf-8"
    } else if same_text(e, "json") || same_text(e, "map") {
        "application/json"
    } else if same_text(e, "svg") {
        "image/svg+xml"
    } else if same_text(e, "png") {
        "image/png"
    } else if same_text(e, "ico") {
        "image/x-icon"
    } else if same_text(e, "wasm") {
        "application/wasm"
    } else {
        "application/octet-stream"
    }
}

// ---- static files ---------------------------------------------------------

/// The text without the slashes that it begins with.
pub open spec fn without_leading_slashes(s: Seq<char>) -> Seq<char>
    decreases s.len(),
{
    if s.len() > 0 && s[0] == '/' {
        without_leading_slashes(s.skip(1))
    } else {
        s
    }
}

/// What a request path asks for, relative to the UI directory.
pub open spec fn requested(path: Seq<char>) -> Seq<char> {
    if path == "/"@ {
        "index.html"@
    } else {
        without_leading_slashes(path)
    }
}

/// Whether a relative path stays where it starts: it is not empty, and no
/// segment of it is the current or the parent directory.
pub open spec fn is_contained(relative: Seq<char>) -> bool {
    &&& relative.len() > 0
    &&& !segments(relative).contains("."@)
    &&& !segments(relative).contains(".."@)
}

/// The file that a request path names, if it names one inside the UI directory.
pub open spec fn file_for(ui: Seq<char>, path: Seq<char>) -> Option<Seq<char>> {
    if is_contained(requested(path)) {
        Some(joined(ui, requested(path)))
    } else {
        None
    }
}

/// Finds what a request path asks for, relative to the UI directory.
fn requested_path(path: &str) -> (relative: String)
    ensures
        relative@ == requested(path@),
{
    if same_text(path, "/") {
        return "index.html".to_owned();
    }
    let chars = characters(path);
    let mut i: usize = 0;
    assert(path@.skip(0) =~= path@);
    while i < chars.len() && chars[i] == '/'
        invariant
            chars@ == path@,
            i <= chars@.len(),
            without_leading_slashes(path@) == without_leading_slashes(path@.skip(i as int)),
        decreases chars@.len() - i,
    {
        assert(path@.skip(i as int).skip(1) =~= path@.skip(i + 1));
        i = i + 1;
    }
    let relative = text_between(&chars, i, chars.len());
    assert(relative@ =~= path@.skip(i as int));
    relative
}

/// Tests whether a relative path stays where it starts.
fn stays_inside(relative: &str) -> (inside: bool)
    ensures
        inside == is_contained(relative@),
{
    if relative.is_empty() {
        return false;
    }
    let parts = split_segments(relative);
    let ghost all = segments(relative@);
    let mut i: usize = 0;
    while i < parts.len()
        invariant
            i <= parts@.len(),
            all == segments(relative@),
            texts(parts@) == all,
            forall|k: int| 0 <= k < i ==> all[k] != "."@ && all[k] != ".."@,
        decreases parts@.len() - i,
    {
        assert(all[i as int] == parts@[i as int]@);
        if same_text(parts[i].as_str(), ".") || same_text(parts[i].as_str(), "..") {
            assert(all.contains(all[i as int]));
            return false;
        }
        i = i + 1;
    }
    true
}

/// Finds the file under the UI directory that a request path names. `/` names
/// `index.html`. A path that could leave the directory names none.
pub fn static_file(ui: &str, path: &str) -> (file: Option<String>)
    ensures
        match file {
            Some(file) => file_for(ui@, path@) == Some(file@),
            None => file_for(ui@, path@) is None,
        },
{
    let relative = requested_path(path);
    if stays_inside(relative.as_str()) {
        Some(join_path(ui, relative.as_str()))
    } else {
        None
    }
}

/// What a request path is answered, where `contents` is what the file that
/// [`static_file`] finds for it holds, if that file could be read. The answer is
/// the file's bytes and their content type; without one the path is not found.
pub fn read_static(ui: &str, path: &str, contents: Option<Vec<u8>>) -> (answer: Option<
    (Vec<u8>, &'static str),
>)
    ensures
        match answer {
            Some((bytes, content_type)) => file_for(ui@, path@) is Some && contents == Some(bytes)
                && content_type@ == type_of_extension(extension_of(file_for(ui@, path@)->0)),
            None => file_for(ui@, path@) is None || contents is None,
        },
{
    match (static_file(ui, path), contents) {
        (Some(file), Some(bytes)) => Some((bytes, content_type(file.as_str()))),
        _ => None,
    }
}

// ---- requests -------------------------------------------------------------

/// The path of a request: its URL up to the query.
pub open spec fn path_of_url(url: Seq<char>) -> Seq<char> {
    match url.index_of_first('?') {
        Some(query) => url.take(query),
        None => url,
    }
}

/// Cuts the query off a request's URL.
pub fn request_path(url: &str) -> (path: String)
    ensures
        path@ == path_of_url(url@),
{
    let chars = characters(url);
    proof {
        url@.index_of_first_ensures('?');
    }
    let ghost query = url@.index_of_first('?');
    let mut i: usize = 0;
    while i < chars.len() && chars[i] != '?'
        invariant
            chars@ == url@,
            i <= chars@.len(),
            forall|k: int| 0 <= k < i ==> url@[k] != '?',
        decreases chars@.len() - i,
    {
        i = i + 1;
    }
    let path = text_between(&chars, 0, i);
    assert(path@ =~= url@.take(i as int));
    if i < chars.len() {
        assert(url@.contains(url@[i as int]));
        assert(query == Some(i as int));
    } else {
        assert(url@.take(i as int) =~= url@);
    }
    path
}

/// What a request is answered.
#[derive(Debug, PartialEq, Eq)]
pub enum Reply {
    /// The session-placement document.
    Bootstrap(String),
    /// A file of the UI directory and its content type.
    File(Vec<u8>, &'static str),
    /// There is no such thing.
    NotFound,
}

/// The file that answers a request, if one does. The session-placement document
/// is no file.
pub open spec fn wanted(ui: Seq<char>, url: Seq<char>) -> Option<Seq<char>> {
    if path_of_url(url) == "/bootstrap.json"@ {
        None
    } else {
        file_for(ui, path_of_url(url))
    }
}

/// Finds the file to read before a request can be answered.
pub fn wanted_file(ui: &str, url: &str) -> (file: Option<String>)
    ensures
        match file {
            Some(file) => wanted(ui@, url@) == Some(file@),
            None => wanted(ui@, url@) is None,
        },
{
    let path = request_path(url);
    if same_text(path.as_str(), "/bootstrap.json") {
        None
    } else {
        static_file(ui, path.as_str())
    }
}

/// Answers a request, where `contents` is what the file that [`wanted_file`]
/// finds for it holds, if that file could be read.
pub fn reply(bootstrap: &str, ui: &str, url: &str, contents: Option<Vec<u8>>) -> (reply: Reply)
    ensures
        match reply {
            Reply::Bootstrap(body) => path_of_url(url@) == "/bootstrap.json"@ && body@
                == bootstrap@,
            Reply::File(bytes, content_type) => wanted(ui@, url@) is Some && contents == Some(bytes)
                && content_type@ == type_of_extension(extension_of(wanted(ui@, url@)->0)),
            Reply::NotFound => path_of_url(url@) != "/bootstrap.json"@ && (wanted(
                ui@,
                url@,
            ) is None || contents is None),
        },
{
    let path = request_path(url);
    if same_text(path.as_str(), "/bootstrap.json") {
        return Reply::Bootstrap(bootstrap.to_owned());
    }
    match read_static(ui, path.as_str(), contents) {
        Some((bytes, content_type)) => Reply::File(bytes, content_type),
        None => Reply::NotFound,
    }
}

} // verus!
