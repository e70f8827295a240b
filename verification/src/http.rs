//! Answers as messages of the HTTP server.

use crate::paths::extension_of;
use crate::web::{path_of_url, reply, type_of_extension, wanted, Reply};
use vstd::prelude::*;

verus! {

// ---- the server's headers and messages ------------------------------------

/// `tiny_http`'s header.
#[verifier::external_type_specification]
#[verifier::external_body]
pub struct ExHeader(tiny_http::Header);

/// `std`'s cursor, from which a message's body is read.
#[verifier::external_type_specification]
#[verifier::external_body]
#[verifier::reject_recursive_types(T)]
pub struct ExCursor<T>(std::io::Cursor<T>);

/// `tiny_http`'s message.
#[verifier::external_type_specification]
#[verifier::external_body]
#[verifier::reject_recursive_types(R)]
pub struct ExResponse<R>(tiny_http::Response<R>);

/// The field and the value that a header holds.
pub uninterp spec fn header_text(header: tiny_http::Header) -> (Seq<char>, Seq<char>);

/// What an HTTP message holds: its status, its headers as fields and values in
/// order, and the bytes of its body.
#[verifier::ext_equal]
pub struct Message {
    pub status: u16,
    pub headers: Seq<(Seq<char>, Seq<char>)>,
    pub body: Seq<u8>,
}

/// What a message of the server holds.
pub uninterp spec fn message_of(
    response: tiny_http::Response<std::io::Cursor<Vec<u8>>>,
) -> Message;

/// `tiny_http::Header::from_bytes`: a header that holds the two texts as they
/// are. It is refused exactly where one of them is not ASCII.
#[verifier::external_body]
fn header_from_text(field: &str, value: &str) -> (made: Result<tiny_http::Header, ()>)
    ensures
        match made {
            Ok(header) => vstd::utf8::is_ascii_chars(field@) && vstd::utf8::is_ascii_chars(value@)
                && header_text(header) == (field@, value@),
            Err(_) => !vstd::utf8::is_ascii_chars(field@) || !vstd::utf8::is_ascii_chars(value@),
        },
{
    tiny_http::Header::from_bytes(field.as_bytes(), value.as_bytes())
}

/// `tiny_http::Response::from_string`: status 200, a plain text content type,
/// and the text in UTF-8 as the body.
#[verifier::external_body]
fn text_response(text: &str) -> (response: tiny_http::Response<std::io::Cursor<Vec<u8>>>)
    ensures
        message_of(response) == (Message {
            status: 200,
            headers: seq![("Content-Type"@, "text/plain; charset=UTF-8"@)],
            body: vstd::utf8::encode_utf8(text@),
        }),
{
    tiny_http::Response::from_string(text)
}

/// `tiny_http::Response::from_data`: status 200, no headers, the bytes as the
/// body.
#[verifier::external_body]
fn data_response(bytes: Vec<u8>) -> (response: tiny_http::Response<std::io::Cursor<Vec<u8>>>)
    ensures
        message_of(response) == (Message { status: 200, headers: seq![], body: bytes@ }),
{
    tiny_http::Response::from_data(bytes)
}

/// `tiny_http::Response::with_header` for a content type: it replaces the
/// content type that the message has, or becomes the first header. The rest of
/// the message stays.
#[verifier::external_body]
fn with_content_type(
    response: tiny_http::Response<std::io::Cursor<Vec<u8>>>,
    header: tiny_http::Header,
) -> (changed: tiny_http::Response<std::io::Cursor<Vec<u8>>>)
    requires
        ({
            let (field, value) = header_text(header);
            field == "Content-Type"@
        }),
        message_of(response).headers.len() <= 1,
        forall|i: int|
            0 <= i < message_of(response).headers.len() ==> ({
                let (field, value) = #[trigger] message_of(response).headers[i];
                field == "Content-Type"@
            }),
    ensures
        message_of(changed) == (Message {
            headers: seq![header_text(header)],
            ..message_of(response)
        }),
{
    response.with_header(header)
}

/// `tiny_http::Response::with_status_code`: the status is replaced, the rest of
/// the message stays.
#[verifier::external_body]
fn with_status(
    response: tiny_http::Response<std::io::Cursor<Vec<u8>>>,
    status: u16,
) -> (changed: tiny_http::Response<std::io::Cursor<Vec<u8>>>)
    ensures
        message_of(changed) == (Message { status, ..message_of(response) }),
{
    response.with_status_code(status)
}

// ---- answers --------------------------------------------------------------

/// A header made of two texts.
pub fn header(k: &str, v: &str) -> (header: tiny_http::Header)
    requires
        vstd::utf8::is_ascii_chars(k@),
        vstd::utf8::is_ascii_chars(v@),
    ensures
        header_text(header) == (k@, v@),
{
    header_from_text(k, v).expect("valid header")
}

/// The message that an answer is sent as.
pub open spec fn message_for(reply: Reply) -> Message {
    match reply {
        Reply::Bootstrap(body) => Message {
            status: 200,
            headers: seq![("Content-Type"@, "application/json"@)],
            body: vstd::utf8::encode_utf8(body@),
        },
        Reply::File(bytes, content_type) => Message {
            status: 200,
            headers: seq![("Content-Type"@, content_type@)],
            body: bytes@,
        },
        Reply::NotFound => Message {
            status: 404,
            headers: seq![("Content-Type"@, "text/plain; charset=UTF-8"@)],
            body: vstd::utf8::encode_utf8("not found"@),
        },
    }
}

/// Turns an answer into the message that is sent.
pub fn response_for(reply: Reply) -> (response: tiny_http::Response<std::io::Cursor<Vec<u8>>>)
    requires
        reply is File ==> vstd::utf8::is_ascii_chars(reply->File_1@),
    ensures
        message_of(response) == message_for(reply),
{
    proof {
        reveal_strlit("Content-Type");
        reveal_strlit("application/json");
    }
    match reply {
        Reply::Bootstrap(body) => with_content_type(
            text_response(body.as_str()),
            header("Content-Type", "application/json"),
        ),
        Reply::File(bytes, content_type) => with_content_type(
            data_response(bytes),
            header("Content-Type", content_type),
        ),
        Reply::NotFound => with_status(text_response("not found"), 404),
    }
}

/// Every content type is ASCII, so that it can stand in a header.
pub proof fn content_types_are_ascii(extension: Option<Seq<char>>)
    ensures
        vstd::utf8::is_ascii_chars(type_of_extension(extension)),
{
    reveal_strlit("application/octet-stream");
    reveal_strlit("text/html; charset=utf-8");
    reveal_strlit("text/javascript; charset=utf-8");
    reveal_strlit("text/css; charset=utf-8");
    reveal_strlit("application/json");
    reveal_strlit("image/svg+xml");
    reveal_strlit("image/png");
    reveal_strlit("image/x-icon");
    reveal_strlit("application/wasm");
}

/// The message that answers a request, where `contents` is what the wanted file
/// holds, if there is one and it could be read.
pub open spec fn answer_to(
    bootstrap: Seq<char>,
    ui: Seq<char>,
    url: Seq<char>,
    contents: Option<Seq<u8>>,
) -> Message {
    if path_of_url(url) == "/bootstrap.json"@ {
        Message {
            status: 200,
            headers: seq![("Content-Type"@, "application/json"@)],
            body: vstd::utf8::encode_utf8(bootstrap),
        }
    } else if wanted(ui, url) is Some && contents is Some {
        Message {
            status: 200,
            headers: seq![("Content-Type"@, type_of_extension(extension_of(wanted(ui, url)->0)))],
            body: contents->0,
        }
    } else {
        Message {
            status: 404,
            headers: seq![("Content-Type"@, "text/plain; charset=UTF-8"@)],
            body: vstd::utf8::encode_utf8("not found"@),
        }
    }
}

/// Answers a request with the message that is sent, where `contents` is what
/// the file that [`wanted_file`](crate::web::wanted_file) finds for it holds, if
/// that file could be read.
pub fn answer(bootstrap: &str, ui: &str, url: &str, contents: Option<Vec<u8>>) -> (response:
    tiny_http::Response<std::io::Cursor<Vec<u8>>>)
    ensures
        message_of(response) == answer_to(
            bootstrap@,
            ui@,
            url@,
            match contents {
                Some(bytes) => Some(bytes@),
                None => None,
            },
        ),
{
    proof {
        content_types_are_ascii(extension_of(wanted(ui@, url@)->0));
    }
    let answered = reply(bootstrap, ui, url, contents);
    response_for(answered)
}

} // verus!
