//! What holds of every request.

use crate::bootstrap::{document, node_url};
use crate::bootstrap_laws::{document_reads_back, read_document};
use crate::http::{answer_to, message_for, Message};
use crate::mode::Mode;
use crate::paths::{
    extension_of, joined, lemma_first_segment, lemma_named_segments_behind, lemma_named_segments_of_joined,
    lemma_one_segment, lemma_segments_around_separator, lemma_segments_nonempty, named_segments, names_something,
    segments,
};
use crate::paths_laws::joined_names_are_the_segments;
use crate::text::joined_texts;
use crate::web::{
    file_for, is_contained, path_of_url, requested, type_of_extension, wanted, without_leading_slashes, Reply,
};
use vstd::prelude::*;

verus! {

proof fn lemma_stripped(s: Seq<char>)
    ensures
        without_leading_slashes(s).len() > 0 ==> without_leading_slashes(s)[0] != '/',
    decreases s.len(),
{
    if s.len() > 0 && s[0] == '/' {
        lemma_stripped(s.skip(1));
    }
}

proof fn lemma_requested_is_relative(path: Seq<char>)
    ensures
        requested(path).len() > 0 ==> requested(path)[0] != '/',
{
    reveal_strlit("index.html");
    lemma_stripped(path);
}

proof fn lemma_contained_segments(relative: Seq<char>)
    requires
        is_contained(relative),
        relative[0] != '/',
    ensures
        named_segments(relative).len() > 0,
        !named_segments(relative).contains(".."@),
{
    let all = segments(relative);
    let keep = |segment: Seq<char>| names_something(segment);
    lemma_segments_nonempty(relative);
    lemma_first_segment(relative);
    assert(all.contains(all[0]));
    assert(keep(all[0]));
    all.lemma_filter_contains(keep, 0);
    assert(named_segments(relative).contains(all[0]));
    if named_segments(relative).contains(".."@) {
        all.lemma_filter_contains_rev(keep, ".."@);
    }
}

/// A file that is served lies under the UI directory: its path begins with the
/// directory's, names something below it, and never steps up from there.
pub proof fn served_files_lie_under_the_ui_directory(ui: Seq<char>, path: Seq<char>)
    requires
        file_for(ui, path) is Some,
    ensures
        ui.is_prefix_of(file_for(ui, path)->0),
        named_segments(ui).is_prefix_of(named_segments(file_for(ui, path)->0)),
        named_segments(file_for(ui, path)->0).len() > named_segments(ui).len(),
        forall|i: int|
            named_segments(ui).len() <= i < named_segments(file_for(ui, path)->0).len() ==> (
            #[trigger] named_segments(file_for(ui, path)->0)[i]) != ".."@,
{
    let file = file_for(ui, path)->0;
    let relative = requested(path);
    lemma_requested_is_relative(path);
    lemma_contained_segments(relative);
    lemma_named_segments_of_joined(ui, relative);
    let above = named_segments(ui);
    let below = named_segments(relative);
    assert(ui =~= file.subrange(0, ui.len() as int));
    assert(above =~= named_segments(file).subrange(0, above.len() as int));
    assert forall|i: int| above.len() <= i < named_segments(file).len() implies (
    #[trigger] named_segments(file)[i]) != ".."@ by {
        assert(named_segments(file)[i] == below[i - above.len()]);
        assert(below.contains(below[i - above.len()]));
    }
}

proof fn lemma_stripping_keeps_segments(s: Seq<char>, segment: Seq<char>)
    requires
        segments(s).contains(segment),
        segment.len() > 0,
    ensures
        segments(without_leading_slashes(s)).contains(segment),
    decreases s.len(),
{
    if s.len() > 0 && s[0] == '/' {
        let rest = s.skip(1);
        let nothing = Seq::<char>::empty();
        assert(s =~= nothing.push('/') + rest);
        lemma_segments_around_separator(nothing, rest);
        let at = choose|i: int| 0 <= i < segments(s).len() && segments(s)[i] == segment;
        assert(at > 0);
        assert(segments(rest)[at - 1] == segment);
        lemma_stripping_keeps_segments(rest, segment);
    }
}

/// A path with a `.` or `..` segment anywhere in it names no file, whatever the
/// disk holds.
pub proof fn traversal_is_refused(ui: Seq<char>, path: Seq<char>)
    requires
        segments(path).contains("."@) || segments(path).contains(".."@),
    ensures
        file_for(ui, path) is None,
{
    reveal_strlit(".");
    reveal_strlit("..");
    reveal_strlit("/");
    let segment = if segments(path).contains("."@) {
        "."@
    } else {
        ".."@
    };
    lemma_stripping_keeps_segments(path, segment);
    if path == "/"@ {
        reveal_with_fuel(without_leading_slashes, 2);
        assert(path.skip(1).len() == 0);
        assert(segments(without_leading_slashes(path)) == seq![Seq::<char>::empty()]);
        assert(seq![Seq::<char>::empty()][0].len() == 0);
        assert(false);
    }
}

/// A request that steps out of the UI directory is not found, whatever the disk
/// holds.
pub proof fn traversal_is_not_found(
    bootstrap: Seq<char>,
    ui: Seq<char>,
    url: Seq<char>,
    contents: Option<Seq<u8>>,
)
    requires
        segments(path_of_url(url)).contains("."@) || segments(path_of_url(url)).contains(".."@),
    ensures
        answer_to(bootstrap, ui, url, contents).status == 404,
{
    traversal_is_refused(ui, path_of_url(url));
    reveal_strlit("/bootstrap.json");
    reveal_strlit("bootstrap.json");
    reveal_strlit(".");
    reveal_strlit("..");
    if path_of_url(url) == "/bootstrap.json"@ {
        let name = "bootstrap.json"@;
        let nothing = Seq::<char>::empty();
        assert("/bootstrap.json"@ =~= nothing.push('/') + name);
        lemma_segments_around_separator(nothing, name);
        lemma_one_segment(name);
        assert(segments("/bootstrap.json"@) =~= seq![nothing, name]);
        assert(nothing.len() == 0 && name.len() == 14 && "."@.len() == 1 && ".."@.len() == 2);
        assert(false);
    }
}

/// The UI directory has no say in the content type: it goes by the requested
/// name alone.
pub proof fn content_type_goes_by_the_requested_name(ui: Seq<char>, path: Seq<char>)
    requires
        file_for(ui, path) is Some,
    ensures
        extension_of(file_for(ui, path)->0) == extension_of(requested(path)),
{
    let relative = requested(path);
    lemma_requested_is_relative(path);
    lemma_contained_segments(relative);
    lemma_named_segments_of_joined(ui, relative);
    assert((named_segments(ui) + named_segments(relative)).last() == named_segments(
        relative,
    ).last());
}

/// A request for the session-placement document is answered with it, with or
/// without a query and whatever the disk holds; and whoever reads the body gets
/// the node's address, the mode and the name.
pub proof fn session_placement_is_served(
    port: u16,
    mode: Mode,
    name: Seq<char>,
    ui: Seq<char>,
    url: Seq<char>,
    contents: Option<Seq<u8>>,
)
    requires
        path_of_url(url) == "/bootstrap.json"@,
    ensures
        ({
            let answer = answer_to(document(port, mode.name(), name), ui, url, contents);
            &&& answer.status == 200
            &&& answer.headers == seq![("Content-Type"@, "application/json"@)]
            &&& vstd::utf8::valid_utf8(answer.body)
            &&& read_document(vstd::utf8::decode_utf8(answer.body)) == Some(
                (node_url(port), mode.name(), name),
            )
        }),
{
    let body = document(port, mode.name(), name);
    vstd::utf8::encode_utf8_valid_utf8(body);
    vstd::utf8::encode_utf8_decode_utf8(body);
    document_reads_back(port, mode.name(), name);
}

/// The query of a request has no say in the answer.
pub proof fn query_is_ignored(ui: Seq<char>, path: Seq<char>, query: Seq<char>)
    requires
        !path.contains('?'),
    ensures
        path_of_url(path + seq!['?'] + query) == path,
        path_of_url(path) == path,
        wanted(ui, path + seq!['?'] + query) == wanted(ui, path),
{
    let url = path + seq!['?'] + query;
    url.index_of_first_ensures('?');
    path.index_of_first_ensures('?');
    assert(url[path.len() as int] == '?');
    assert(url.contains('?'));
    let first = url.index_of_first('?')->0;
    if first < path.len() {
        assert(path[first] == '?');
    }
    assert(first == path.len());
    assert(url.take(first) =~= path);
}

// ---- which file a request names -------------------------------------------

/// So many slashes.
pub open spec fn slashes(n: nat) -> Seq<char> {
    Seq::new(n, |i: int| '/')
}

proof fn lemma_slashes_are_stripped(n: nat, rest: Seq<char>)
    requires
        rest.len() == 0 || rest[0] != '/',
    ensures
        without_leading_slashes(slashes(n) + rest) == rest,
    decreases n,
{
    let path = slashes(n) + rest;
    if n == 0 {
        assert(path =~= rest);
    } else {
        assert(path[0] == '/');
        assert(path.skip(1) =~= slashes((n - 1) as nat) + rest);
        lemma_slashes_are_stripped((n - 1) as nat, rest);
    }
}

/// A path without `.` and `..` segments names the file of that path under the UI
/// directory, however deep it lies and however many slashes the path begins
/// with. The file's named segments are the directory's and then the path's.
pub proof fn clean_paths_name_their_files(ui: Seq<char>, relative: Seq<char>, n: nat)
    requires
        relative.len() > 0,
        relative[0] != '/',
        !segments(relative).contains("."@),
        !segments(relative).contains(".."@),
    ensures
        file_for(ui, seq!['/'] + relative) == Some(joined(ui, relative)),
        file_for(ui, slashes(n) + relative) == Some(joined(ui, relative)),
        named_segments(joined(ui, relative)) == named_segments(ui) + named_segments(relative),
{
    reveal_strlit("/");
    lemma_slashes_are_stripped(n, relative);
    lemma_slashes_are_stripped(1, relative);
    assert(slashes(1) + relative =~= seq!['/'] + relative);
    let path = slashes(n) + relative;
    assert((seq!['/'] + relative)[1] == relative[0]);
    assert(path[n as int] == relative[0]);
    assert("/"@.len() == 1 && "/"@[0] == '/');
    lemma_named_segments_of_joined(ui, relative);
}

/// A path made of names is looked up name by name below the UI directory,
/// however many names there are.
pub proof fn names_are_looked_up_one_by_one(ui: Seq<char>, names: Seq<Seq<char>>)
    requires
        names.len() > 0,
        forall|i: int|
            0 <= i < names.len() ==> !(#[trigger] names[i]).contains('/') && names[i].len() > 0
                && names[i] != "."@ && names[i] != ".."@,
    ensures
        file_for(ui, seq!['/'] + joined_texts(names, '/')) is Some,
        ui.is_prefix_of(file_for(ui, seq!['/'] + joined_texts(names, '/'))->0),
        named_segments(file_for(ui, seq!['/'] + joined_texts(names, '/'))->0) == named_segments(ui)
            + names,
{
    let relative = joined_texts(names, '/');
    joined_names_are_the_segments(names);
    lemma_joined_names_begin_with_the_first(names);
    assert(names[0].contains(names[0][0]));
    clean_paths_name_their_files(ui, relative, 1);
    served_files_lie_under_the_ui_directory(ui, seq!['/'] + relative);
    let keep = |segment: Seq<char>| names_something(segment);
    assert(names.filter(keep) =~= names) by {
        lemma_all_are_kept(names);
    }
}

proof fn lemma_joined_names_begin_with_the_first(names: Seq<Seq<char>>)
    requires
        names.len() > 0,
        names[0].len() > 0,
    ensures
        joined_texts(names, '/').len() > 0,
        joined_texts(names, '/')[0] == names[0][0],
    decreases names.len(),
{
    if names.len() > 1 {
        lemma_joined_names_begin_with_the_first(names.drop_last());
    }
}

proof fn lemma_all_are_kept(names: Seq<Seq<char>>)
    requires
        forall|i: int| 0 <= i < names.len() ==> (#[trigger] names[i]).len() > 0 && names[i] != "."@,
    ensures
        names.filter(|segment: Seq<char>| names_something(segment)) == names,
    decreases names.len(),
{
    reveal(Seq::filter);
    if names.len() > 0 {
        let front = names.drop_last();
        assert forall|i: int| 0 <= i < front.len() implies (#[trigger] front[i]).len() > 0
            && front[i] != "."@ by {
            assert(front[i] == names[i]);
        }
        lemma_all_are_kept(front);
        assert(front.push(names[names.len() - 1]) =~= names);
    }
}

/// The root names the index, and slashes alone name nothing else.
pub proof fn root_names_the_index(ui: Seq<char>, n: nat)
    ensures
        file_for(ui, seq!['/']) == Some(joined(ui, "index.html"@)),
        named_segments(joined(ui, "index.html"@)) == named_segments(ui).push("index.html"@),
        n != 1 ==> file_for(ui, slashes(n)) is None,
{
    reveal_strlit("/");
    reveal_strlit("index.html");
    reveal_strlit(".");
    reveal_strlit("..");
    let index = "index.html"@;
    lemma_one_segment(index);
    assert(seq![index][0].len() == 10);
    assert("/"@ =~= seq!['/']);
    assert("."@.len() == 1 && ".."@.len() == 2);
    lemma_named_segments_behind(ui, index);
    lemma_slashes_are_stripped(n, Seq::empty());
    assert(slashes(n) + Seq::<char>::empty() =~= slashes(n));
    if n != 1 {
        assert(slashes(n) != "/"@);
    }
}

/// A request for a clean path wants the file of that path, with or without a
/// query; a request for the session-placement document wants none.
pub proof fn clean_requests_want_their_files(
    ui: Seq<char>,
    relative: Seq<char>,
    query: Seq<char>,
)
    requires
        relative.len() > 0,
        relative[0] != '/',
        !relative.contains('?'),
        !segments(relative).contains("."@),
        !segments(relative).contains(".."@),
    ensures
        relative != "bootstrap.json"@ ==> {
            &&& wanted(ui, seq!['/'] + relative) == Some(joined(ui, relative))
            &&& wanted(ui, seq!['/'] + relative + seq!['?'] + query) == Some(joined(ui, relative))
        },
        relative == "bootstrap.json"@ ==> {
            &&& wanted(ui, seq!['/'] + relative) is None
            &&& wanted(ui, seq!['/'] + relative + seq!['?'] + query) is None
        },
        wanted(ui, seq!['/']) == Some(joined(ui, "index.html"@)),
        wanted(ui, seq!['/', '?'] + query) == Some(joined(ui, "index.html"@)),
{
    reveal_strlit("/bootstrap.json");
    reveal_strlit("bootstrap.json");
    let path = seq!['/'] + relative;
    assert forall|i: int| 0 <= i < path.len() implies path[i] != '?' by {
        if i > 0 {
            assert(relative.contains(relative[i - 1]));
        }
    }
    query_is_ignored(ui, path, query);
    clean_paths_name_their_files(ui, relative, 1);
    assert("/bootstrap.json"@ =~= seq!['/'] + "bootstrap.json"@);
    if path == "/bootstrap.json"@ {
        assert(path.skip(1) =~= relative);
        assert("/bootstrap.json"@.skip(1) =~= "bootstrap.json"@);
    }
    let root = seq!['/'];
    query_is_ignored(ui, root, query);
    root_names_the_index(ui, 0);
    assert(root + seq!['?'] + query =~= seq!['/', '?'] + query);
    assert(root.len() != "/bootstrap.json"@.len());
}

/// Every request wants the file that its path names, but for the one path under
/// which the session-placement document stands. A path is spelled as it comes:
/// an extra slash makes another path.
pub proof fn requests_want_what_their_paths_name(ui: Seq<char>, url: Seq<char>)
    ensures
        path_of_url(url) != "/bootstrap.json"@ ==> wanted(ui, url) == file_for(
            ui,
            path_of_url(url),
        ),
        path_of_url(url) == "/bootstrap.json"@ ==> wanted(ui, url) is None,
{
}

// ---- what a request is answered -------------------------------------------

/// The content type that goes with an extension, letter for letter; whatever has
/// another extension or none is served as bytes.
pub proof fn content_types_go_by_the_extension(e: Seq<char>)
    ensures
        type_of_extension(Some("html"@)) == "text/html; charset=utf-8"@,
        type_of_extension(Some("htm"@)) == "text/html; charset=utf-8"@,
        type_of_extension(Some("js"@)) == "text/javascript; charset=utf-8"@,
        type_of_extension(Some("mjs"@)) == "text/javascript; charset=utf-8"@,
        type_of_extension(Some("css"@)) == "text/css; charset=utf-8"@,
        type_of_extension(Some("json"@)) == "application/json"@,
        type_of_extension(Some("map"@)) == "application/json"@,
        type_of_extension(Some("svg"@)) == "image/svg+xml"@,
        type_of_extension(Some("png"@)) == "image/png"@,
        type_of_extension(Some("ico"@)) == "image/x-icon"@,
        type_of_extension(Some("wasm"@)) == "application/wasm"@,
        type_of_extension(None) == "application/octet-stream"@,
        e != "html"@ && e != "htm"@ && e != "js"@ && e != "mjs"@ && e != "css"@ && e != "json"@ && e
            != "map"@ && e != "svg"@ && e != "png"@ && e != "ico"@ && e != "wasm"@
            ==> type_of_extension(Some(e)) == "application/octet-stream"@,
{
    reveal_strlit("html");
    reveal_strlit("htm");
    reveal_strlit("js");
    reveal_strlit("mjs");
    reveal_strlit("css");
    reveal_strlit("json");
    reveal_strlit("map");
    reveal_strlit("svg");
    reveal_strlit("png");
    reveal_strlit("ico");
    reveal_strlit("wasm");
    assert("html"@.len() == 4 && "htm"@.len() == 3 && "js"@.len() == 2 && "mjs"@.len() == 3);
    assert("css"@.len() == 3 && "json"@.len() == 4 && "map"@.len() == 3 && "svg"@.len() == 3);
    assert("png"@.len() == 3 && "ico"@.len() == 3 && "wasm"@.len() == 4);
    assert("html"@[0] == 'h' && "json"@[0] == 'j' && "wasm"@[0] == 'w');
    assert("htm"@[0] == 'h' && "css"@[0] == 'c' && "svg"@[0] == 's');
    assert("png"@[0] == 'p' && "ico"@[0] == 'i');
    assert("mjs"@[1] == 'j' && "map"@[1] == 'a');
    assert("mjs"@[0] == 'm' && "map"@[0] == 'm');
}

/// A request for a file that could be read is answered with the whole file,
/// however large, and with its content type.
pub proof fn files_are_served_whole(
    bootstrap: Seq<char>,
    ui: Seq<char>,
    url: Seq<char>,
    bytes: Seq<u8>,
)
    requires
        path_of_url(url) != "/bootstrap.json"@,
        wanted(ui, url) is Some,
    ensures
        answer_to(bootstrap, ui, url, Some(bytes)).status == 200,
        answer_to(bootstrap, ui, url, Some(bytes)).body == bytes,
        answer_to(bootstrap, ui, url, Some(bytes)).headers == seq![
            ("Content-Type"@, type_of_extension(extension_of(wanted(ui, url)->0))),
        ],
{
}

/// From the request to the answer: a clean path, at any depth and with any query
/// behind it, is answered with what the file of that path holds, byte for byte,
/// and with the content type of its extension.
pub proof fn clean_requests_are_answered_with_the_file(
    bootstrap: Seq<char>,
    ui: Seq<char>,
    relative: Seq<char>,
    query: Seq<char>,
    bytes: Seq<u8>,
)
    requires
        relative.len() > 0,
        relative[0] != '/',
        relative != "bootstrap.json"@,
        !relative.contains('?'),
        !segments(relative).contains("."@),
        !segments(relative).contains(".."@),
    ensures
        ({
            let served = Message {
                status: 200,
                headers: seq![("Content-Type"@, type_of_extension(extension_of(relative)))],
                body: bytes,
            };
            &&& answer_to(bootstrap, ui, seq!['/'] + relative, Some(bytes)) == served
            &&& answer_to(bootstrap, ui, seq!['/'] + relative + seq!['?'] + query, Some(bytes))
                == served
        }),
{
    let path = seq!['/'] + relative;
    clean_requests_want_their_files(ui, relative, query);
    clean_paths_name_their_files(ui, relative, 1);
    content_type_goes_by_the_requested_name(ui, path);
    reveal_strlit("/");
    assert(path.len() > 1);
    lemma_slashes_are_stripped(1, relative);
    assert(slashes(1) + relative =~= path);
    assert(requested(path) == relative);
    assert forall|i: int| 0 <= i < path.len() implies path[i] != '?' by {
        if i > 0 {
            assert(relative.contains(relative[i - 1]));
        }
    }
    query_is_ignored(ui, path, query);
    reveal_strlit("/bootstrap.json");
    reveal_strlit("bootstrap.json");
    if path == "/bootstrap.json"@ {
        assert(path.skip(1) =~= relative);
        assert("/bootstrap.json"@.skip(1) =~= "bootstrap.json"@);
    }
}

/// A request is not found exactly where it asks for neither the
/// session-placement document nor a file that could be read, and it is then told
/// so in plain text.
pub proof fn whatever_cannot_be_read_is_not_found(
    bootstrap: Seq<char>,
    ui: Seq<char>,
    url: Seq<char>,
    contents: Option<Seq<u8>>,
)
    ensures
        path_of_url(url) != "/bootstrap.json"@ && (wanted(ui, url) is None || contents is None)
            ==> answer_to(bootstrap, ui, url, contents) == (Message {
            status: 404,
            headers: seq![("Content-Type"@, "text/plain; charset=UTF-8"@)],
            body: vstd::utf8::encode_utf8("not found"@),
        }),
        path_of_url(url) == "/bootstrap.json"@ || (wanted(ui, url) is Some && contents is Some)
            ==> answer_to(bootstrap, ui, url, contents).status == 200,
{
}

/// The session-placement document is sent as it is, whatever text it is, with or
/// without a query and whatever the disk holds.
pub proof fn document_is_sent_as_it_is(
    bootstrap: Seq<char>,
    ui: Seq<char>,
    query: Seq<char>,
    contents: Option<Seq<u8>>,
)
    ensures
        ({
            let sent = Message {
                status: 200,
                headers: seq![("Content-Type"@, "application/json"@)],
                body: vstd::utf8::encode_utf8(bootstrap),
            };
            &&& answer_to(bootstrap, ui, "/bootstrap.json"@, contents) == sent
            &&& answer_to(bootstrap, ui, "/bootstrap.json"@ + seq!['?'] + query, contents) == sent
        }),
{
    reveal_strlit("/bootstrap.json");
    query_is_ignored(ui, "/bootstrap.json"@, query);
}

/// An answer becomes a message with the bytes that the answer holds and the
/// content type that goes with it; only where nothing was found is it no
/// success.
pub proof fn messages_carry_their_answers(text: String, bytes: Vec<u8>, content_type: &'static str)
    ensures
        message_for(Reply::Bootstrap(text)) == (Message {
            status: 200,
            headers: seq![("Content-Type"@, "application/json"@)],
            body: vstd::utf8::encode_utf8(text@),
        }),
        message_for(Reply::File(bytes, content_type)) == (Message {
            status: 200,
            headers: seq![("Content-Type"@, content_type@)],
            body: bytes@,
        }),
        message_for(Reply::NotFound) == (Message {
            status: 404,
            headers: seq![("Content-Type"@, "text/plain; charset=UTF-8"@)],
            body: vstd::utf8::encode_utf8("not found"@),
        }),
{
}

} // verus!
