//! What a reader of the session-placement document gets back.

use crate::bootstrap::{document, escaped, escaped_char, hex_digit, node_url};
use crate::text::{decimal, decimal_is_digits, is_digit, lemma_char_number, u16_value, written_number_reads_back};
use vstd::prelude::*;

verus! {

// ---- how JSON reads -------------------------------------------------------

/// The value of a hexadecimal digit.
pub open spec fn hex_value(c: char) -> Option<nat> {
    if '0' <= c <= '9' {
        Some((c as nat - '0' as nat) as nat)
    } else if 'a' <= c <= 'f' {
        Some((c as nat - 'a' as nat + 10) as nat)
    } else if 'A' <= c <= 'F' {
        Some((c as nat - 'A' as nat + 10) as nat)
    } else {
        None
    }
}

/// The first character that a JSON string holds, and how many characters it is
/// written with. A quote and a control character do not stand for themselves,
/// and half a surrogate pair stands for nothing.
pub open spec fn read_char(s: Seq<char>) -> Option<(char, int)> {
    if s.len() == 0 || s[0] == '"' || (s[0] as nat) < 0x20 {
        None
    } else if s[0] != '\\' {
        Some((s[0], 1))
    } else if s.len() < 2 {
        None
    } else if s[1] == '"' || s[1] == '\\' || s[1] == '/' {
        Some((s[1], 2))
    } else if s[1] == 'b' {
        Some(('\u{8}', 2))
    } else if s[1] == 'f' {
        Some(('\u{c}', 2))
    } else if s[1] == 'n' {
        Some(('\n', 2))
    } else if s[1] == 'r' {
        Some(('\r', 2))
    } else if s[1] == 't' {
        Some(('\t', 2))
    } else if s[1] == 'u' && s.len() >= 6 && hex_value(s[2]) is Some && hex_value(s[3]) is Some
        && hex_value(s[4]) is Some && hex_value(s[5]) is Some {
        let n = hex_value(s[2])->0 * 4096 + hex_value(s[3])->0 * 256 + hex_value(s[4])->0 * 16
            + hex_value(s[5])->0;
        if 0xd800 <= n < 0xe000 {
            None
        } else {
            Some((n as char, 6))
        }
    } else {
        None
    }
}

/// What a JSON string holds, read from behind its opening quote, and what
/// follows its closing quote.
pub open spec fn read_string(s: Seq<char>) -> Option<(Seq<char>, Seq<char>)>
    decreases s.len(),
{
    if s.len() == 0 {
        None
    } else if s[0] == '"' {
        Some((Seq::empty(), s.skip(1)))
    } else {
        match read_char(s) {
            None => None,
            Some((c, taken)) => match read_string(s.skip(taken)) {
                None => None,
                Some((held, rest)) => Some((seq![c] + held, rest)),
            },
        }
    }
}

/// What follows a fixed beginning.
pub open spec fn behind(s: Seq<char>, beginning: Seq<char>) -> Option<Seq<char>> {
    if beginning.is_prefix_of(s) {
        Some(s.skip(beginning.len() as int))
    } else {
        None
    }
}

/// What the JSON string behind a fixed beginning holds, and what follows it.
pub open spec fn read_member(s: Seq<char>, beginning: Seq<char>) -> Option<(Seq<char>, Seq<char>)> {
    match behind(s, beginning) {
        None => None,
        Some(rest) => read_string(rest),
    }
}

/// The address, the mode and the name that a document carries.
pub open spec fn read_document(body: Seq<char>) -> Option<(Seq<char>, Seq<char>, Seq<char>)> {
    match read_member(body, "{\"node_ws\":\""@) {
        None => None,
        Some((url, rest)) => match read_member(rest, ",\"mode\":\""@) {
            None => None,
            Some((mode, rest)) => match read_member(rest, ",\"name\":\""@) {
                None => None,
                Some((name, rest)) => if rest == "}"@ {
                    Some((url, mode, name))
                } else {
                    None
                },
            },
        },
    }
}

// ---- escaping and reading -------------------------------------------------

proof fn lemma_escaped_from_front(s: Seq<char>)
    requires
        s.len() > 0,
    ensures
        escaped(s) == escaped_char(s[0]) + escaped(s.skip(1)),
    decreases s.len(),
{
    if s.len() == 1 {
        assert(s.drop_last() =~= Seq::<char>::empty());
        assert(s.skip(1) =~= Seq::<char>::empty());
        assert(escaped(s) =~= escaped_char(s[0]) + escaped(s.skip(1)));
    } else {
        lemma_escaped_from_front(s.drop_last());
        assert(s.drop_last().skip(1) =~= s.skip(1).drop_last());
        assert(escaped(s) =~= escaped_char(s[0]) + escaped(s.skip(1)));
    }
}

proof fn lemma_escaped_char_reads_back(c: char, rest: Seq<char>)
    ensures
        escaped_char(c)[0] != '"',
        read_char(escaped_char(c) + rest) == Some((c, escaped_char(c).len() as int)),
{
    lemma_char_number(c);
    let s = escaped_char(c) + rest;
    assert(s[0] == escaped_char(c)[0]);
    if escaped_char(c).len() >= 2 {
        assert(s[1] == escaped_char(c)[1]);
    }
    if escaped_char(c).len() == 6 {
        let high = c as nat / 16;
        let low = c as nat % 16;
        assert(s[2] == '0' && s[3] == '0' && s[4] == hex_digit(high) && s[5] == hex_digit(low));
        assert(hex_value(hex_digit(high)) == Some(high));
        assert(hex_value(hex_digit(low)) == Some(low));
        assert(high * 16 + low == c as nat);
        assert((c as nat) as char == c);
    }
}

/// What was escaped is read back: a JSON string that holds an escaped text
/// holds that text, and ends where the text ends.
pub proof fn escaped_text_reads_back(s: Seq<char>, rest: Seq<char>)
    ensures
        read_string(escaped(s) + seq!['"'] + rest) == Some((s, rest)),
    decreases s.len(),
{
    let written = escaped(s) + seq!['"'] + rest;
    if s.len() == 0 {
        assert(written[0] == '"');
        assert(written.skip(1) =~= rest);
        assert(s =~= Seq::<char>::empty());
    } else {
        let tail = escaped(s.skip(1)) + seq!['"'] + rest;
        let first = escaped_char(s[0]);
        lemma_escaped_from_front(s);
        assert(written =~= first + tail);
        lemma_escaped_char_reads_back(s[0], tail);
        assert(written[0] == first[0]);
        assert(written.skip(first.len() as int) =~= tail);
        escaped_text_reads_back(s.skip(1), rest);
        assert(seq![s[0]] + s.skip(1) =~= s);
    }
}

/// Escaping goes character by character, however long a text is.
pub proof fn escaping_goes_character_by_character(a: Seq<char>, b: Seq<char>)
    ensures
        escaped(Seq::empty()) == Seq::<char>::empty(),
        escaped(a + b) == escaped(a) + escaped(b),
    decreases b.len(),
{
    if b.len() == 0 {
        assert(a + b =~= a);
        assert(escaped(a) + escaped(b) =~= escaped(a));
    } else {
        escaping_goes_character_by_character(a, b.drop_last());
        assert((a + b).drop_last() =~= a + b.drop_last());
        assert(escaped(a + b) =~= escaped(a) + escaped(b));
    }
}

/// How each character is escaped: the quote, the backslash and three control
/// characters by a backslash and one more character, every other control
/// character by its number in four hexadecimal digits, in lower case. No other
/// character is escaped.
pub proof fn characters_are_escaped_so(c: char)
    ensures
        c == '"' ==> escaped(seq![c]) == seq!['\\', '"'],
        c == '\\' ==> escaped(seq![c]) == seq!['\\', '\\'],
        c == '\n' ==> escaped(seq![c]) == seq!['\\', 'n'],
        c == '\r' ==> escaped(seq![c]) == seq!['\\', 'r'],
        c == '\t' ==> escaped(seq![c]) == seq!['\\', 't'],
        (c as nat) < 32 && c != '\n' && c != '\r' && c != '\t' ==> {
            let e = escaped(seq![c]);
            &&& e.len() == 6
            &&& e.take(4) == seq!['\\', 'u', '0', '0']
            &&& hex_value(e[4]) is Some && hex_value(e[5]) is Some
            &&& hex_value(e[4])->0 * 16 + hex_value(e[5])->0 == c as nat
            &&& !('A' <= e[4] <= 'F') && !('A' <= e[5] <= 'F')
        },
        c as nat >= 32 && c != '"' && c != '\\' ==> escaped(seq![c]) == seq![c],
{
    lemma_char_number(c);
    let text = seq![c];
    assert(text.drop_last() =~= Seq::<char>::empty());
    assert(escaped(text) =~= escaped_char(c)) by {
        reveal_with_fuel(escaped, 2);
    }
    if (c as nat) < 32 && c != '\n' && c != '\r' && c != '\t' {
        let high = c as nat / 16;
        let low = c as nat % 16;
        assert(hex_value(hex_digit(high)) == Some(high));
        assert(hex_value(hex_digit(low)) == Some(low));
        assert(escaped(text).take(4) =~= seq!['\\', 'u', '0', '0']);
    }
}

/// Escaping loses nothing: different texts stay different.
pub proof fn escaping_loses_nothing(a: Seq<char>, b: Seq<char>)
    requires
        escaped(a) == escaped(b),
    ensures
        a == b,
{
    escaped_text_reads_back(a, Seq::empty());
    escaped_text_reads_back(b, Seq::empty());
}

/// An escaped text holds no control character.
pub proof fn escaped_text_is_printable(s: Seq<char>)
    ensures
        forall|i: int| 0 <= i < escaped(s).len() ==> (#[trigger] escaped(s)[i]) as nat >= 0x20,
    decreases s.len(),
{
    if s.len() > 0 {
        escaped_text_is_printable(s.drop_last());
        lemma_char_number(s.last());
        let last = escaped_char(s.last());
        assert forall|i: int| 0 <= i < escaped(s).len() implies (
        #[trigger] escaped(s)[i]) as nat >= 0x20 by {
            let before = escaped(s.drop_last());
            if i < before.len() {
                assert(escaped(s)[i] == before[i]);
            } else {
                assert(escaped(s)[i] == last[i - before.len()]);
            }
        }
    }
}

/// A character that stands for itself in a JSON string.
pub open spec fn is_plain(c: char) -> bool {
    c != '"' && c != '\\' && c as nat >= 0x20
}

/// A text of plain characters is left as it is.
pub proof fn plain_text_is_not_escaped(s: Seq<char>)
    requires
        forall|i: int| 0 <= i < s.len() ==> is_plain(#[trigger] s[i]),
    ensures
        escaped(s) == s,
    decreases s.len(),
{
    if s.len() > 0 {
        assert forall|i: int| 0 <= i < s.drop_last().len() implies is_plain(
            #[trigger] s.drop_last()[i],
        ) by {
            assert(is_plain(s[i]));
        }
        plain_text_is_not_escaped(s.drop_last());
        assert(is_plain(s[s.len() - 1]));
        assert(escaped(s) =~= s);
    } else {
        assert(escaped(s) =~= s);
    }
}

// ---- the document ---------------------------------------------------------

proof fn lemma_member_reads_back(beginning: Seq<char>, held: Seq<char>, rest: Seq<char>)
    ensures
        read_member(beginning + escaped(held) + seq!['"'] + rest, beginning) == Some((held, rest)),
{
    let whole = beginning + escaped(held) + seq!['"'] + rest;
    assert(beginning =~= whole.subrange(0, beginning.len() as int));
    assert(whole.skip(beginning.len() as int) =~= escaped(held) + seq!['"'] + rest);
    escaped_text_reads_back(held, rest);
}

/// A reader of the document gets the node's address, the mode and the name,
/// whatever characters they hold.
pub proof fn document_reads_back(port: u16, mode: Seq<char>, name: Seq<char>)
    ensures
        read_document(document(port, mode, name)) == Some((node_url(port), mode, name)),
{
    let url = node_url(port);
    address_needs_no_escapes(port);
    reveal_strlit("\",\"mode\":\"");
    reveal_strlit("\",\"name\":\"");
    reveal_strlit(",\"mode\":\"");
    reveal_strlit(",\"name\":\"");
    reveal_strlit("\"}");
    reveal_strlit("}");
    assert("\",\"mode\":\""@ =~= seq!['"'] + ",\"mode\":\""@);
    assert("\",\"name\":\""@ =~= seq!['"'] + ",\"name\":\""@);
    assert("\"}"@ =~= seq!['"'] + "}"@);
    let end = "}"@;
    let from_name = ",\"name\":\""@ + escaped(name) + seq!['"'] + end;
    let from_mode = ",\"mode\":\""@ + escaped(mode) + seq!['"'] + from_name;
    assert(document(port, mode, name) =~= "{\"node_ws\":\""@ + escaped(url) + seq!['"']
        + from_mode);
    lemma_member_reads_back("{\"node_ws\":\""@, url, from_mode);
    lemma_member_reads_back(",\"mode\":\""@, mode, from_name);
    lemma_member_reads_back(",\"name\":\""@, name, end);
}

/// The document is one object of three members on one line: the address at the
/// given port, the mode and the name.
pub proof fn document_is_written_so(port: u16, mode: Seq<char>, name: Seq<char>)
    ensures
        node_url(port) == "ws://127.0.0.1:"@ + decimal(port as nat),
        document(port, mode, name) == "{\"node_ws\":\""@ + "ws://127.0.0.1:"@ + decimal(port as nat)
            + "\",\"mode\":\""@ + escaped(mode) + "\",\"name\":\""@ + escaped(name) + "\"}"@,
{
    assert(document(port, mode, name) =~= "{\"node_ws\":\""@ + "ws://127.0.0.1:"@ + decimal(
        port as nat,
    ) + "\",\"mode\":\""@ + escaped(mode) + "\",\"name\":\""@ + escaped(name) + "\"}"@);
}

/// The node's address needs no escapes.
pub proof fn address_needs_no_escapes(port: u16)
    ensures
        escaped(node_url(port)) == node_url(port),
{
    reveal_strlit("ws://127.0.0.1:");
    decimal_is_digits(port as nat);
    let host = "ws://127.0.0.1:"@;
    let url = node_url(port);
    assert forall|i: int| 0 <= i < url.len() implies is_plain(#[trigger] url[i]) by {
        if i < host.len() {
            assert(url[i] == host[i]);
        } else {
            assert(url[i] == decimal(port as nat)[i - host.len()]);
            assert(is_digit(url[i]));
        }
    }
    plain_text_is_not_escaped(url);
}

/// The port can be read from the node's address.
pub proof fn port_reads_back_from_the_address(port: u16)
    ensures
        behind(node_url(port), "ws://127.0.0.1:"@) is Some,
        u16_value(behind(node_url(port), "ws://127.0.0.1:"@)->0) == Some(port),
{
    let host = "ws://127.0.0.1:"@;
    assert(host =~= node_url(port).subrange(0, host.len() as int));
    assert(node_url(port).skip(host.len() as int) =~= decimal(port as nat));
    written_number_reads_back(port);
}

} // verus!
