//! The session-placement document: a small JSON object, written with proper
//! escapes.

use crate::text::{characters, decimal, decimal_text, lemma_char_number};
use vstd::prelude::*;

verus! {

// ---- JSON strings ---------------------------------------------------------

/// The hexadecimal digit of a number below sixteen, in lower case.
pub open spec fn hex_digit(n: nat) -> char
    recommends
        n < 16,
{
    if n < 10 {
        ('0' as nat + n) as char
    } else {
        ('a' as nat + n - 10) as char
    }
}

/// How a character stands in a JSON string. The quote and the backslash are
/// escaped; so is every control character, the common ones by a letter.
pub open spec fn escaped_char(c: char) -> Seq<char> {
    if c == '"' {
        seq!['\\', '"']
    } else if c == '\\' {
        seq!['\\', '\\']
    } else if c == '\n' {
        seq!['\\', 'n']
    } else if c == '\r' {
        seq!['\\', 'r']
    } else if c == '\t' {
        seq!['\\', 't']
    } else if (c as nat) < 0x20 {
        seq!['\\', 'u', '0', '0', hex_digit(c as nat / 16), hex_digit(c as nat % 16)]
    } else {
        seq![c]
    }
}

/// How a text stands in a JSON string: each character, escaped where need be.
pub open spec fn escaped(s: Seq<char>) -> Seq<char>
    decreases s.len(),
{
    if s.len() == 0 {
        Seq::empty()
    } else {
        escaped(s.drop_last()) + escaped_char(s.last())
    }
}

fn push_hex_digit(text: &mut String, n: u32)
    requires
        n < 16,
    ensures
        final(text)@ == old(text)@.push(hex_digit(n as nat)),
{
    let c: u8 = if n < 10 {
        '0' as u8 + n as u8
    } else {
        'a' as u8 + (n as u8 - 10)
    };
    text.push(c as char);
}

/// Escapes a text for a JSON string.
pub fn json_escape(s: &str) -> (text: String)
    ensures
        text@ == escaped(s@),
{
    let chars = characters(s);
    let mut text = String::new();
    let mut i: usize = 0;
    while i < chars.len()
        invariant
            chars@ == s@,
            i <= chars@.len(),
            text@ == escaped(s@.take(i as int)),
        decreases chars@.len() - i,
    {
        let c = chars[i];
        let ghost before = text@;
        proof {
            lemma_char_number(c);
        }
        match c {
            '"' => text.append("\\\""),
            '\\' => text.append("\\\\"),
            '\n' => text.append("\\n"),
            '\r' => text.append("\\r"),
            '\t' => text.append("\\t"),
            _ => {
                if (c as u32) < 0x20 {
                    text.append("\\u00");
                    push_hex_digit(&mut text, c as u32 / 16);
                    push_hex_digit(&mut text, c as u32 % 16);
                } else {
                    text.push(c);
                }
            },
        }
        proof {
            reveal_strlit("\\\"");
            reveal_strlit("\\\\");
            reveal_strlit("\\n");
            reveal_strlit("\\r");
            reveal_strlit("\\t");
            reveal_strlit("\\u00");
            assert(text@ =~= before + escaped_char(c));
            assert(s@.take(i + 1).drop_last() =~= s@.take(i as int));
        }
        i = i + 1;
    }
    assert(s@.take(i as int) =~= s@);
    text
}

// ---- the document ---------------------------------------------------------

/// The address at which the node takes sessions.
pub open spec fn node_url(port: u16) -> Seq<char> {
    "ws://127.0.0.1:"@ + decimal(port as nat)
}

/// Writes the node's address.
pub fn node_ws_url(port: u16) -> (url: String)
    ensures
        url@ == node_url(port),
{
    "ws://127.0.0.1:".to_owned().concat(decimal_text(port).as_str())
}

/// The document: the node's address, the mode and the name.
pub open spec fn document(port: u16, mode: Seq<char>, name: Seq<char>) -> Seq<char> {
    "{\"node_ws\":\""@ + node_url(port) + "\",\"mode\":\""@ + escaped(mode) + "\",\"name\":\""@
        + escaped(name) + "\"}"@
}

/// The body of `GET /bootstrap.json`.
pub fn bootstrap_json(node_ws_port: u16, mode: &str, name: &str) -> (body: String)
    ensures
        body@ == document(node_ws_port, mode@, name@),
{
    "{\"node_ws\":\"".to_owned().concat(node_ws_url(node_ws_port).as_str()).concat(
        "\",\"mode\":\"",
    ).concat(json_escape(mode).as_str()).concat("\",\"name\":\"").concat(
        json_escape(name).as_str(),
    ).concat("\"}")
}

} // verus!
