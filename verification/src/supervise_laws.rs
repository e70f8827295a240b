//! What holds of every run: the lines that the node writes, and what follows
//! from what happens.

use crate::supervise::{
    announced_port, first_announcement_is_reported, just_the_last_lines_are_kept, kept, last_lines, reaction_to, reports,
    seen_after, tail_report, target_of, told, with_line, Event, Reaction,
};
use crate::text::{
    decimal, is_white, joined_texts, trimmed, u16_value, without_leading_white, without_trailing_white,
};
use crate::text_laws::{
    joined_runs_have_one_separator_between, only_digits_are_numbers, trimming_takes_off_just_the_surroundings, written_numbers_are_plain,
};
use vstd::prelude::*;

verus! {

// ---- the node's port ------------------------------------------------------

/// Every port that the node announces is heard, from the lowest to the highest,
/// with or without white space around it.
pub proof fn every_port_is_heard(port: u16, before: Seq<char>, behind: Seq<char>)
    requires
        forall|i: int| 0 <= i < before.len() ==> is_white(#[trigger] before[i]),
        forall|i: int| 0 <= i < behind.len() ==> is_white(#[trigger] behind[i]),
    ensures
        announced_port("listening "@ + decimal(port as nat)) == Some(port),
        announced_port("listening "@ + before + decimal(port as nat) + behind) == Some(port),
{
    let written = decimal(port as nat);
    written_numbers_are_plain(port);
    assert('0' <= written[0] <= '9' && '0' <= written[written.len() - 1] <= '9');
    trimming_takes_off_just_the_surroundings(before, written, behind);
    let nothing = Seq::<char>::empty();
    trimming_takes_off_just_the_surroundings(nothing, written, nothing);
    assert(nothing + written + nothing =~= written);
    announcements_follow_the_word(written);
    announcements_follow_the_word(before + written + behind);
    assert("listening "@ + (before + written + behind) =~= "listening "@ + before + written
        + behind);
}

/// A line announces what follows the word and a space, read as a port.
pub proof fn announcements_follow_the_word(rest: Seq<char>)
    ensures
        announced_port("listening "@ + rest) == u16_value(trimmed(rest)),
{
    let word = "listening "@;
    let line = word + rest;
    assert(word =~= line.subrange(0, word.len() as int));
    assert(line.skip(word.len() as int) =~= rest);
}

/// A line announces nothing unless it begins with the word and a space. Nor does
/// one that holds anything but digits, a plus sign and white space behind them.
pub proof fn other_lines_announce_nothing(line: Seq<char>)
    ensures
        announced_port(line) is Some ==> line.len() > 10 && line.take(10) == seq![
            'l',
            'i',
            's',
            't',
            'e',
            'n',
            'i',
            'n',
            'g',
            ' ',
        ],
        announced_port(line) is Some ==> forall|i: int|
            10 <= i < line.len() ==> '0' <= #[trigger] line[i] <= '9' || line[i] == '+' || is_white(
                line[i],
            ),
{
    reveal_strlit("listening ");
    let word = "listening "@;
    if announced_port(line) is Some {
        let rest = line.skip(10);
        assert(line.take(10) =~= line.subrange(0, 10));
        assert(word =~= seq!['l', 'i', 's', 't', 'e', 'n', 'i', 'n', 'g', ' ']);
        only_digits_are_numbers(trimmed(rest));
        let number = trimmed(rest);
        if rest.len() == 0 {
            assert(number.len() == 0);
        }
        assert forall|i: int| 10 <= i < line.len() implies '0' <= #[trigger] line[i] <= '9'
            || line[i] == '+' || is_white(line[i]) by {
            lemma_white_or_kept(rest, i - 10);
            if !is_white(rest[i - 10]) {
                let at = choose|k: int| 0 <= k < number.len() && number[k] == rest[i - 10];
                if at > 0 && number[0] == '+' {
                    assert(number.skip(1)[at - 1] == number[at]);
                }
            }
        }
    }
}

proof fn lemma_white_or_kept(s: Seq<char>, i: int)
    requires
        0 <= i < s.len(),
    ensures
        is_white(s[i]) || trimmed(s).contains(s[i]),
{
    if !is_white(s[i]) {
        lemma_leading_keeps(s, s[i]);
        lemma_trailing_keeps(without_leading_white(s), s[i]);
    }
}

proof fn lemma_leading_keeps(s: Seq<char>, c: char)
    requires
        s.contains(c),
        !is_white(c),
    ensures
        without_leading_white(s).contains(c),
    decreases s.len(),
{
    if s.len() > 0 && is_white(s[0]) {
        let at = choose|k: int| 0 <= k < s.len() && s[k] == c;
        assert(s.skip(1)[at - 1] == c);
        lemma_leading_keeps(s.skip(1), c);
    }
}

proof fn lemma_trailing_keeps(s: Seq<char>, c: char)
    requires
        s.contains(c),
        !is_white(c),
    ensures
        without_trailing_white(s).contains(c),
    decreases s.len(),
{
    if s.len() > 0 && is_white(s.last()) {
        let at = choose|k: int| 0 <= k < s.len() && s[k] == c;
        assert(s.drop_last()[at] == c);
        lemma_trailing_keeps(s.drop_last(), c);
    }
}

/// A watch reports what a line announces until it has seen a port, and nothing
/// from then on.
pub proof fn watch_reports_once(line: Seq<char>)
    ensures
        told(false, line) == announced_port(line),
        told(true, line) is None,
        seen_after(false, line) <==> announced_port(line) is Some,
        seen_after(true, line),
{
}

/// The node's port is found in its output wherever it is announced: behind any
/// number of lines that announce none, whatever comes later.
pub proof fn port_is_found_in_the_output(
    before: Seq<Seq<char>>,
    port: u16,
    later: Seq<Seq<char>>,
)
    requires
        forall|i: int|
            0 <= i < before.len() ==> !"listening "@.is_prefix_of(#[trigger] before[i]),
    ensures
        reports(false, before + seq!["listening "@ + decimal(port as nat)] + later) == seq![port],
{
    let lines = before + seq!["listening "@ + decimal(port as nat)] + later;
    let nothing = Seq::<char>::empty();
    every_port_is_heard(port, nothing, nothing);
    assert(lines[before.len() as int] == "listening "@ + decimal(port as nat));
    assert forall|i: int| 0 <= i < before.len() implies announced_port(#[trigger] lines[i]) is None by {
        assert(lines[i] == before[i]);
    }
    first_announcement_is_reported(lines, before.len() as int);
}

// ---- the node's last words ------------------------------------------------

/// Of the lines that the node wrote the last twenty are kept, or all of them
/// where there are fewer, and in the order in which they were written.
pub proof fn last_twenty_lines_are_kept(lines: Seq<Seq<char>>)
    ensures
        lines.len() <= 20 ==> kept(lines) == lines,
        lines.len() > 20 ==> kept(lines).len() == 20 && forall|i: int|
            0 <= i < 20 ==> #[trigger] kept(lines)[i] == lines[lines.len() - 20 + i],
{
    just_the_last_lines_are_kept(lines);
}

/// A further line comes last, whatever it holds, and pushes out the oldest line
/// just where twenty are held already.
pub proof fn further_line_comes_last(lines: Seq<Seq<char>>, line: Seq<char>)
    ensures
        lines.len() < 20 ==> with_line(lines, line) == lines.push(line),
        lines.len() == 20 ==> with_line(lines, line) == lines.skip(1).push(line),
        with_line(lines, line).last() == line,
{
    if lines.len() == 20 {
        assert(lines.push(line).skip(1) =~= lines.skip(1).push(line));
    }
}

/// However many lines are asked for, the last ones are given, unchanged and in
/// order.
pub proof fn last_lines_are_the_last(front: Seq<Seq<char>>, back: Seq<Seq<char>>, n: int)
    requires
        n >= 0,
    ensures
        back.len() == n ==> last_lines(front + back, n) == back,
        back.len() <= n ==> last_lines(back, n) == back,
{
    if back.len() == n {
        assert((front + back).skip(front.len() as int) =~= back);
        if front.len() == 0 {
            assert(front + back =~= back);
        }
    }
}

/// The report shows every line that is left, each on a line of its own behind
/// the heading; where none is left it says so.
pub proof fn report_shows_every_line(lines: Seq<Seq<char>>, last: Seq<char>)
    ensures
        tail_report(Seq::empty()) == "[grazel] (node stderr was empty)"@,
        tail_report(seq![last]) == "[grazel] node stderr tail:\n"@ + last,
        lines.len() > 0 ==> tail_report(lines.push(last)) == tail_report(lines) + seq!['\n'] + last,
        lines.len() > 0 ==> tail_report(lines) == "[grazel] node stderr tail:\n"@ + joined_texts(
            lines,
            '\n',
        ),
{
    joined_runs_have_one_separator_between(lines, seq![last], '\n');
    joined_runs_have_one_separator_between(seq![last], lines, '\n');
    assert(lines + seq![last] =~= lines.push(last));
    if lines.len() > 0 {
        assert(tail_report(lines.push(last)) =~= tail_report(lines) + seq!['\n'] + last);
    }
}

// ---- what follows from what happens ---------------------------------------

/// What each event calls for. A run ends with code 2 where it could not be set
/// up, with 1 where the node fell silent, and with the node's own code where it
/// exited, unless that claims success or there is none: then with 1.
pub proof fn events_call_for_this(code: i32)
    ensures
        reaction_to(Event::StorageFailed) == (Reaction {
            exit_code: Some(2),
            show_tail: false,
            stop_node: false,
            stop_supplier: false,
        }),
        reaction_to(Event::NodeNotStarted) == reaction_to(Event::StorageFailed),
        reaction_to(Event::HttpFailed) == reaction_to(Event::StorageFailed),
        reaction_to(Event::NodeSilent) == (Reaction {
            exit_code: Some(1),
            show_tail: true,
            stop_node: false,
            stop_supplier: false,
        }),
        reaction_to(Event::NodeExited(Some(code))) == (Reaction {
            exit_code: Some(
                if code == 0 {
                    1
                } else {
                    code
                },
            ),
            show_tail: true,
            stop_node: false,
            stop_supplier: true,
        }),
        reaction_to(Event::NodeExited(None)) == reaction_to(Event::NodeExited(Some(0))),
        reaction_to(Event::SupplierNotStarted) == (Reaction {
            exit_code: None,
            show_tail: false,
            stop_node: false,
            stop_supplier: false,
        }),
        reaction_to(Event::SupplierExited) == reaction_to(Event::SupplierNotStarted),
        reaction_to(Event::Signalled) == (Reaction {
            exit_code: Some(130),
            show_tail: false,
            stop_node: true,
            stop_supplier: true,
        }),
{
}

/// Every child that runs can be signalled by its number, and nothing else ever
/// is: no process group, and no child that is not there.
pub proof fn just_the_running_child_is_signalled(pid: i32)
    ensures
        pid >= 1 ==> target_of(pid) == Some(pid),
        pid <= 0 ==> target_of(pid) is None,
{
}

} // verus!
