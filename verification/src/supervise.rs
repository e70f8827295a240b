//! Watching over the node and the suppliers: what their output says, and what
//! follows from what happens to them.

use crate::text::{
    begins_with, characters, join_texts, joined_texts, parse_u16, text_between, texts, trim, trimmed, u16_value,
};
use std::collections::VecDeque;
use vstd::prelude::*;

verus! {

// ---- the node's port ------------------------------------------------------

/// The port that a line of the node's output announces, if it announces one:
/// `listening`, a space, and the port.
pub open spec fn announced_port(line: Seq<char>) -> Option<u16> {
    if "listening "@.is_prefix_of(line) {
        u16_value(trimmed(line.skip("listening "@.len() as int)))
    } else {
        None
    }
}

/// Reads the port that a line of the node's output announces.
pub fn listening_port(line: &str) -> (port: Option<u16>)
    ensures
        port == announced_port(line@),
{
    if !begins_with(line, "listening ") {
        return None;
    }
    proof {
        reveal_strlit("listening ");
    }
    let chars = characters(line);
    let rest = text_between(&chars, 10, chars.len());
    assert(rest@ =~= line@.skip("listening "@.len() as int));
    parse_u16(trim(rest.as_str()).as_str())
}

/// Watches the node's output for the first port that it announces.
#[derive(Clone, Copy, Debug, PartialEq, Eq, Structural)]
pub struct PortWatch {
    seen: bool,
}

/// What one more line tells a watch that has or has not seen a port.
pub open spec fn told(seen: bool, line: Seq<char>) -> Option<u16> {
    if seen {
        None
    } else {
        announced_port(line)
    }
}

/// Whether a watch has seen a port after one more line.
pub open spec fn seen_after(seen: bool, line: Seq<char>) -> bool {
    seen || announced_port(line) is Some
}

impl PortWatch {
    /// Whether a port has been announced.
    pub closed spec fn has_seen(self) -> bool {
        self.seen
    }

    /// Begins to watch.
    pub fn new() -> (watch: PortWatch)
        ensures
            !watch.has_seen(),
    {
        PortWatch { seen: false }
    }

    /// Takes in a line. Gives the port that it announces, if it is the first.
    pub fn observe(&mut self, line: &str) -> (port: Option<u16>)
        ensures
            port == told(old(self).has_seen(), line@),
            final(self).has_seen() == (old(self).has_seen() || port is Some),
            final(self).has_seen() == seen_after(old(self).has_seen(), line@),
    {
        if self.seen {
            return None;
        }
        let port = listening_port(line);
        if port.is_some() {
            self.seen = true;
        }
        port
    }

    /// Whether a port has been announced.
    pub fn reported(&self) -> (reported: bool)
        ensures
            reported == self.has_seen(),
    {
        self.seen
    }
}

/// The ports that a watch gives over a run of lines.
pub open spec fn reports(seen: bool, lines: Seq<Seq<char>>) -> Seq<u16>
    decreases lines.len(),
{
    if lines.len() == 0 {
        Seq::empty()
    } else {
        let rest = reports(seen_after(seen, lines[0]), lines.skip(1));
        match told(seen, lines[0]) {
            Some(port) => seq![port] + rest,
            None => rest,
        }
    }
}

proof fn lemma_nothing_more_is_reported(lines: Seq<Seq<char>>)
    ensures
        reports(true, lines) == Seq::<u16>::empty(),
    decreases lines.len(),
{
    if lines.len() > 0 {
        lemma_nothing_more_is_reported(lines.skip(1));
    }
}

/// A watch gives the port of the first line that announces one, and none after
/// it.
pub proof fn first_announcement_is_reported(lines: Seq<Seq<char>>, first: int)
    requires
        0 <= first < lines.len(),
        announced_port(lines[first]) is Some,
        forall|i: int| 0 <= i < first ==> announced_port(#[trigger] lines[i]) is None,
    ensures
        reports(false, lines) == seq![announced_port(lines[first])->0],
    decreases first,
{
    if first == 0 {
        lemma_nothing_more_is_reported(lines.skip(1));
        assert(reports(false, lines) =~= seq![announced_port(lines[0])->0]);
    } else {
        assert(announced_port(lines[0]) is None);
        let rest = lines.skip(1);
        assert forall|i: int| 0 <= i < first - 1 implies announced_port(#[trigger] rest[i]) is None by {
            assert(rest[i] == lines[i + 1]);
        }
        first_announcement_is_reported(rest, first - 1);
    }
}

/// Where no line announces a port, none is given.
pub proof fn silence_is_not_reported(lines: Seq<Seq<char>>)
    requires
        forall|i: int| 0 <= i < lines.len() ==> announced_port(#[trigger] lines[i]) is None,
    ensures
        reports(false, lines) == Seq::<u16>::empty(),
    decreases lines.len(),
{
    if lines.len() > 0 {
        assert(announced_port(lines[0]) is None);
        let rest = lines.skip(1);
        assert forall|i: int| 0 <= i < rest.len() implies announced_port(#[trigger] rest[i]) is None by {
            assert(rest[i] == lines[i + 1]);
        }
        silence_is_not_reported(rest);
    }
}

// ---- the node's last words ------------------------------------------------

/// How many lines of the node's standard error are kept.
pub const TAIL_LINES: usize = 20;

/// The last lines of the node's standard error.
#[derive(Clone, Debug)]
pub struct StderrTail {
    lines: VecDeque<String>,
}

/// The last `n` lines, or all where there are fewer.
pub open spec fn last_lines(lines: Seq<Seq<char>>, n: int) -> Seq<Seq<char>> {
    if lines.len() <= n {
        lines
    } else {
        lines.skip(lines.len() - n)
    }
}

/// The lines that are kept once one more has been taken in.
pub open spec fn with_line(lines: Seq<Seq<char>>, line: Seq<char>) -> Seq<Seq<char>> {
    last_lines(lines.push(line), TAIL_LINES as int)
}

/// The report on the lines that are left.
pub open spec fn tail_report(lines: Seq<Seq<char>>) -> Seq<char> {
    if lines.len() == 0 {
        "[grazel] (node stderr was empty)"@
    } else {
        "[grazel] node stderr tail:\n"@ + joined_texts(lines, '\n')
    }
}

impl View for StderrTail {
    type V = Seq<Seq<char>>;

    closed spec fn view(&self) -> Seq<Seq<char>> {
        texts(self.lines@)
    }
}

impl StderrTail {
    /// No lines yet.
    pub fn new() -> (tail: StderrTail)
        ensures
            tail@ == Seq::<Seq<char>>::empty(),
    {
        let tail = StderrTail { lines: VecDeque::new() };
        assert(tail@ =~= Seq::<Seq<char>>::empty());
        tail
    }

    /// Takes in a line and lets go of those that are too old.
    pub fn push(&mut self, line: String)
        ensures
            final(self)@ == last_lines(old(self)@.push(line@), TAIL_LINES as int),
            final(self)@ == with_line(old(self)@, line@),
    {
        let ghost all = old(self)@.push(line@);
        self.lines.push_back(line);
        assert(self@ =~= all);
        let ghost mut gone: int = 0;
        assert(self@ =~= all.skip(0));
        while self.lines.len() > TAIL_LINES
            invariant
                0 <= gone <= all.len(),
                self@ == all.skip(gone),
                gone > 0 ==> self@.len() >= TAIL_LINES,
            decreases self@.len(),
        {
            let ghost before = self.lines@;
            let _ = self.lines.pop_front();
            assert(self@ =~= texts(before).skip(1));
            assert(all.skip(gone).skip(1) =~= all.skip(gone + 1));
            proof {
                gone = gone + 1;
            }
        }
        assert(all.skip(0) =~= all);
    }

    /// A copy of the lines, oldest first.
    pub fn to_vec(&self) -> (lines: Vec<String>)
        ensures
            texts(lines@) == self@,
    {
        let mut lines: Vec<String> = Vec::new();
        let mut i: usize = 0;
        while i < self.lines.len()
            invariant
                i <= self.lines@.len(),
                lines@.len() == i,
                forall|k: int| 0 <= k < i ==> lines@[k]@ == self@[k],
            decreases self.lines@.len() - i,
        {
            lines.push(self.lines[i].clone());
            i = i + 1;
        }
        assert(texts(lines@) =~= self@);
        lines
    }
}

/// Reports the node's last words.
pub fn stderr_tail(tail: &StderrTail) -> (report: String)
    ensures
        report@ == tail_report(tail@),
{
    let lines = tail.to_vec();
    if lines.len() == 0 {
        "[grazel] (node stderr was empty)".to_owned()
    } else {
        "[grazel] node stderr tail:\n".to_owned().concat(join_texts(&lines, '\n').as_str())
    }
}

/// What is kept of a run of lines, taken in one by one.
pub open spec fn kept(lines: Seq<Seq<char>>) -> Seq<Seq<char>>
    decreases lines.len(),
{
    if lines.len() == 0 {
        Seq::empty()
    } else {
        with_line(kept(lines.drop_last()), lines.last())
    }
}

/// Whatever the node writes, just its last lines are kept, in order, and never
/// more than the limit.
pub proof fn just_the_last_lines_are_kept(lines: Seq<Seq<char>>)
    ensures
        kept(lines) == last_lines(lines, TAIL_LINES as int),
        kept(lines).len() <= TAIL_LINES,
    decreases lines.len(),
{
    if lines.len() > 0 {
        just_the_last_lines_are_kept(lines.drop_last());
        assert(kept(lines) =~= last_lines(lines, TAIL_LINES as int));
    } else {
        assert(lines =~= Seq::<Seq<char>>::empty());
    }
}

// ---- what follows from what happens ---------------------------------------

/// What can happen to a run.
#[derive(Clone, Copy, Debug, PartialEq, Eq, Structural)]
pub enum Event {
    /// The storage layout could not be created.
    StorageFailed,
    /// The node could not be started.
    NodeNotStarted,
    /// The node closed its output before it announced a port.
    NodeSilent,
    /// The node exited; with its exit code, where it has one.
    NodeExited(Option<i32>),
    /// The HTTP server failed.
    HttpFailed,
    /// The supplier could not be started.
    SupplierNotStarted,
    /// The supplier exited.
    SupplierExited,
    /// The process was told to end.
    Signalled,
}

/// What is done about it.
#[derive(Clone, Copy, Debug, PartialEq, Eq, Structural)]
pub struct Reaction {
    /// The process ends with this code.
    pub exit_code: Option<i32>,
    /// The node's last words are shown.
    pub show_tail: bool,
    /// The node is told to end.
    pub stop_node: bool,
    /// The supplier is told to end.
    pub stop_supplier: bool,
}

/// The code with which the process follows the node: the node's own, or 1 where
/// it has none or claims success.
pub open spec fn code_after_node(code: Option<i32>) -> i32 {
    match code {
        Some(code) => if code != 0 {
            code
        } else {
            1
        },
        None => 1,
    }
}

/// Going on as before.
pub open spec fn going_on() -> Reaction {
    Reaction { exit_code: None, show_tail: false, stop_node: false, stop_supplier: false }
}

/// What an event calls for.
pub open spec fn reaction_to(event: Event) -> Reaction {
    match event {
        Event::StorageFailed | Event::NodeNotStarted | Event::HttpFailed => Reaction {
            exit_code: Some(2),
            ..going_on()
        },
        Event::NodeSilent => Reaction { exit_code: Some(1), show_tail: true, ..going_on() },
        Event::NodeExited(code) => Reaction {
            exit_code: Some(code_after_node(code)),
            show_tail: true,
            stop_supplier: true,
            ..going_on()
        },
        Event::SupplierNotStarted | Event::SupplierExited => going_on(),
        Event::Signalled => Reaction {
            exit_code: Some(130),
            stop_node: true,
            stop_supplier: true,
            ..going_on()
        },
    }
}

/// The code with which the process follows the node.
pub fn node_exit_code(code: Option<i32>) -> (exit_code: i32)
    ensures
        exit_code == code_after_node(code),
{
    match code {
        Some(code) => {
            if code != 0 {
                code
            } else {
                1
            }
        },
        None => 1,
    }
}

/// Decides what an event calls for. Nothing is allocated, so this can be called
/// while a signal is handled.
pub fn react(event: Event) -> (reaction: Reaction)
    ensures
        reaction == reaction_to(event),
{
    let mut reaction = Reaction {
        exit_code: None,
        show_tail: false,
        stop_node: false,
        stop_supplier: false,
    };
    match event {
        Event::StorageFailed | Event::NodeNotStarted | Event::HttpFailed => {
            reaction.exit_code = Some(2);
        },
        Event::NodeSilent => {
            reaction.exit_code = Some(1);
            reaction.show_tail = true;
        },
        Event::NodeExited(code) => {
            reaction.exit_code = Some(node_exit_code(code));
            reaction.show_tail = true;
            reaction.stop_supplier = true;
        },
        Event::SupplierNotStarted | Event::SupplierExited => {},
        Event::Signalled => {
            reaction.exit_code = Some(130);
            reaction.stop_node = true;
            reaction.stop_supplier = true;
        },
    }
    reaction
}

/// A run never ends in success: whatever ends it, the exit code is not zero.
pub proof fn no_run_ends_in_success(event: Event)
    ensures
        reaction_to(event).exit_code != Some(0i32),
{
}

/// The node's exit ends the run, shows the node's last words and takes the
/// supplier along. A failure of the node keeps its code.
pub proof fn node_exit_is_fatal(code: Option<i32>)
    ensures
        reaction_to(Event::NodeExited(code)).exit_code is Some,
        reaction_to(Event::NodeExited(code)).show_tail,
        reaction_to(Event::NodeExited(code)).stop_supplier,
        code is Some && code != Some(0i32) ==> reaction_to(Event::NodeExited(code)).exit_code
            == code,
{
}

/// Nothing that happens to a supplier ends the run or touches the node.
pub proof fn suppliers_are_optional(event: Event)
    requires
        event == Event::SupplierNotStarted || event == Event::SupplierExited,
    ensures
        reaction_to(event) == going_on(),
{
}

/// The process to signal for the number of a child, if there is one.
pub open spec fn target_of(pid: i32) -> Option<i32> {
    if pid > 0 {
        Some(pid)
    } else {
        None
    }
}

/// The process to signal, if there is one: a child that was never started, or
/// that has ended, has the number 0. No other process is ever signalled, nor a
/// process group.
pub fn signal_target(pid: i32) -> (target: Option<i32>)
    ensures
        target == target_of(pid),
        target == if pid > 0 {
            Some(pid)
        } else {
            None::<i32>
        },
{
    if pid > 0 {
        Some(pid)
    } else {
        None
    }
}

} // verus!
