//! The help text and the diagnostics that end in it.

use crate::text::begins_with;
use vstd::prelude::*;

verus! {

/// The help text.
pub const USAGE: &'static str = "\
grazel — the gryth node (a glade application; composes glade suppliers)

USAGE:
    grazel --mode local|peer|both [OPTIONS]

OPTIONS:
    --mode <local|peer|both>  run mode (required)
    --name <NAME>             node/session name (default: grazel)
    --data <DIR>              app-owned storage root: DIR/{sys,files,config}
                              (default: grazel-data) — NEVER the real ~/.glade
    --http <PORT>             grazel HTTP (ui + /bootstrap.json) (default: 8080)
    --node-port <PORT>        glade node WS carrier port; 0 = OS-assigned
                              (default: 9099)
    --ui <DIR>                static dir served over HTTP (default: ui)
    --app <FILE.glade>        grazel's app declaration
                              (default: apps/grazel-app.glade)
    --node-bin <PATH>         glade-node binary
                              (default: ../glade/node/target/debug/glade-node)
    --gwz-supplier-bin <PATH> glade-gwz supplier binary; SKIPped when absent
                              (default: ../glade-gwz/target/debug/glade-gwz)
    --no-suppliers            compose no suppliers (node only)
    -h, --help               print this help
";

/// A complaint, a blank line, the help text.
pub open spec fn diagnostic_text(complaint: Seq<char>) -> Seq<char> {
    complaint + "\n\n"@ + USAGE@
}

/// Puts the help text behind a complaint.
pub fn diagnostic(complaint: String) -> (text: String)
    ensures
        text@ == diagnostic_text(complaint@),
{
    complaint.concat("\n\n").concat(USAGE)
}

/// Where the message of a refused command line goes, and how the process ends.
#[derive(Clone, Copy, Debug, PartialEq, Eq, Structural)]
pub struct Refusal {
    /// Printed on standard output rather than on standard error.
    pub to_stdout: bool,
    /// The exit code.
    pub exit_code: i32,
}

/// Where a message goes and how the process then ends.
pub open spec fn refusal_of(message: Seq<char>) -> Refusal {
    if "grazel"@.is_prefix_of(message) {
        Refusal { to_stdout: true, exit_code: 0 }
    } else {
        Refusal { to_stdout: false, exit_code: 2 }
    }
}

/// Requested help begins with the program's name. It goes to standard output
/// and is no failure; every other message goes to standard error, with code 2.
pub fn refusal(message: &str) -> (refusal: Refusal)
    ensures
        refusal == refusal_of(message@),
        refusal.to_stdout == "grazel"@.is_prefix_of(message@),
        refusal.exit_code == (if "grazel"@.is_prefix_of(message@) { 0int } else { 2int }),
{
    let help = begins_with(message, "grazel");
    Refusal {
        to_stdout: help,
        exit_code: if help {
            0
        } else {
            2
        },
    }
}

/// Whether a text stands somewhere in another.
pub open spec fn stands_in(part: Seq<char>, whole: Seq<char>) -> bool {
    exists|from: int, to: int|
        0 <= from <= to <= whole.len() && part == #[trigger] whole.subrange(from, to)
}

/// The help text begins with the program's name.
pub proof fn usage_begins_with_the_program()
    ensures
        "grazel"@.is_prefix_of(USAGE@),
{
    lemma_help_text();
}

/// Every option stands in the help text, and so does the default of every option
/// that has one.
pub proof fn lemma_help_text()
    ensures
        "grazel"@.is_prefix_of(USAGE@),
        stands_in("--mode"@, USAGE@),
        stands_in("--name"@, USAGE@),
        stands_in("--data"@, USAGE@),
        stands_in("--http"@, USAGE@),
        stands_in("--node-port"@, USAGE@),
        stands_in("--ui"@, USAGE@),
        stands_in("--app"@, USAGE@),
        stands_in("--node-bin"@, USAGE@),
        stands_in("--gwz-supplier-bin"@, USAGE@),
        stands_in("--no-suppliers"@, USAGE@),
        stands_in("--help"@, USAGE@),
        stands_in("-h"@, USAGE@),
        stands_in("(default: grazel)"@, USAGE@),
        stands_in("(default: grazel-data)"@, USAGE@),
        stands_in("(default: 8080)"@, USAGE@),
        stands_in("(default: 9099)"@, USAGE@),
        stands_in("(default: ui)"@, USAGE@),
        stands_in("(default: apps/grazel-app.glade)"@, USAGE@),
        stands_in("(default: ../glade/node/target/debug/glade-node)"@, USAGE@),
        stands_in("(default: ../glade-gwz/target/debug/glade-gwz)"@, USAGE@),
{
    reveal_strlit("grazel");
    reveal_strlit("--mode");
    reveal_strlit("--name");
    reveal_strlit("--data");
    reveal_strlit("--http");
    reveal_strlit("--node-port");
    reveal_strlit("--ui");
    reveal_strlit("--app");
    reveal_strlit("--node-bin");
    reveal_strlit("--gwz-supplier-bin");
    reveal_strlit("--no-suppliers");
    reveal_strlit("--help");
    reveal_strlit("-h");
    reveal_strlit("(default: grazel)");
    reveal_strlit("(default: grazel-data)");
    reveal_strlit("(default: 8080)");
    reveal_strlit("(default: 9099)");
    reveal_strlit("(default: ui)");
    reveal_strlit("(default: apps/grazel-app.glade)");
    reveal_strlit("(default: ../glade/node/target/debug/glade-node)");
    reveal_strlit("(default: ../glade-gwz/target/debug/glade-gwz)");
    // Only a literal can be revealed, so the help text is spelled out again.
    reveal_strlit("\
grazel — the gryth node (a glade application; composes glade suppliers)

USAGE:
    grazel --mode local|peer|both [OPTIONS]

OPTIONS:
    --mode <local|peer|both>  run mode (required)
    --name <NAME>             node/session name (default: grazel)
    --data <DIR>              app-owned storage root: DIR/{sys,files,config}
                              (default: grazel-data) — NEVER the real ~/.glade
    --http <PORT>             grazel HTTP (ui + /bootstrap.json) (default: 8080)
    --node-port <PORT>        glade node WS carrier port; 0 = OS-assigned
                              (default: 9099)
    --ui <DIR>                static dir served over HTTP (default: ui)
    --app <FILE.glade>        grazel's app declaration
                              (default: apps/grazel-app.glade)
    --node-bin <PATH>         glade-node binary
                              (default: ../glade/node/target/debug/glade-node)
    --gwz-supplier-bin <PATH> glade-gwz supplier binary; SKIPped when absent
                              (default: ../glade-gwz/target/debug/glade-gwz)
    --no-suppliers            compose no suppliers (node only)
    -h, --help               print this help
");
    assert("grazel"@ =~= USAGE@.subrange(0, "grazel"@.len() as int));
    assert("--mode"@ =~= USAGE@.subrange(138, 144));
    assert("--name"@ =~= USAGE@.subrange(188, 194));
    assert("--data"@ =~= USAGE@.subrange(254, 260));
    assert("--http"@ =~= USAGE@.subrange(410, 416));
    assert("--node-port"@ =~= USAGE@.subrange(491, 502));
    assert("--ui"@ =~= USAGE@.subrange(611, 615));
    assert("--app"@ =~= USAGE@.subrange(683, 688));
    assert("--node-bin"@ =~= USAGE@.subrange(801, 811));
    assert("--gwz-supplier-bin"@ =~= USAGE@.subrange(928, 946));
    assert("--no-suppliers"@ =~= USAGE@.subrange(1082, 1096));
    assert("--help"@ =~= USAGE@.subrange(1149, 1155));
    assert("-h"@ =~= USAGE@.subrange(1145, 1147));
    assert("(default: grazel)"@ =~= USAGE@.subrange(232, 249));
    assert("(default: grazel-data)"@ =~= USAGE@.subrange(357, 379));
    assert("(default: 8080)"@ =~= USAGE@.subrange(471, 486));
    assert("(default: 9099)"@ =~= USAGE@.subrange(591, 606));
    assert("(default: ui)"@ =~= USAGE@.subrange(665, 678));
    assert("(default: apps/grazel-app.glade)"@ =~= USAGE@.subrange(764, 796));
    assert("(default: ../glade/node/target/debug/glade-node)"@ =~= USAGE@.subrange(875, 923));
    assert("(default: ../glade-gwz/target/debug/glade-gwz)"@ =~= USAGE@.subrange(1031, 1077));
}

} // verus!
