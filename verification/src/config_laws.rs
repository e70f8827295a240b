//! What holds of every command line.

use crate::bootstrap::node_url;
use crate::bootstrap_laws::{behind, port_reads_back_from_the_address};
use crate::config::{
    bad_mode_complaint, bad_port_complaint, first_fault, flag_named, is_given, last_value, missing_value_complaint,
    outcome, width, Config, Fault, Flag, Settings,
};
use crate::mode::{mode_named, names_and_modes_correspond, profiles_are_modes, Mode};
use crate::paths::{
    joining_keeps_sameness, layout, layout_lies_under_the_root, lemma_layout_segments, named_segments, same_path,
};
use crate::text::{debug_quoted, decimal, u16_value, written_number_reads_back};
use crate::usage::{
    diagnostic_text, lemma_help_text, refusal_of, stands_in, usage_begins_with_the_program, USAGE,
};
use vstd::prelude::*;
use vstd::std_specs::cmp::PartialEqSpec;

verus! {

/// The lengths of the options as they are written, and the characters that tell
/// those of one length apart.
proof fn lemma_option_texts()
    ensures
        "-h"@.len() == 2,
        "--ui"@.len() == 4 && "--ui"@[0] == '-',
        "--app"@.len() == 5 && "--app"@[0] == '-',
        "--mode"@.len() == 6 && "--mode"@[0] == '-' && "--mode"@[2] == 'm',
        "--name"@.len() == 6 && "--name"@[0] == '-' && "--name"@[2] == 'n',
        "--data"@.len() == 6 && "--data"@[0] == '-' && "--data"@[2] == 'd',
        "--http"@.len() == 6 && "--http"@[0] == '-' && "--http"@[2] == 'h' && "--http"@[3] == 't',
        "--help"@.len() == 6 && "--help"@[0] == '-' && "--help"@[2] == 'h' && "--help"@[3] == 'e',
        "--node-bin"@.len() == 10 && "--node-bin"@[0] == '-',
        "--node-port"@.len() == 11 && "--node-port"@[0] == '-',
        "--no-suppliers"@.len() == 14 && "--no-suppliers"@[0] == '-',
        "--gwz-supplier-bin"@.len() == 18 && "--gwz-supplier-bin"@[0] == '-',
{
    reveal_strlit("-h");
    reveal_strlit("--ui");
    reveal_strlit("--app");
    reveal_strlit("--mode");
    reveal_strlit("--name");
    reveal_strlit("--data");
    reveal_strlit("--http");
    reveal_strlit("--help");
    reveal_strlit("--node-bin");
    reveal_strlit("--node-port");
    reveal_strlit("--no-suppliers");
    reveal_strlit("--gwz-supplier-bin");
}

/// An option is found by the way it is written.
pub proof fn written_option_is_found(flag: Flag)
    ensures
        flag_named(flag.text()) == Some(flag),
{
    lemma_option_texts();
}

/// An argument is an option exactly where it is spelled as one; help alone has
/// two spellings. Every option but the one that switches the suppliers off and
/// help takes a value, and two of those values are ports.
pub proof fn options_are_spelled_in_full(arg: Seq<char>)
    ensures
        flag_named(arg) == Some(Flag::Mode) <==> arg == "--mode"@,
        flag_named(arg) == Some(Flag::Name) <==> arg == "--name"@,
        flag_named(arg) == Some(Flag::Data) <==> arg == "--data"@,
        flag_named(arg) == Some(Flag::Http) <==> arg == "--http"@,
        flag_named(arg) == Some(Flag::NodePort) <==> arg == "--node-port"@,
        flag_named(arg) == Some(Flag::Ui) <==> arg == "--ui"@,
        flag_named(arg) == Some(Flag::App) <==> arg == "--app"@,
        flag_named(arg) == Some(Flag::NodeBin) <==> arg == "--node-bin"@,
        flag_named(arg) == Some(Flag::GwzSupplierBin) <==> arg == "--gwz-supplier-bin"@,
        flag_named(arg) == Some(Flag::NoSuppliers) <==> arg == "--no-suppliers"@,
        flag_named(arg) == Some(Flag::Help) <==> arg == "--help"@ || arg == "-h"@,
        flag_named(arg) is Some && arg != "-h"@ ==> flag_named(arg)->0.text() == arg,
        flag_named(arg) is Some ==> (flag_named(arg)->0.takes_value() <==> arg
            != "--no-suppliers"@ && arg != "--help"@ && arg != "-h"@),
        flag_named(arg) is Some ==> (flag_named(arg)->0.takes_port() <==> arg == "--http"@ || arg
            == "--node-port"@),
{
    lemma_option_texts();
}

/// A faultless run of options is read on its own, whatever follows it.
proof fn lemma_read_in_two_parts(
    front: Seq<Seq<char>>,
    back: Seq<Seq<char>>,
    flag: Flag,
    otherwise: Option<Seq<char>>,
)
    requires
        first_fault(front) is None,
    ensures
        first_fault(front + back) == first_fault(back),
        last_value(front + back, flag, otherwise) == last_value(
            back,
            flag,
            last_value(front, flag, otherwise),
        ),
        is_given(front + back, flag) == (is_given(front, flag) || is_given(back, flag)),
    decreases front.len(),
{
    let whole = front + back;
    if front.len() == 0 {
        assert(whole =~= back);
    } else {
        assert(whole[0] == front[0]);
        assert(width(whole) == width(front));
        if width(front) == 2 {
            assert(whole[1] == front[1]);
        }
        let rest = front.skip(width(front));
        assert(whole.skip(width(whole)) =~= rest + back);
        let so_far = if flag_named(front[0]) == Some(flag) && width(front) == 2 {
            Some(front[1])
        } else {
            otherwise
        };
        lemma_read_in_two_parts(rest, back, flag, so_far);
    }
}

proof fn lemma_first_fault_stays(args: Seq<Seq<char>>, rest: Seq<Seq<char>>)
    requires
        first_fault(args) is Some,
        !(first_fault(args)->0 is MissingValue),
    ensures
        first_fault(args + rest) == first_fault(args),
    decreases args.len(),
{
    let whole = args + rest;
    assert(whole[0] == args[0]);
    if args.len() > 1 {
        assert(whole[1] == args[1]);
    }
    match flag_named(args[0]) {
        Some(flag) => if flag != Flag::Help && !(flag.takes_port() && u16_value(args[1]) is None) {
            assert(width(whole) == width(args));
            assert(whole.skip(width(whole)) =~= args.skip(width(args)) + rest);
            lemma_first_fault_stays(args.skip(width(args)), rest);
        },
        None => {},
    }
}

/// The first fault decides, whatever comes later. An option that lacks its
/// value is left out: the next argument would be that value.
pub proof fn first_fault_decides(args: Seq<Seq<char>>, rest: Seq<Seq<char>>)
    requires
        first_fault(args) is Some,
        !(first_fault(args)->0 is MissingValue),
    ensures
        outcome(args + rest) == Err::<Settings, Fault>(first_fault(args)->0),
{
    lemma_first_fault_stays(args, rest);
}

/// Whether arguments are read to their end: at most the mode is still missing or
/// wrong then.
pub open spec fn reads_through(args: Seq<Seq<char>>) -> bool {
    match outcome(args) {
        Ok(_) => true,
        Err(fault) => fault is ModeRequired || fault is BadMode,
    }
}

proof fn lemma_read_through(args: Seq<Seq<char>>)
    ensures
        reads_through(args) <==> first_fault(args) is None,
{
    lemma_no_fault_of_the_mode(args);
}

proof fn lemma_no_fault_of_the_mode(args: Seq<Seq<char>>)
    ensures
        first_fault(args) is Some ==> !(first_fault(args)->0 is ModeRequired) && !(first_fault(
            args,
        )->0 is BadMode),
    decreases args.len(),
{
    if args.len() > 0 {
        lemma_no_fault_of_the_mode(args.skip(width(args)));
    }
}

/// Help is given wherever it is asked for behind faultless options, whatever
/// comes later and whether or not a mode was given.
pub proof fn help_wins(before: Seq<Seq<char>>, help: Seq<char>, rest: Seq<Seq<char>>)
    requires
        first_fault(before) is None,
        help == "-h"@ || help == "--help"@,
    ensures
        outcome(before + seq![help] + rest) == Err::<Settings, Fault>(Fault::Help),
{
    lemma_option_texts();
    lemma_read_in_two_parts(before, seq![help] + rest, Flag::Mode, None);
    assert(before + seq![help] + rest =~= before + (seq![help] + rest));
    assert((seq![help] + rest)[0] == help);
}

/// Arguments that are read to their end have no fault, so help asked for behind
/// them is given.
pub proof fn help_is_given_behind_any_options(
    before: Seq<Seq<char>>,
    help: Seq<char>,
    rest: Seq<Seq<char>>,
)
    requires
        reads_through(before),
        help == "-h"@ || help == "--help"@,
    ensures
        first_fault(before) is None,
        outcome(before + seq![help] + rest) == Err::<Settings, Fault>(Fault::Help),
{
    lemma_read_through(before);
    help_wins(before, help, rest);
}

/// Every refusal ends in the help text. It is the help text alone exactly where
/// help was asked for, and just then it begins with the program's name, which
/// is how a refusal that is no failure is told from the others.
pub proof fn refusals_carry_the_help_text(args: Seq<Seq<char>>)
    requires
        outcome(args) is Err,
    ensures
        USAGE@.is_suffix_of(outcome(args)->Err_0.message()),
        outcome(args)->Err_0.message() == USAGE@ <==> outcome(args)->Err_0 is Help,
        "grazel"@.is_prefix_of(outcome(args)->Err_0.message()) <==> outcome(
            args,
        )->Err_0 is Help,
{
    let fault = outcome(args)->Err_0;
    let message = fault.message();
    usage_begins_with_the_program();
    lemma_option_texts();
    reveal_strlit("grazel");
    reveal_strlit("\n\n");
    reveal_strlit("unknown argument: ");
    reveal_strlit("--mode is required (local|peer|both)");
    reveal_strlit("invalid --mode ");
    match fault {
        Fault::MissingValue(flag) => {
            assert(flag.text()[0] == '-');
            assert(message[0] == '-');
        },
        Fault::BadPort(flag, value) => {
            assert(flag.text()[0] == '-');
            assert(message[0] == '-');
        },
        Fault::Unknown(arg) => {
            assert(message[0] == 'u');
        },
        Fault::ModeRequired => {
            assert(message[0] == '-');
        },
        Fault::BadMode(mode) => {
            assert(message[0] == 'i');
        },
        Fault::Help => {},
    }
    assert("grazel"@[0] == 'g');
    if "grazel"@.is_prefix_of(message) {
        assert(message.subrange(0, "grazel"@.len() as int)[0] == message[0]);
    }
    assert(USAGE@ =~= message.subrange(message.len() - USAGE@.len(), message.len() as int));
}

/// Asking for help is the one refusal that is no failure: it is shown on
/// standard output and ends with code 0. Every other one is shown on standard
/// error and ends with code 2.
pub proof fn only_help_is_no_failure(args: Seq<Seq<char>>)
    requires
        outcome(args) is Err,
    ensures
        refusal_of(outcome(args)->Err_0.message()).to_stdout <==> outcome(args)->Err_0 is Help,
        refusal_of(outcome(args)->Err_0.message()).exit_code == if outcome(args)->Err_0 is Help {
            0int
        } else {
            2int
        },
{
    refusals_carry_the_help_text(args);
}

/// A refusal says what is wrong in one line that shows the offending argument,
/// and goes on with an empty line and the help text.
pub proof fn refusals_say_what_is_wrong(flag: Flag, text: Seq<char>, quoted: Seq<char>)
    ensures
        Fault::Help.message() == USAGE@,
        Fault::Unknown(text).message() == "unknown argument: "@ + text + "\n\n"@ + USAGE@,
        Fault::MissingValue(flag).message() == flag.text() + " needs a value"@ + "\n\n"@ + USAGE@,
        Fault::BadPort(flag, text).message() == flag.text() + ": "@ + debug_quoted(text)
            + " is not a valid port"@ + "\n\n"@ + USAGE@,
        Fault::ModeRequired.message() == "--mode is required (local|peer|both)"@ + "\n\n"@ + USAGE@,
        Fault::BadMode(text).message() == "invalid --mode "@ + debug_quoted(text)
            + " (want local|peer|both)"@ + "\n\n"@ + USAGE@,
        diagnostic_text(missing_value_complaint(text)) == text + " needs a value"@ + "\n\n"@
            + USAGE@,
        diagnostic_text(bad_port_complaint(text, quoted)) == text + ": "@ + quoted
            + " is not a valid port"@ + "\n\n"@ + USAGE@,
        diagnostic_text(bad_mode_complaint(quoted)) == "invalid --mode "@ + quoted
            + " (want local|peer|both)"@ + "\n\n"@ + USAGE@,
{
}

/// The node's home is the first slot of the storage layout and the supplier's
/// root the second. Both lie under the storage root, and they are not the same:
/// the node never sees what the application stores.
pub proof fn node_and_supplier_keep_apart(settings: Settings, port: u16)
    ensures
        settings.glade_home() == layout(settings.data)[0],
        settings.gwz_supplier_argv(port)[3] == layout(settings.data)[1],
        settings.glade_home() != settings.gwz_supplier_argv(port)[3],
        settings.data.is_prefix_of(settings.glade_home()),
        settings.data.is_prefix_of(settings.gwz_supplier_argv(port)[3]),
        named_segments(settings.glade_home()) == named_segments(settings.data).push("sys"@),
        named_segments(settings.gwz_supplier_argv(port)[3]) == named_segments(settings.data).push(
            "files"@,
        ),
{
    layout_lies_under_the_root(settings.data);
    assert(layout(settings.data)[0] != layout(settings.data)[1]);
    lemma_layout_segments(settings.data);
}

/// Equality of configurations is an equivalence, and equal configurations have
/// the same home for the node and the same root for the supplier.
pub proof fn equal_configurations_agree(a: Settings, b: Settings, c: Settings)
    ensures
        a.same_as(a),
        a.same_as(b) == b.same_as(a),
        a.same_as(b) && b.same_as(c) ==> a.same_as(c),
        a.same_as(b) ==> same_path(a.glade_home(), b.glade_home()),
        a.same_as(b) ==> forall|port: u16|
            same_path(
                #[trigger] a.gwz_supplier_argv(port)[3],
                b.gwz_supplier_argv(port)[3],
            ),
{
    if a.same_as(b) {
        joining_keeps_sameness(a.data, b.data, "sys"@);
        joining_keeps_sameness(a.data, b.data, "files"@);
    }
}

/// The node is told the profile of the mode, the name, the declaration and the
/// port of the configuration: each can be read back from its arguments.
pub proof fn node_is_told_the_configuration(settings: Settings)
    ensures
        mode_named(settings.node_argv()[1]) is Some,
        settings.node_argv()[1] == settings.mode.profile(),
        settings.node_argv()[3] == settings.name,
        settings.node_argv()[5] == settings.app,
        u16_value(settings.node_argv()[6]) == Some(settings.node_port),
{
    profiles_are_modes(settings.mode);
    written_number_reads_back(settings.node_port);
}

/// The node gets its profile, name and declaration, each behind its option, and
/// its port last; nothing else is among its arguments.
pub proof fn node_gets_three_options_and_its_port(settings: Settings)
    ensures
        settings.node_argv().len() == 7,
        settings.node_argv()[0] == "--profile"@,
        settings.node_argv()[1] == if settings.mode == Mode::Peer {
            "peer"@
        } else {
            "local"@
        },
        settings.node_argv()[2] == "--name"@,
        settings.node_argv()[3] == settings.name,
        settings.node_argv()[4] == "--app"@,
        settings.node_argv()[5] == settings.app,
        u16_value(settings.node_argv().last()) == Some(settings.node_port),
        settings.node_argv().last() == decimal(settings.node_port as nat),
{
    written_number_reads_back(settings.node_port);
}

/// The node never learns where the application stores its data: its arguments
/// depend on the profile, the name, the declaration and the port alone.
pub proof fn node_is_not_told_the_storage_root(a: Settings, b: Settings)
    requires
        a.mode.profile() == b.mode.profile(),
        a.name == b.name,
        a.app == b.app,
        a.node_port == b.node_port,
    ensures
        a.node_argv() == b.node_argv(),
{
}

/// The supplier gets the address of the node at the port where the node listens,
/// whatever port was configured, and its root, share and principal, each behind
/// its option.
pub proof fn supplier_gets_the_live_port(settings: Settings, port: u16)
    ensures
        settings.gwz_supplier_argv(port).len() == 8,
        settings.gwz_supplier_argv(port)[0] == "--node"@,
        behind(settings.gwz_supplier_argv(port)[1], "ws://127.0.0.1:"@) is Some,
        u16_value(behind(settings.gwz_supplier_argv(port)[1], "ws://127.0.0.1:"@)->0) == Some(port),
        settings.gwz_supplier_argv(port)[1] == "ws://127.0.0.1:"@ + decimal(port as nat),
        settings.gwz_supplier_argv(port)[2] == "--root"@,
        named_segments(settings.gwz_supplier_argv(port)[3]) == named_segments(settings.data).push(
            "files"@,
        ),
        settings.gwz_supplier_argv(port)[4] == "--share"@,
        settings.gwz_supplier_argv(port)[5] == "ws-razel"@,
        settings.gwz_supplier_argv(port)[6] == "--principal"@,
        settings.gwz_supplier_argv(port)[7] == "grazel"@,
{
    port_reads_back_from_the_address(port);
    lemma_layout_segments(settings.data);
    assert(settings.gwz_supplier_argv(port)[1] == node_url(port));
}

/// Of the configuration the supplier is told the storage root alone: neither the
/// configured port nor the mode nor any name has a say in its arguments.
pub proof fn supplier_depends_on_the_storage_root_alone(a: Settings, b: Settings, port: u16)
    requires
        a.data == b.data,
    ensures
        a.gwz_supplier_argv(port) == b.gwz_supplier_argv(port),
        a.glade_home() == b.glade_home(),
{
}

/// Suppliers attached at different ports are told different addresses.
pub proof fn different_ports_give_different_addresses(settings: Settings, one: u16, other: u16)
    requires
        one != other,
    ensures
        settings.gwz_supplier_argv(one)[1] != settings.gwz_supplier_argv(other)[1],
{
    port_reads_back_from_the_address(one);
    port_reads_back_from_the_address(other);
}

/// A configuration is read field by field, and every field as it is.
pub proof fn configurations_are_read_as_they_are(config: Config)
    ensures
        config@.mode == config.mode,
        config@.name == config.name@,
        config@.data == config.data@,
        config@.http_port == config.http_port,
        config@.node_port == config.node_port,
        config@.ui == config.ui@,
        config@.app == config.app@,
        config@.node_bin == config.node_bin@,
        config@.gwz_supplier_bin == config.gwz_supplier_bin@,
        config@.no_suppliers == config.no_suppliers,
{
}

/// Configurations are equal exactly where each of their settings is: paths by
/// what they name, all else by value.
pub proof fn every_setting_counts_for_equality(a: Settings, b: Settings)
    ensures
        a.same_as(b) <==> {
            &&& a.mode == b.mode && a.name == b.name && a.no_suppliers == b.no_suppliers
            &&& a.http_port == b.http_port && a.node_port == b.node_port
            &&& same_path(a.data, b.data) && same_path(a.ui, b.ui) && same_path(a.app, b.app)
            &&& same_path(a.node_bin, b.node_bin)
            &&& same_path(a.gwz_supplier_bin, b.gwz_supplier_bin)
        },
{
}

/// Comparing two configurations compares every field: five of them as paths, the
/// others by value.
pub proof fn comparing_compares_every_field(a: Config, b: Config)
    ensures
        a.eq_spec(&b) <==> {
            &&& a.mode == b.mode && a.name@ == b.name@ && a.no_suppliers == b.no_suppliers
            &&& a.http_port == b.http_port && a.node_port == b.node_port
            &&& same_path(a.data@, b.data@) && same_path(a.ui@, b.ui@) && same_path(a.app@, b.app@)
            &&& same_path(a.node_bin@, b.node_bin@)
            &&& same_path(a.gwz_supplier_bin@, b.gwz_supplier_bin@)
        },
{
}

/// The settings with the value of one option replaced.
pub open spec fn with_value(settings: Settings, flag: Flag, value: Seq<char>) -> Settings {
    match flag {
        Flag::Mode => Settings { mode: mode_named(value)->0, ..settings },
        Flag::Name => Settings { name: value, ..settings },
        Flag::Data => Settings { data: value, ..settings },
        Flag::Http => Settings { http_port: u16_value(value)->0, ..settings },
        Flag::NodePort => Settings { node_port: u16_value(value)->0, ..settings },
        Flag::Ui => Settings { ui: value, ..settings },
        Flag::App => Settings { app: value, ..settings },
        Flag::NodeBin => Settings { node_bin: value, ..settings },
        Flag::GwzSupplierBin => Settings { gwz_supplier_bin: value, ..settings },
        Flag::NoSuppliers | Flag::Help => settings,
    }
}

/// Whether an option can have a value.
pub open spec fn accepts(flag: Flag, value: Seq<char>) -> bool {
    &&& flag.takes_value()
    &&& flag.takes_port() ==> u16_value(value) is Some
    &&& flag == Flag::Mode ==> mode_named(value) is Some
}

proof fn lemma_one_option(flag: Flag, value: Seq<char>, of: Flag, otherwise: Option<Seq<char>>)
    requires
        flag.takes_value(),
        flag.takes_port() ==> u16_value(value) is Some,
    ensures
        first_fault(seq![flag.text(), value]) is None,
        last_value(seq![flag.text(), value], of, otherwise) == if of == flag {
            Some(value)
        } else {
            otherwise
        },
        of == Flag::NoSuppliers ==> !is_given(seq![flag.text(), value], of),
{
    written_option_is_found(flag);
    let args = seq![flag.text(), value];
    assert(args.skip(2) =~= Seq::<Seq<char>>::empty());
    assert(width(args) == 2);
    reveal_with_fuel(first_fault, 2);
    reveal_with_fuel(last_value, 2);
    reveal_with_fuel(is_given, 2);
}

/// A value given later replaces an earlier one, and touches no other setting.
pub proof fn later_value_wins(args: Seq<Seq<char>>, flag: Flag, value: Seq<char>)
    requires
        outcome(args) is Ok,
        accepts(flag, value),
    ensures
        outcome(args + seq![flag.text(), value]) == Ok::<Settings, Fault>(
            with_value(outcome(args)->Ok_0, flag, value),
        ),
{
    let added = seq![flag.text(), value];
    assert forall|of: Flag, otherwise: Option<Seq<char>>|
        #[trigger] last_value(args + added, of, otherwise) == (if of == flag {
            Some(value)
        } else {
            last_value(args, of, otherwise)
        }) by {
        lemma_read_in_two_parts(args, added, of, otherwise);
        lemma_one_option(flag, value, of, last_value(args, of, otherwise));
    }
    lemma_read_in_two_parts(args, added, Flag::NoSuppliers, None);
    lemma_one_option(flag, value, Flag::NoSuppliers, None);
    assert(outcome(args + added)->Ok_0 =~= with_value(outcome(args)->Ok_0, flag, value));
}

/// Switching the suppliers off touches no other setting.
pub proof fn suppliers_can_be_switched_off(args: Seq<Seq<char>>)
    requires
        outcome(args) is Ok,
    ensures
        outcome(args + seq![Flag::NoSuppliers.text()]) == Ok::<Settings, Fault>(
            Settings { no_suppliers: true, ..outcome(args)->Ok_0 },
        ),
{
    let added = seq![Flag::NoSuppliers.text()];
    assert forall|of: Flag, otherwise: Option<Seq<char>>|
        #[trigger] last_value(args + added, of, otherwise) == last_value(args, of, otherwise) by {
        lemma_read_in_two_parts(args, added, of, otherwise);
        lemma_suppliers_off(of, last_value(args, of, otherwise));
    }
    lemma_read_in_two_parts(args, added, Flag::NoSuppliers, None);
    lemma_suppliers_off(Flag::NoSuppliers, None);
    assert(outcome(args + added)->Ok_0 =~= Settings {
        no_suppliers: true,
        ..outcome(args)->Ok_0
    });
}

/// Two different options can change places wherever they are read, even where
/// one of them gives a mode that there is not.
pub proof fn options_can_change_places(
    before: Seq<Seq<char>>,
    one: Flag,
    one_value: Seq<char>,
    other: Flag,
    other_value: Seq<char>,
    rest: Seq<Seq<char>>,
)
    requires
        reads_through(before),
        one != other,
        one.takes_value() && other.takes_value(),
        one.takes_port() ==> u16_value(one_value) is Some,
        other.takes_port() ==> u16_value(other_value) is Some,
    ensures
        outcome(before + seq![one.text(), one_value, other.text(), other_value] + rest) == outcome(
            before + seq![other.text(), other_value, one.text(), one_value] + rest,
        ),
{
    let a = seq![one.text(), one_value];
    let b = seq![other.text(), other_value];
    let ab = before + seq![one.text(), one_value, other.text(), other_value] + rest;
    let ba = before + seq![other.text(), other_value, one.text(), one_value] + rest;
    lemma_read_through(before);
    assert(ab =~= before + (a + (b + rest)));
    assert(ba =~= before + (b + (a + rest)));
    assert forall|of: Flag, otherwise: Option<Seq<char>>|
        #[trigger] last_value(ab, of, otherwise) == last_value(ba, of, otherwise) && first_fault(ab)
            == first_fault(ba) && (of == Flag::NoSuppliers ==> is_given(ab, of) == is_given(ba, of)) by {
        let start = last_value(before, of, otherwise);
        lemma_read_in_two_parts(before, a + (b + rest), of, otherwise);
        lemma_read_in_two_parts(before, b + (a + rest), of, otherwise);
        lemma_one_option(one, one_value, of, start);
        lemma_one_option(other, other_value, of, start);
        lemma_read_in_two_parts(a, b + rest, of, start);
        lemma_read_in_two_parts(b, a + rest, of, start);
        let after_a = last_value(a, of, start);
        let after_b = last_value(b, of, start);
        lemma_one_option(other, other_value, of, after_a);
        lemma_one_option(one, one_value, of, after_b);
        lemma_read_in_two_parts(b, rest, of, after_a);
        lemma_read_in_two_parts(a, rest, of, after_b);
    }
    assert(last_value(ab, Flag::NoSuppliers, None) == last_value(ba, Flag::NoSuppliers, None));
}

/// Two different options can change places.
pub proof fn order_of_options_is_free(
    before: Seq<Seq<char>>,
    one: Flag,
    one_value: Seq<char>,
    other: Flag,
    other_value: Seq<char>,
    rest: Seq<Seq<char>>,
)
    requires
        first_fault(before) is None,
        one != other,
        accepts(one, one_value),
        accepts(other, other_value),
    ensures
        outcome(before + seq![one.text(), one_value, other.text(), other_value] + rest) == outcome(
            before + seq![other.text(), other_value, one.text(), one_value] + rest,
        ),
{
    lemma_read_through(before);
    options_can_change_places(before, one, one_value, other, other_value, rest);
}

proof fn lemma_value_comes_from_its_option(args: Seq<Seq<char>>, flag: Flag)
    requires
        last_value(args, flag, None) is Some,
    ensures
        exists|i: int| 0 <= i < args.len() && flag_named(#[trigger] args[i]) == Some(flag),
    decreases args.len(),
{
    if flag_named(args[0]) != Some(flag) || width(args) != 2 {
        let rest = args.skip(width(args));
        lemma_value_comes_from_its_option(rest, flag);
        let i = choose|i: int| 0 <= i < rest.len() && flag_named(#[trigger] rest[i]) == Some(flag);
        assert(args[i + width(args)] == rest[i]);
    } else {
        assert(flag_named(args[0]) == Some(flag));
    }
}

/// No configuration comes of a command line without a mode.
pub proof fn mode_is_required(args: Seq<Seq<char>>)
    requires
        forall|i: int| 0 <= i < args.len() ==> flag_named(#[trigger] args[i]) != Some(Flag::Mode),
    ensures
        outcome(args) is Err,
        reads_through(args) ==> outcome(args) == Err::<Settings, Fault>(Fault::ModeRequired),
{
    lemma_read_through(args);
    if last_value(args, Flag::Mode, None) is Some {
        lemma_value_comes_from_its_option(args, Flag::Mode);
    }
}

/// An argument that is no option is refused behind options that are read, and
/// shown in the refusal, whatever comes later.
pub proof fn unknown_arguments_are_refused(
    before: Seq<Seq<char>>,
    arg: Seq<char>,
    rest: Seq<Seq<char>>,
)
    requires
        reads_through(before),
        !seq![
            "--mode"@,
            "--name"@,
            "--data"@,
            "--http"@,
            "--node-port"@,
            "--ui"@,
            "--app"@,
            "--node-bin"@,
            "--gwz-supplier-bin"@,
            "--no-suppliers"@,
            "--help"@,
            "-h"@,
        ].contains(arg),
    ensures
        outcome(before + seq![arg] + rest) == Err::<Settings, Fault>(Fault::Unknown(arg)),
{
    let options = seq![
        "--mode"@,
        "--name"@,
        "--data"@,
        "--http"@,
        "--node-port"@,
        "--ui"@,
        "--app"@,
        "--node-bin"@,
        "--gwz-supplier-bin"@,
        "--no-suppliers"@,
        "--help"@,
        "-h"@,
    ];
    assert(arg != options[0] && arg != options[1] && arg != options[2] && arg != options[3] && arg
        != options[4] && arg != options[5] && arg != options[6] && arg != options[7] && arg
        != options[8] && arg != options[9] && arg != options[10] && arg != options[11]);
    lemma_read_through(before);
    lemma_read_in_two_parts(before, seq![arg] + rest, Flag::Mode, None);
    assert(before + seq![arg] + rest =~= before + (seq![arg] + rest));
    assert((seq![arg] + rest)[0] == arg);
}

/// An option that needs a value but ends the command line is refused.
pub proof fn missing_values_are_refused(before: Seq<Seq<char>>, flag: Flag)
    requires
        reads_through(before),
        flag.takes_value(),
    ensures
        outcome(before + seq![flag.text()]) == Err::<Settings, Fault>(Fault::MissingValue(flag)),
{
    lemma_read_through(before);
    written_option_is_found(flag);
    lemma_read_in_two_parts(before, seq![flag.text()], Flag::Mode, None);
}

/// A value that is no port is refused where a port is due, and shown in the
/// refusal, whatever comes later.
pub proof fn bad_ports_are_refused(
    before: Seq<Seq<char>>,
    flag: Flag,
    value: Seq<char>,
    rest: Seq<Seq<char>>,
)
    requires
        reads_through(before),
        flag.takes_port(),
        u16_value(value) is None,
    ensures
        outcome(before + seq![flag.text(), value] + rest) == Err::<Settings, Fault>(
            Fault::BadPort(flag, value),
        ),
{
    let tail = seq![flag.text(), value] + rest;
    lemma_read_through(before);
    written_option_is_found(flag);
    lemma_read_in_two_parts(before, tail, Flag::Mode, None);
    assert(before + seq![flag.text(), value] + rest =~= before + tail);
    assert(tail[0] == flag.text() && tail[1] == value);
}

/// A mode that there is not is refused, and shown in the refusal, unless it is
/// replaced later.
pub proof fn bad_modes_are_refused(before: Seq<Seq<char>>, value: Seq<char>)
    requires
        reads_through(before),
        value != "local"@,
        value != "peer"@,
        value != "both"@,
    ensures
        outcome(before + seq!["--mode"@, value]) == Err::<Settings, Fault>(Fault::BadMode(value)),
{
    let added = seq![Flag::Mode.text(), value];
    lemma_read_through(before);
    lemma_read_in_two_parts(before, added, Flag::Mode, None);
    lemma_one_option(Flag::Mode, value, Flag::Mode, last_value(before, Flag::Mode, None));
    names_and_modes_correspond(value, Mode::Local);
    names_and_modes_correspond(value, Mode::Peer);
    names_and_modes_correspond(value, Mode::Both);
}

/// No arguments lack the mode, and so do arguments to which other options are
/// added: only a mode makes up for a missing or a wrong one.
pub proof fn nothing_stands_in_for_the_mode(
    args: Seq<Seq<char>>,
    flag: Flag,
    value: Seq<char>,
)
    requires
        reads_through(args),
        outcome(args) is Err,
        flag != Flag::Mode,
        accepts(flag, value),
    ensures
        outcome(Seq::empty()) == Err::<Settings, Fault>(Fault::ModeRequired),
        outcome(args + seq![flag.text(), value]) == outcome(args),
        outcome(args + seq!["--no-suppliers"@]) == outcome(args),
{
    lemma_read_through(args);
    let added = seq![flag.text(), value];
    lemma_read_in_two_parts(args, added, Flag::Mode, None);
    lemma_one_option(flag, value, Flag::Mode, last_value(args, Flag::Mode, None));
    let off = seq![Flag::NoSuppliers.text()];
    lemma_suppliers_off(Flag::Mode, last_value(args, Flag::Mode, None));
    lemma_read_in_two_parts(args, off, Flag::Mode, None);
}

proof fn lemma_suppliers_off(of: Flag, otherwise: Option<Seq<char>>)
    ensures
        first_fault(seq![Flag::NoSuppliers.text()]) is None,
        last_value(seq![Flag::NoSuppliers.text()], of, otherwise) == otherwise,
        is_given(seq![Flag::NoSuppliers.text()], Flag::NoSuppliers),
{
    let off = seq![Flag::NoSuppliers.text()];
    written_option_is_found(Flag::NoSuppliers);
    assert(off.skip(1) =~= Seq::<Seq<char>>::empty());
    assert(width(off) == 1);
    reveal_with_fuel(first_fault, 2);
    reveal_with_fuel(last_value, 2);
    reveal_with_fuel(is_given, 2);
}

/// Of a value given twice the first has no say, even where it is a mode that
/// there is not.
pub proof fn repeated_value_has_no_say(
    before: Seq<Seq<char>>,
    flag: Flag,
    first: Seq<char>,
    second: Seq<char>,
    rest: Seq<Seq<char>>,
)
    requires
        reads_through(before),
        flag.takes_value(),
        flag.takes_port() ==> u16_value(first) is Some && u16_value(second) is Some,
    ensures
        outcome(before + seq![flag.text(), first, flag.text(), second] + rest) == outcome(
            before + seq![flag.text(), second] + rest,
        ),
{
    let a = seq![flag.text(), first];
    let b = seq![flag.text(), second];
    let twice = before + seq![flag.text(), first, flag.text(), second] + rest;
    let once = before + seq![flag.text(), second] + rest;
    lemma_read_through(before);
    assert(twice =~= before + (a + (b + rest)));
    assert(once =~= before + (b + rest));
    assert forall|of: Flag, otherwise: Option<Seq<char>>|
        #[trigger] last_value(twice, of, otherwise) == last_value(once, of, otherwise)
            && first_fault(twice) == first_fault(once) && (of == Flag::NoSuppliers ==> is_given(
            twice,
            of,
        ) == is_given(once, of)) by {
        let start = last_value(before, of, otherwise);
        lemma_read_in_two_parts(before, a + (b + rest), of, otherwise);
        lemma_read_in_two_parts(before, b + rest, of, otherwise);
        lemma_one_option(flag, first, of, start);
        lemma_read_in_two_parts(a, b + rest, of, start);
        let after_a = last_value(a, of, start);
        lemma_one_option(flag, second, of, after_a);
        lemma_one_option(flag, second, of, start);
        lemma_read_in_two_parts(b, rest, of, after_a);
        lemma_read_in_two_parts(b, rest, of, start);
    }
    assert(last_value(twice, Flag::NoSuppliers, None) == last_value(once, Flag::NoSuppliers, None));
}

/// The suppliers can be switched off before or behind any other option, and
/// more than once.
pub proof fn suppliers_can_be_switched_off_anywhere(
    before: Seq<Seq<char>>,
    flag: Flag,
    value: Seq<char>,
    rest: Seq<Seq<char>>,
)
    requires
        reads_through(before),
        flag.takes_value(),
        flag.takes_port() ==> u16_value(value) is Some,
    ensures
        outcome(before + seq!["--no-suppliers"@, flag.text(), value] + rest) == outcome(
            before + seq![flag.text(), value, "--no-suppliers"@] + rest,
        ),
        outcome(before + seq!["--no-suppliers"@, "--no-suppliers"@] + rest) == outcome(
            before + seq!["--no-suppliers"@] + rest,
        ),
{
    let off = seq![Flag::NoSuppliers.text()];
    let b = seq![flag.text(), value];
    let early = before + seq!["--no-suppliers"@, flag.text(), value] + rest;
    let late = before + seq![flag.text(), value, "--no-suppliers"@] + rest;
    let twice = before + seq!["--no-suppliers"@, "--no-suppliers"@] + rest;
    let once = before + seq!["--no-suppliers"@] + rest;
    lemma_read_through(before);
    assert(early =~= before + (off + (b + rest)));
    assert(late =~= before + (b + (off + rest)));
    assert(twice =~= before + (off + (off + rest)));
    assert(once =~= before + (off + rest));
    assert forall|of: Flag, otherwise: Option<Seq<char>>|
        #[trigger] last_value(early, of, otherwise) == last_value(late, of, otherwise)
            && last_value(twice, of, otherwise) == last_value(once, of, otherwise) && first_fault(
            early,
        ) == first_fault(late) && first_fault(twice) == first_fault(once) && is_given(
            early,
            Flag::NoSuppliers,
        ) == is_given(late, Flag::NoSuppliers) && is_given(twice, Flag::NoSuppliers) == is_given(
            once,
            Flag::NoSuppliers,
        ) by {
        lemma_suppliers_around_an_option(before, flag, value, rest, of, otherwise);
        lemma_suppliers_around_an_option(before, flag, value, rest, Flag::NoSuppliers, otherwise);
    }
    assert(last_value(early, Flag::NoSuppliers, None) == last_value(late, Flag::NoSuppliers, None));
}

proof fn lemma_suppliers_around_an_option(
    before: Seq<Seq<char>>,
    flag: Flag,
    value: Seq<char>,
    rest: Seq<Seq<char>>,
    of: Flag,
    otherwise: Option<Seq<char>>,
)
    requires
        first_fault(before) is None,
        flag.takes_value(),
        flag.takes_port() ==> u16_value(value) is Some,
    ensures
        ({
            let off = seq![Flag::NoSuppliers.text()];
            let b = seq![flag.text(), value];
            let early = before + (off + (b + rest));
            let late = before + (b + (off + rest));
            let twice = before + (off + (off + rest));
            let once = before + (off + rest);
            &&& last_value(early, of, otherwise) == last_value(late, of, otherwise)
            &&& last_value(twice, of, otherwise) == last_value(once, of, otherwise)
            &&& first_fault(early) == first_fault(late)
            &&& first_fault(twice) == first_fault(once)
            &&& is_given(early, of) == is_given(late, of)
            &&& is_given(twice, of) == is_given(once, of)
        }),
{
    let off = seq![Flag::NoSuppliers.text()];
    let b = seq![flag.text(), value];
    let start = last_value(before, of, otherwise);
    lemma_suppliers_off(of, start);
    lemma_one_option(flag, value, of, start);
    let after_b = last_value(b, of, start);
    lemma_suppliers_off(of, after_b);
    lemma_read_in_two_parts(before, off + (b + rest), of, otherwise);
    lemma_read_in_two_parts(before, b + (off + rest), of, otherwise);
    lemma_read_in_two_parts(before, off + (off + rest), of, otherwise);
    lemma_read_in_two_parts(before, off + rest, of, otherwise);
    lemma_read_in_two_parts(off, b + rest, of, start);
    lemma_read_in_two_parts(off, off + rest, of, start);
    lemma_read_in_two_parts(off, rest, of, start);
    lemma_read_in_two_parts(off, rest, of, after_b);
    lemma_read_in_two_parts(b, off + rest, of, start);
    lemma_read_in_two_parts(b, rest, of, start);
}

/// The settings of a run for which nothing but the mode is given.
pub open spec fn defaults(mode: Mode) -> Settings {
    Settings {
        mode,
        name: "grazel"@,
        data: "grazel-data"@,
        http_port: 8080,
        node_port: 9099,
        ui: "ui"@,
        app: "apps/grazel-app.glade"@,
        node_bin: "../glade/node/target/debug/glade-node"@,
        gwz_supplier_bin: "../glade-gwz/target/debug/glade-gwz"@,
        no_suppliers: false,
    }
}

/// The mode alone is enough, and everything else then has its default.
pub proof fn mode_alone_gives_the_defaults(mode: Mode)
    ensures
        outcome(seq![Flag::Mode.text(), mode.name()]) == Ok::<Settings, Fault>(defaults(mode)),
{
    let args = seq![Flag::Mode.text(), mode.name()];
    names_and_modes_correspond(mode.name(), mode);
    assert forall|of: Flag, otherwise: Option<Seq<char>>|
        #[trigger] last_value(args, of, otherwise) == if of == Flag::Mode {
            Some(mode.name())
        } else {
            otherwise
        } by {
        lemma_one_option(Flag::Mode, mode.name(), of, otherwise);
    }
    lemma_one_option(Flag::Mode, mode.name(), Flag::NoSuppliers, None);
    assert(outcome(args)->Ok_0 =~= defaults(mode));
}

/// A command line that spells out every setting.
pub open spec fn arguments(settings: Settings) -> Seq<Seq<char>> {
    let valued = seq![Flag::Mode.text(), settings.mode.name()] + seq![
        Flag::Name.text(),
        settings.name,
    ] + seq![Flag::Data.text(), settings.data] + seq![
        Flag::Http.text(),
        decimal(settings.http_port as nat),
    ] + seq![Flag::NodePort.text(), decimal(settings.node_port as nat)] + seq![
        Flag::Ui.text(),
        settings.ui,
    ] + seq![Flag::App.text(), settings.app] + seq![Flag::NodeBin.text(), settings.node_bin]
        + seq![Flag::GwzSupplierBin.text(), settings.gwz_supplier_bin];
    if settings.no_suppliers {
        valued + seq![Flag::NoSuppliers.text()]
    } else {
        valued
    }
}

/// Every configuration can be given on the command line, and what is given
/// there is what the configuration holds.
pub proof fn every_configuration_can_be_given(settings: Settings)
    ensures
        outcome(arguments(settings)) == Ok::<Settings, Fault>(settings),
{
    written_number_reads_back(settings.http_port);
    written_number_reads_back(settings.node_port);
    let a0 = seq![Flag::Mode.text(), settings.mode.name()];
    mode_alone_gives_the_defaults(settings.mode);
    later_value_wins(a0, Flag::Name, settings.name);
    let a1 = a0 + seq![Flag::Name.text(), settings.name];
    later_value_wins(a1, Flag::Data, settings.data);
    let a2 = a1 + seq![Flag::Data.text(), settings.data];
    later_value_wins(a2, Flag::Http, decimal(settings.http_port as nat));
    let a3 = a2 + seq![Flag::Http.text(), decimal(settings.http_port as nat)];
    later_value_wins(a3, Flag::NodePort, decimal(settings.node_port as nat));
    let a4 = a3 + seq![Flag::NodePort.text(), decimal(settings.node_port as nat)];
    later_value_wins(a4, Flag::Ui, settings.ui);
    let a5 = a4 + seq![Flag::Ui.text(), settings.ui];
    later_value_wins(a5, Flag::App, settings.app);
    let a6 = a5 + seq![Flag::App.text(), settings.app];
    later_value_wins(a6, Flag::NodeBin, settings.node_bin);
    let a7 = a6 + seq![Flag::NodeBin.text(), settings.node_bin];
    later_value_wins(a7, Flag::GwzSupplierBin, settings.gwz_supplier_bin);
    let a8 = a7 + seq![Flag::GwzSupplierBin.text(), settings.gwz_supplier_bin];
    if settings.no_suppliers {
        suppliers_can_be_switched_off(a8);
    }
    assert(outcome(arguments(settings))->Ok_0 =~= settings);
}

/// The help text names every option, and the default that a setting has where
/// its option is not given.
pub proof fn help_names_options_and_defaults(flag: Flag, mode: Mode)
    ensures
        stands_in(flag.text(), USAGE@),
        stands_in("-h"@, USAGE@),
        stands_in("(default: "@ + defaults(mode).name + ")"@, USAGE@),
        stands_in("(default: "@ + defaults(mode).data + ")"@, USAGE@),
        stands_in("(default: "@ + decimal(defaults(mode).http_port as nat) + ")"@, USAGE@),
        stands_in("(default: "@ + decimal(defaults(mode).node_port as nat) + ")"@, USAGE@),
        stands_in("(default: "@ + defaults(mode).ui + ")"@, USAGE@),
        stands_in("(default: "@ + defaults(mode).app + ")"@, USAGE@),
        stands_in("(default: "@ + defaults(mode).node_bin + ")"@, USAGE@),
        stands_in("(default: "@ + defaults(mode).gwz_supplier_bin + ")"@, USAGE@),
{
    lemma_help_text();
    reveal_strlit("(default: ");
    reveal_strlit(")");
    reveal_strlit("grazel");
    reveal_strlit("(default: grazel)");
    assert("(default: "@ + "grazel"@ + ")"@ =~= "(default: grazel)"@);
    reveal_strlit("grazel-data");
    reveal_strlit("(default: grazel-data)");
    assert("(default: "@ + "grazel-data"@ + ")"@ =~= "(default: grazel-data)"@);
    reveal_strlit("ui");
    reveal_strlit("(default: ui)");
    assert("(default: "@ + "ui"@ + ")"@ =~= "(default: ui)"@);
    reveal_strlit("apps/grazel-app.glade");
    reveal_strlit("(default: apps/grazel-app.glade)");
    assert("(default: "@ + "apps/grazel-app.glade"@ + ")"@ =~= "(default: apps/grazel-app.glade)"@);
    reveal_strlit("../glade/node/target/debug/glade-node");
    reveal_strlit("(default: ../glade/node/target/debug/glade-node)");
    assert("(default: "@ + "../glade/node/target/debug/glade-node"@ + ")"@ =~= "(default: ../glade/node/target/debug/glade-node)"@);
    reveal_strlit("../glade-gwz/target/debug/glade-gwz");
    reveal_strlit("(default: ../glade-gwz/target/debug/glade-gwz)");
    assert("(default: "@ + "../glade-gwz/target/debug/glade-gwz"@ + ")"@ =~= "(default: ../glade-gwz/target/debug/glade-gwz)"@);
    reveal_strlit("(default: 8080)");
    reveal_strlit("(default: 9099)");
    reveal_with_fuel(decimal, 4);
    assert(decimal(8080) =~= seq!['8', '0', '8', '0']);
    assert(decimal(9099) =~= seq!['9', '0', '9', '9']);
    assert("(default: "@ + decimal(8080) + ")"@ =~= "(default: 8080)"@);
    assert("(default: "@ + decimal(9099) + ")"@ =~= "(default: 9099)"@);
}

} // verus!
