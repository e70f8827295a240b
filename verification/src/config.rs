//! The command line and the configuration that it gives.

use crate::bootstrap::{node_url, node_ws_url};
use crate::mode::{mode_named, Mode};
use crate::paths::{equal_paths, join_path, joined, same_path};
use crate::text::{debug_quote, debug_quoted, decimal, decimal_text, parse_u16, same_text, texts, u16_value};
use crate::usage::{diagnostic, diagnostic_text, USAGE};
use vstd::prelude::*;

verus! {

// ---- options --------------------------------------------------------------

/// The options of the command line.
#[derive(Clone, Copy, Debug, PartialEq, Eq, Structural)]
pub enum Flag {
    Mode,
    Name,
    Data,
    Http,
    NodePort,
    Ui,
    App,
    NodeBin,
    GwzSupplierBin,
    NoSuppliers,
    Help,
}

/// The option that an argument names, if it names one.
pub open spec fn flag_named(arg: Seq<char>) -> Option<Flag> {
    if arg == "--mode"@ {
        Some(Flag::Mode)
    } else if arg == "--name"@ {
        Some(Flag::Name)
    } else if arg == "--data"@ {
        Some(Flag::Data)
    } else if arg == "--http"@ {
        Some(Flag::Http)
    } else if arg == "--node-port"@ {
        Some(Flag::NodePort)
    } else if arg == "--ui"@ {
        Some(Flag::Ui)
    } else if arg == "--app"@ {
        Some(Flag::App)
    } else if arg == "--node-bin"@ {
        Some(Flag::NodeBin)
    } else if arg == "--gwz-supplier-bin"@ {
        Some(Flag::GwzSupplierBin)
    } else if arg == "--no-suppliers"@ {
        Some(Flag::NoSuppliers)
    } else if arg == "-h"@ || arg == "--help"@ {
        Some(Flag::Help)
    } else {
        None
    }
}

impl Flag {
    /// How the option is written.
    pub open spec fn text(self) -> Seq<char> {
        match self {
            Flag::Mode => "--mode"@,
            Flag::Name => "--name"@,
            Flag::Data => "--data"@,
            Flag::Http => "--http"@,
            Flag::NodePort => "--node-port"@,
            Flag::Ui => "--ui"@,
            Flag::App => "--app"@,
            Flag::NodeBin => "--node-bin"@,
            Flag::GwzSupplierBin => "--gwz-supplier-bin"@,
            Flag::NoSuppliers => "--no-suppliers"@,
            Flag::Help => "--help"@,
        }
    }

    /// Whether the argument behind the option is its value.
    pub open spec fn takes_value(self) -> bool {
        self != Flag::NoSuppliers && self != Flag::Help
    }

    /// Whether the option's value is a port.
    pub open spec fn takes_port(self) -> bool {
        self == Flag::Http || self == Flag::NodePort
    }

    /// Finds the option that an argument names.
    pub fn parse(arg: &str) -> (flag: Option<Flag>)
        ensures
            flag == flag_named(arg@),
    {
        if same_text(arg, "--mode") {
            Some(Flag::Mode)
        } else if same_text(arg, "--name") {
            Some(Flag::Name)
        } else if same_text(arg, "--data") {
            Some(Flag::Data)
        } else if same_text(arg, "--http") {
            Some(Flag::Http)
        } else if same_text(arg, "--node-port") {
            Some(Flag::NodePort)
        } else if same_text(arg, "--ui") {
            Some(Flag::Ui)
        } else if same_text(arg, "--app") {
            Some(Flag::App)
        } else if same_text(arg, "--node-bin") {
            Some(Flag::NodeBin)
        } else if same_text(arg, "--gwz-supplier-bin") {
            Some(Flag::GwzSupplierBin)
        } else if same_text(arg, "--no-suppliers") {
            Some(Flag::NoSuppliers)
        } else if same_text(arg, "-h") || same_text(arg, "--help") {
            Some(Flag::Help)
        } else {
            None
        }
    }

    /// How the option is written.
    pub fn as_str(self) -> (text: &'static str)
        ensures
            text@ == self.text(),
    {
        match self {
            Flag::Mode => "--mode",
            Flag::Name => "--name",
            Flag::Data => "--data",
            Flag::Http => "--http",
            Flag::NodePort => "--node-port",
            Flag::Ui => "--ui",
            Flag::App => "--app",
            Flag::NodeBin => "--node-bin",
            Flag::GwzSupplierBin => "--gwz-supplier-bin",
            Flag::NoSuppliers => "--no-suppliers",
            Flag::Help => "--help",
        }
    }
}

// ---- what a command line means --------------------------------------------

/// What a configuration holds.
#[verifier::ext_equal]
pub struct Settings {
    pub mode: Mode,
    pub name: Seq<char>,
    pub data: Seq<char>,
    pub http_port: u16,
    pub node_port: u16,
    pub ui: Seq<char>,
    pub app: Seq<char>,
    pub node_bin: Seq<char>,
    pub gwz_supplier_bin: Seq<char>,
    pub no_suppliers: bool,
}

impl Settings {
    /// Whether two configurations are equal: their paths are the same, and
    /// everything else is equal.
    pub open spec fn same_as(self, other: Settings) -> bool {
        &&& self.mode == other.mode
        &&& self.name == other.name
        &&& same_path(self.data, other.data)
        &&& self.http_port == other.http_port
        &&& self.node_port == other.node_port
        &&& same_path(self.ui, other.ui)
        &&& same_path(self.app, other.app)
        &&& same_path(self.node_bin, other.node_bin)
        &&& same_path(self.gwz_supplier_bin, other.gwz_supplier_bin)
        &&& self.no_suppliers == other.no_suppliers
    }

    /// The node's system home.
    pub open spec fn glade_home(self) -> Seq<char> {
        joined(self.data, "sys"@)
    }

    /// The arguments of the node.
    pub open spec fn node_argv(self) -> Seq<Seq<char>> {
        seq![
            "--profile"@,
            self.mode.profile(),
            "--name"@,
            self.name,
            "--app"@,
            self.app,
            decimal(self.node_port as nat),
        ]
    }

    /// The arguments of the supplier.
    pub open spec fn gwz_supplier_argv(self, node_ws_port: u16) -> Seq<Seq<char>> {
        seq![
            "--node"@,
            node_url(node_ws_port),
            "--root"@,
            joined(self.data, "files"@),
            "--share"@,
            "ws-razel"@,
            "--principal"@,
            "grazel"@,
        ]
    }
}

/// Why a command line gives no configuration.
pub enum Fault {
    /// Help was asked for.
    Help,
    /// The option ends the command line but needs a value.
    MissingValue(Flag),
    /// The value of the option is no port.
    BadPort(Flag, Seq<char>),
    /// The argument is no option.
    Unknown(Seq<char>),
    /// No mode was given.
    ModeRequired,
    /// There is no such mode.
    BadMode(Seq<char>),
}

/// The complaint about an option without a value.
pub open spec fn missing_value_complaint(flag: Seq<char>) -> Seq<char> {
    flag + " needs a value"@
}

/// The complaint about a port, which it shows as `quoted`.
pub open spec fn bad_port_complaint(flag: Seq<char>, quoted: Seq<char>) -> Seq<char> {
    flag + ": "@ + quoted + " is not a valid port"@
}

/// The complaint about a mode, which it shows as `quoted`.
pub open spec fn bad_mode_complaint(quoted: Seq<char>) -> Seq<char> {
    "invalid --mode "@ + quoted + " (want local|peer|both)"@
}

impl Fault {
    /// What the user is told: the help text where it was asked for, else a
    /// complaint and the help text.
    pub open spec fn message(self) -> Seq<char> {
        match self {
            Fault::Help => USAGE@,
            Fault::MissingValue(flag) => diagnostic_text(missing_value_complaint(flag.text())),
            Fault::BadPort(flag, value) => diagnostic_text(
                bad_port_complaint(flag.text(), debug_quoted(value)),
            ),
            Fault::Unknown(arg) => diagnostic_text("unknown argument: "@ + arg),
            Fault::ModeRequired => diagnostic_text("--mode is required (local|peer|both)"@),
            Fault::BadMode(mode) => diagnostic_text(bad_mode_complaint(debug_quoted(mode))),
        }
    }
}

/// How many arguments the first option of a command line takes up.
pub open spec fn width(args: Seq<Seq<char>>) -> int
    recommends
        args.len() > 0,
{
    if args.len() > 1 && flag_named(args[0]) is Some && flag_named(args[0])->0.takes_value() {
        2
    } else {
        1
    }
}

/// The first thing that is wrong with the arguments, read from left to right.
pub open spec fn first_fault(args: Seq<Seq<char>>) -> Option<Fault>
    decreases args.len(),
{
    if args.len() == 0 {
        None
    } else {
        match flag_named(args[0]) {
            None => Some(Fault::Unknown(args[0])),
            Some(Flag::Help) => Some(Fault::Help),
            Some(flag) => if flag.takes_value() && args.len() == 1 {
                Some(Fault::MissingValue(flag))
            } else if flag.takes_port() && u16_value(args[1]) is None {
                Some(Fault::BadPort(flag, args[1]))
            } else {
                first_fault(args.skip(width(args)))
            },
        }
    }
}

/// The value given last for an option, or `otherwise` where none is given.
pub open spec fn last_value(
    args: Seq<Seq<char>>,
    flag: Flag,
    otherwise: Option<Seq<char>>,
) -> Option<Seq<char>>
    decreases args.len(),
{
    if args.len() == 0 {
        otherwise
    } else {
        let so_far = if flag_named(args[0]) == Some(flag) && width(args) == 2 {
            Some(args[1])
        } else {
            otherwise
        };
        last_value(args.skip(width(args)), flag, so_far)
    }
}

/// The text given last for an option, or its default.
pub open spec fn text_setting(args: Seq<Seq<char>>, flag: Flag, default: Seq<char>) -> Seq<char> {
    last_value(args, flag, Some(default))->0
}

/// The port given last for an option, or its default.
pub open spec fn port_setting(args: Seq<Seq<char>>, flag: Flag, default: u16) -> u16 {
    match last_value(args, flag, None) {
        Some(value) => u16_value(value)->0,
        None => default,
    }
}

/// Whether an option without a value is given.
pub open spec fn is_given(args: Seq<Seq<char>>, flag: Flag) -> bool
    decreases args.len(),
{
    args.len() > 0 && (flag_named(args[0]) == Some(flag) || is_given(
        args.skip(width(args)),
        flag,
    ))
}

/// What stands in for a missing value matters only where no value is given.
proof fn lemma_last_value_otherwise(
    args: Seq<Seq<char>>,
    flag: Flag,
    otherwise: Option<Seq<char>>,
)
    ensures
        last_value(args, flag, otherwise) == match last_value(args, flag, None) {
            Some(value) => Some(value),
            None => otherwise,
        },
    decreases args.len(),
{
    if args.len() > 0 {
        let rest = args.skip(width(args));
        lemma_last_value_otherwise(rest, flag, otherwise);
        lemma_last_value_otherwise(rest, flag, Some(args[1]));
    }
}

/// What the arguments mean (without the program's name): a configuration, or
/// why they give none. Each setting is the value given last for its option, or
/// the default; the mode has none.
pub open spec fn outcome(args: Seq<Seq<char>>) -> Result<Settings, Fault> {
    match first_fault(args) {
        Some(fault) => Err(fault),
        None => match last_value(args, Flag::Mode, None) {
            None => Err(Fault::ModeRequired),
            Some(name) => match mode_named(name) {
                None => Err(Fault::BadMode(name)),
                Some(mode) => Ok(
                    Settings {
                        mode,
                        name: text_setting(args, Flag::Name, "grazel"@),
                        data: text_setting(args, Flag::Data, "grazel-data"@),
                        http_port: port_setting(args, Flag::Http, 8080),
                        node_port: port_setting(args, Flag::NodePort, 9099),
                        ui: text_setting(args, Flag::Ui, "ui"@),
                        app: text_setting(args, Flag::App, "apps/grazel-app.glade"@),
                        node_bin: text_setting(
                            args,
                            Flag::NodeBin,
                            "../glade/node/target/debug/glade-node"@,
                        ),
                        gwz_supplier_bin: text_setting(
                            args,
                            Flag::GwzSupplierBin,
                            "../glade-gwz/target/debug/glade-gwz"@,
                        ),
                        no_suppliers: is_given(args, Flag::NoSuppliers),
                    },
                ),
            },
        },
    }
}

// ---- messages -------------------------------------------------------------

/// Says that an option needs a value.
pub fn missing_value_message(flag: &str) -> (message: String)
    ensures
        message@ == diagnostic_text(missing_value_complaint(flag@)),
{
    diagnostic(flag.to_owned().concat(" needs a value"))
}

/// Says that an option's value, shown as `quoted`, is no port.
pub fn bad_port_message(flag: &str, quoted: &str) -> (message: String)
    ensures
        message@ == diagnostic_text(bad_port_complaint(flag@, quoted@)),
{
    diagnostic(flag.to_owned().concat(": ").concat(quoted).concat(" is not a valid port"))
}

/// Says that there is no such mode as the one shown as `quoted`.
pub fn bad_mode_message(quoted: &str) -> (message: String)
    ensures
        message@ == diagnostic_text(bad_mode_complaint(quoted@)),
{
    diagnostic("invalid --mode ".to_owned().concat(quoted).concat(" (want local|peer|both)"))
}

/// The value of the option `flag`, which is to stand at `at`.
pub fn next(args: &Vec<String>, at: usize, flag: &str) -> (value: Result<String, String>)
    ensures
        match value {
            Ok(value) => at < args@.len() && value@ == args@[at as int]@,
            Err(message) => at >= args@.len() && message@ == diagnostic_text(
                missing_value_complaint(flag@),
            ),
        },
{
    if at < args.len() {
        Ok(args[at].clone())
    } else {
        Err(missing_value_message(flag))
    }
}

/// Reads the port that was given for the option `flag`.
pub fn parse_port(s: &str, flag: &str) -> (port: Result<u16, String>)
    ensures
        match port {
            Ok(port) => u16_value(s@) == Some(port),
            Err(message) => u16_value(s@) is None && message@ == diagnostic_text(
                bad_port_complaint(flag@, debug_quoted(s@)),
            ),
        },
{
    match parse_u16(s) {
        Some(port) => Ok(port),
        None => {
            let quoted = debug_quote(s);
            Err(bad_port_message(flag, quoted.as_str()))
        },
    }
}

// ---- the configuration ----------------------------------------------------

/// The configuration of a run. Paths are held as text, and compared as paths:
/// two configurations are equal where their paths are the same, even if they are
/// not spelled alike, and everything else is equal.
#[derive(Clone, Debug, Eq)]
pub struct Config {
    pub mode: Mode,
    pub name: String,
    pub data: String,
    pub http_port: u16,
    pub node_port: u16,
    pub ui: String,
    pub app: String,
    pub node_bin: String,
    pub gwz_supplier_bin: String,
    pub no_suppliers: bool,
}

impl View for Config {
    type V = Settings;

    open spec fn view(&self) -> Settings {
        Settings {
            mode: self.mode,
            name: self.name@,
            data: self.data@,
            http_port: self.http_port,
            node_port: self.node_port,
            ui: self.ui@,
            app: self.app@,
            node_bin: self.node_bin@,
            gwz_supplier_bin: self.gwz_supplier_bin@,
            no_suppliers: self.no_suppliers,
        }
    }
}

impl PartialEq for Config {
    fn eq(&self, other: &Config) -> (equal: bool) {
        self.mode == other.mode && same_text(self.name.as_str(), other.name.as_str())
            && equal_paths(self.data.as_str(), other.data.as_str()) && self.http_port
            == other.http_port && self.node_port == other.node_port && equal_paths(
            self.ui.as_str(),
            other.ui.as_str(),
        ) && equal_paths(self.app.as_str(), other.app.as_str()) && equal_paths(
            self.node_bin.as_str(),
            other.node_bin.as_str(),
        ) && equal_paths(self.gwz_supplier_bin.as_str(), other.gwz_supplier_bin.as_str())
            && self.no_suppliers == other.no_suppliers
    }
}

impl vstd::std_specs::cmp::PartialEqSpecImpl for Config {
    open spec fn obeys_eq_spec() -> bool {
        true
    }

    open spec fn eq_spec(&self, other: &Config) -> bool {
        self@.same_as(other@)
    }
}

impl Config {
    /// Parses the arguments (without the program's name). Gives the help text
    /// on `--help` and a diagnostic with the help text on any error.
    pub fn parse(args: Vec<String>) -> (config: Result<Config, String>)
        ensures
            match outcome(texts(args@)) {
                Ok(settings) => config is Ok && config->Ok_0@ == settings,
                Err(fault) => config is Err && config->Err_0@ == fault.message(),
            },
    {
        let ghost all = texts(args@);
        let mut mode: Option<String> = None;
        let mut name = "grazel".to_owned();
        let mut data = "grazel-data".to_owned();
        let mut http_port: u16 = 8080;
        let mut node_port: u16 = 9099;
        let mut ui = "ui".to_owned();
        let mut app = "apps/grazel-app.glade".to_owned();
        let mut node_bin = "../glade/node/target/debug/glade-node".to_owned();
        let mut gwz_supplier_bin = "../glade-gwz/target/debug/glade-gwz".to_owned();
        let mut no_suppliers = false;

        let mut i: usize = 0;
        assert(all.skip(0) =~= all);
        while i < args.len()
            invariant
                i <= args@.len(),
                all == texts(args@),
                first_fault(all) == first_fault(all.skip(i as int)),
                last_value(all, Flag::Mode, None) == last_value(
                    all.skip(i as int),
                    Flag::Mode,
                    match mode {
                        Some(mode) => Some(mode@),
                        None => None,
                    },
                ),
                text_setting(all, Flag::Name, "grazel"@) == text_setting(
                    all.skip(i as int),
                    Flag::Name,
                    name@,
                ),
                text_setting(all, Flag::Data, "grazel-data"@) == text_setting(
                    all.skip(i as int),
                    Flag::Data,
                    data@,
                ),
                port_setting(all, Flag::Http, 8080) == port_setting(
                    all.skip(i as int),
                    Flag::Http,
                    http_port,
                ),
                port_setting(all, Flag::NodePort, 9099) == port_setting(
                    all.skip(i as int),
                    Flag::NodePort,
                    node_port,
                ),
                text_setting(all, Flag::Ui, "ui"@) == text_setting(
                    all.skip(i as int),
                    Flag::Ui,
                    ui@,
                ),
                text_setting(all, Flag::App, "apps/grazel-app.glade"@) == text_setting(
                    all.skip(i as int),
                    Flag::App,
                    app@,
                ),
                text_setting(all, Flag::NodeBin, "../glade/node/target/debug/glade-node"@)
                    == text_setting(all.skip(i as int), Flag::NodeBin, node_bin@),
                text_setting(all, Flag::GwzSupplierBin, "../glade-gwz/target/debug/glade-gwz"@)
                    == text_setting(all.skip(i as int), Flag::GwzSupplierBin, gwz_supplier_bin@),
                is_given(all, Flag::NoSuppliers) == (no_suppliers || is_given(
                    all.skip(i as int),
                    Flag::NoSuppliers,
                )),
            decreases args@.len() - i,
        {
            let ghost rest = all.skip(i as int);
            assert(rest[0] == args@[i as int]@);
            let flag = match Flag::parse(args[i].as_str()) {
                None => {
                    let complaint = "unknown argument: ".to_owned().concat(args[i].as_str());
                    return Err(diagnostic(complaint));
                },
                Some(flag) => flag,
            };
            match flag {
                Flag::Help => {
                    return Err(USAGE.to_owned());
                },
                Flag::NoSuppliers => {
                    no_suppliers = true;
                    assert(rest.skip(1) =~= all.skip(i + 1));
                    i = i + 1;
                },
                _ => {
                    let value = match next(&args, i + 1, flag.as_str()) {
                        Ok(value) => value,
                        Err(message) => {
                            return Err(message);
                        },
                    };
                    assert(rest[1] == args@[i + 1]@);
                    assert(rest.skip(2) =~= all.skip(i + 2));
                    assert(width(rest) == 2);
                    proof {
                        lemma_last_value_otherwise(rest.skip(2), flag, Some(value@));
                    }
                    match flag {
                        Flag::Mode => {
                            mode = Some(value);
                        },
                        Flag::Name => {
                            name = value;
                        },
                        Flag::Data => {
                            data = value;
                        },
                        Flag::Http => {
                            http_port = match parse_port(value.as_str(), flag.as_str()) {
                                Ok(port) => port,
                                Err(message) => {
                                    return Err(message);
                                },
                            };
                        },
                        Flag::NodePort => {
                            node_port = match parse_port(value.as_str(), flag.as_str()) {
                                Ok(port) => port,
                                Err(message) => {
                                    return Err(message);
                                },
                            };
                        },
                        Flag::Ui => {
                            ui = value;
                        },
                        Flag::App => {
                            app = value;
                        },
                        Flag::NodeBin => {
                            node_bin = value;
                        },
                        Flag::GwzSupplierBin => {
                            gwz_supplier_bin = value;
                        },
                        Flag::NoSuppliers | Flag::Help => {},
                    }
                    i = i + 2;
                },
            }
        }
        let mode = match mode {
            Some(mode) => mode,
            None => {
                return Err(diagnostic("--mode is required (local|peer|both)".to_owned()));
            },
        };
        let mode = match Mode::parse(mode.as_str()) {
            Some(mode) => mode,
            None => {
                let quoted = debug_quote(mode.as_str());
                return Err(bad_mode_message(quoted.as_str()));
            },
        };
        Ok(
            Config {
                mode,
                name,
                data,
                http_port,
                node_port,
                ui,
                app,
                node_bin,
                gwz_supplier_bin,
                no_suppliers,
            },
        )
    }

    /// The node's system home: the `sys` slot of the storage root. The node
    /// nests its own `sys/<name>/` under it, so its whole tree lies inside the
    /// storage root.
    pub fn glade_home(&self) -> (home: String)
        ensures
            home@ == self@.glade_home(),
    {
        join_path(self.data.as_str(), "sys")
    }

    /// The arguments of the node, in its booted profile form. No store
    /// directory is among them: the node keeps its store where it likes.
    pub fn node_argv(&self) -> (argv: Vec<String>)
        ensures
            texts(argv@) == self@.node_argv(),
    {
        let mut argv: Vec<String> = Vec::new();
        argv.push("--profile".to_owned());
        argv.push(self.mode.node_profile().to_owned());
        argv.push("--name".to_owned());
        argv.push(self.name.clone());
        argv.push("--app".to_owned());
        argv.push(self.app.clone());
        argv.push(decimal_text(self.node_port));
        assert(texts(argv@) =~= self@.node_argv());
        argv
    }

    /// The arguments of the `glade-gwz` supplier, which attaches to the node at
    /// its port and serves from the `files` slot of the storage root.
    pub fn gwz_supplier_argv(&self, node_ws_port: u16) -> (argv: Vec<String>)
        ensures
            texts(argv@) == self@.gwz_supplier_argv(node_ws_port),
    {
        let mut argv: Vec<String> = Vec::new();
        argv.push("--node".to_owned());
        argv.push(node_ws_url(node_ws_port));
        argv.push("--root".to_owned());
        argv.push(join_path(self.data.as_str(), "files"));
        argv.push("--share".to_owned());
        argv.push("ws-razel".to_owned());
        argv.push("--principal".to_owned());
        argv.push("grazel".to_owned());
        assert(texts(argv@) =~= self@.gwz_supplier_argv(node_ws_port));
        argv
    }
}

} // verus!
