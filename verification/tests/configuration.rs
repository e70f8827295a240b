use grazel::config::{bad_mode_message, bad_port_message, missing_value_message, next, parse_port, Flag};
use grazel::usage::{diagnostic, refusal, Refusal};
use grazel::{Config, Mode, USAGE};

fn parse(args: &[&str]) -> Result<Config, String> {
    Config::parse(args.iter().map(|a| a.to_string()).collect())
}

#[test]
fn config_defaults() {
    let c = parse(&["--mode", "both"]).unwrap();
    assert_eq!(c.mode, Mode::Both);
    assert_eq!(c.name, "grazel");
    assert_eq!(c.data, "grazel-data");
    assert_eq!(c.http_port, 8080);
    assert_eq!(c.node_port, 9099);
    assert_eq!(c.ui, "ui");
    assert_eq!(c.app, "apps/grazel-app.glade");
    assert_eq!(c.node_bin, "../glade/node/target/debug/glade-node");
}

#[test]
fn config_overrides() {
    let args = [
        "--mode", "peer", "--name", "n1", "--data", "/tmp/d", "--http", "18080",
        "--node-port", "0", "--ui", "web", "--app", "a.glade", "--node-bin", "/x/glade-node",
    ];
    let c = parse(&args).unwrap();
    assert_eq!(c.mode, Mode::Peer);
    assert_eq!(c.name, "n1");
    assert_eq!(c.data, "/tmp/d");
    assert_eq!(c.http_port, 18080);
    assert_eq!(c.node_port, 0);
    assert_eq!(c.ui, "web");
    assert_eq!(c.app, "a.glade");
    assert_eq!(c.node_bin, "/x/glade-node");
}

#[test]
fn config_requires_mode() {
    let err = parse(&["--name", "x"]).unwrap_err();
    assert!(err.contains("--mode is required"));
}

#[test]
fn config_rejects_bad_mode_and_unknown_and_bad_port() {
    assert!(parse(&["--mode", "nope"]).unwrap_err().contains("invalid --mode"));
    assert!(parse(&["--bogus"]).unwrap_err().contains("unknown argument"));
    assert!(parse(&["--mode", "both", "--http", "99999"]).unwrap_err().contains("not a valid port"));
}

#[test]
fn glade_home_is_under_data_sys() {
    let c = parse(&["--mode", "both", "--data", "/var/g"]).unwrap();
    assert_eq!(c.glade_home(), "/var/g/sys");
}

#[test]
fn node_argv_for_both_uses_local_profile() {
    let c = parse(&[
        "--mode", "both", "--name", "grz", "--app", "apps/grazel-app.glade", "--node-port", "9099",
    ])
    .unwrap();
    assert_eq!(
        c.node_argv(),
        vec!["--profile", "local", "--name", "grz", "--app", "apps/grazel-app.glade", "9099"]
    );
}

#[test]
fn node_argv_for_peer_uses_peer_profile() {
    let c = parse(&["--mode", "peer"]).unwrap();
    assert_eq!(c.node_argv()[..2], ["--profile".to_string(), "peer".to_string()]);
}

#[test]
fn supplier_settings_have_defaults_and_overrides() {
    let c = parse(&["--mode", "local"]).unwrap();
    assert_eq!(c.gwz_supplier_bin, "../glade-gwz/target/debug/glade-gwz");
    assert!(!c.no_suppliers);
    let c = parse(&["--no-suppliers", "--gwz-supplier-bin", "/x/gwz", "--mode", "local"]).unwrap();
    assert_eq!(c.gwz_supplier_bin, "/x/gwz");
    assert!(c.no_suppliers);
    assert_eq!(c.mode, Mode::Local);
}

#[test]
fn each_fault_has_its_message() {
    let with_usage = |complaint: &str| format!("{complaint}\n\n{USAGE}");
    assert_eq!(parse(&["--help"]).unwrap_err(), USAGE);
    assert_eq!(parse(&["-h"]).unwrap_err(), USAGE);
    assert_eq!(parse(&[]).unwrap_err(), with_usage("--mode is required (local|peer|both)"));
    assert_eq!(
        parse(&["--mode", "a\"b\n"]).unwrap_err(),
        with_usage("invalid --mode \"a\\\"b\\n\" (want local|peer|both)")
    );
    assert_eq!(parse(&["stray"]).unwrap_err(), with_usage("unknown argument: stray"));
    assert_eq!(parse(&["--mode"]).unwrap_err(), with_usage("--mode needs a value"));
    assert_eq!(
        parse(&["--mode", "both", "--gwz-supplier-bin"]).unwrap_err(),
        with_usage("--gwz-supplier-bin needs a value")
    );
    assert_eq!(
        parse(&["--http", "8o80"]).unwrap_err(),
        with_usage("--http: \"8o80\" is not a valid port")
    );
    assert_eq!(
        parse(&["--node-port", "65536"]).unwrap_err(),
        with_usage("--node-port: \"65536\" is not a valid port")
    );
}

#[test]
fn every_option_but_two_needs_a_value() {
    for flag in [
        Flag::Mode, Flag::Name, Flag::Data, Flag::Http, Flag::NodePort, Flag::Ui, Flag::App,
        Flag::NodeBin, Flag::GwzSupplierBin,
    ] {
        let err = parse(&[flag.as_str()]).unwrap_err();
        assert_eq!(err, missing_value_message(flag.as_str()));
        assert_eq!(Flag::parse(flag.as_str()), Some(flag));
    }
    assert_eq!(Flag::parse("--no-suppliers"), Some(Flag::NoSuppliers));
    assert_eq!(Flag::parse("-h"), Some(Flag::Help));
    assert_eq!(Flag::parse("--help"), Some(Flag::Help));
    assert_eq!(Flag::parse("mode"), None);
}

#[test]
fn a_value_may_look_like_an_option() {
    let c = parse(&["--name", "--help", "--mode", "peer"]).unwrap();
    assert_eq!(c.name, "--help");
}

#[test]
fn later_values_win() {
    let c = parse(&["--mode", "nope", "--name", "a", "--mode", "peer", "--name", "b"]).unwrap();
    assert_eq!(c.mode, Mode::Peer);
    assert_eq!(c.name, "b");
}

#[test]
fn the_first_fault_decides() {
    assert!(parse(&["--bogus", "--help"]).unwrap_err().starts_with("unknown argument: --bogus"));
    assert_eq!(parse(&["--help", "--bogus"]).unwrap_err(), USAGE);
    assert!(parse(&["--http", "x", "--help"]).unwrap_err().starts_with("--http: "));
}

#[test]
fn options_may_come_in_any_order() {
    let one = parse(&["--name", "n", "--http", "1", "--mode", "both"]).unwrap();
    let two = parse(&["--http", "1", "--mode", "both", "--name", "n"]).unwrap();
    assert_eq!(one, two);
}

#[test]
fn every_setting_can_be_spelled_out() {
    let c = parse(&[
        "--mode", "both", "--name", "n", "--data", "d", "--http", "1", "--node-port", "65535", "--ui",
        "u", "--app", "a", "--node-bin", "b", "--gwz-supplier-bin", "g", "--no-suppliers",
    ])
    .unwrap();
    assert_eq!(
        c,
        Config {
            mode: Mode::Both,
            name: "n".to_string(),
            data: "d".to_string(),
            http_port: 1,
            node_port: 65535,
            ui: "u".to_string(),
            app: "a".to_string(),
            node_bin: "b".to_string(),
            gwz_supplier_bin: "g".to_string(),
            no_suppliers: true,
        }
    );
}

#[test]
fn ports_read_as_sixteen_bit_numbers() {
    for text in ["0", "80", "+80", "0080", "65535", "00000000065535"] {
        assert_eq!(parse_port(text, "--http"), Ok(text.parse::<u16>().unwrap()));
    }
    for text in ["", "+", "-1", "-0", " 80", "80 ", "8_0", "65536", "99999999999999999999", "++1", "1+", "\u{0661}"] {
        assert!(text.parse::<u16>().is_err());
        assert_eq!(
            parse_port(text, "--http"),
            Err(format!("--http: {text:?} is not a valid port\n\n{USAGE}"))
        );
    }
}

#[test]
fn messages_carry_their_parts() {
    assert_eq!(
        bad_port_message("--x", "<q>"),
        format!("--x: <q> is not a valid port\n\n{USAGE}")
    );
    assert_eq!(
        bad_mode_message("<q>"),
        format!("invalid --mode <q> (want local|peer|both)\n\n{USAGE}")
    );
    assert_eq!(diagnostic("c".to_string()), format!("c\n\n{USAGE}"));
}

#[test]
fn values_are_taken_from_behind_their_option() {
    let args = vec!["--name".to_string(), "n".to_string()];
    assert_eq!(next(&args, 1, "--name"), Ok("n".to_string()));
    assert_eq!(next(&args, 2, "--ui"), Err(format!("--ui needs a value\n\n{USAGE}")));
}

#[test]
fn only_help_is_no_failure() {
    let help = parse(&["--name", "x", "-h"]).unwrap_err();
    assert!(help.starts_with("grazel"));
    assert_eq!(refusal(&help), Refusal { to_stdout: true, exit_code: 0 });
    for args in [&["--mode"][..], &["grazel"], &["--http", "x"], &[], &["--mode", "grazel"]] {
        let message = parse(args).unwrap_err();
        assert!(message.ends_with(USAGE));
        assert_eq!(refusal(&message), Refusal { to_stdout: false, exit_code: 2 });
    }
}

#[test]
fn the_usage_lists_every_option() {
    for flag in [
        "--mode <", "--name <", "--data <", "--http <", "--node-port <", "--ui <", "--app <",
        "--node-bin <", "--gwz-supplier-bin <", "--no-suppliers", "-h, --help",
    ] {
        assert!(USAGE.contains(flag), "{flag}");
    }
}

#[test]
fn the_node_is_told_the_configuration() {
    let c = parse(&["--mode", "peer", "--name", "n", "--app", "x/y.glade", "--node-port", "0"]).unwrap();
    assert_eq!(c.node_argv(), vec!["--profile", "peer", "--name", "n", "--app", "x/y.glade", "0"]);
}

#[test]
fn configurations_are_equal_where_their_paths_are() {
    let with = |flag: &str, value: &str| parse(&["--mode", "both", flag, value]).unwrap();
    for flag in ["--data", "--ui", "--app", "--node-bin", "--gwz-supplier-bin"] {
        assert_eq!(with(flag, "d/"), with(flag, "d"));
        assert_eq!(with(flag, "d//e/./f"), with(flag, "d/e/f/"));
        assert_ne!(with(flag, "./d"), with(flag, "d"));
        assert_ne!(with(flag, "/d"), with(flag, "d"));
        assert_ne!(with(flag, "d/../d"), with(flag, "d"));
    }
    assert_ne!(with("--name", "d/"), with("--name", "d"));
    assert_ne!(with("--http", "1"), with("--http", "2"));
    assert_ne!(with("--node-port", "1"), with("--node-port", "2"));
    assert_ne!(parse(&["--mode", "local"]), parse(&["--mode", "both"]));
    assert_ne!(parse(&["--mode", "both", "--no-suppliers"]), parse(&["--mode", "both"]));
}
