use grazel::supervise::{
    listening_port, node_exit_code, react, signal_target, stderr_tail, Event, PortWatch, Reaction, StderrTail,
};
use grazel::supplier::SupplierPlan;
use grazel::text::{join_texts, trim};
use grazel::Config;

#[test]
fn announcements_carry_the_port() {
    assert_eq!(listening_port("listening 9099"), Some(9099));
    assert_eq!(listening_port("listening   +80 \t"), Some(80));
    for line in ["", "listening", "listening ", "listening x", "listening 1 2", " listening 1", "Listening 1", "listening 65536"] {
        assert_eq!(listening_port(line), None, "{line:?}");
    }
}

#[test]
fn only_the_first_announcement_counts() {
    let mut watch = PortWatch::new();
    assert!(!watch.reported());
    assert_eq!(watch.observe("booting"), None);
    assert_eq!(watch.observe("listening soon"), None);
    assert!(!watch.reported());
    assert_eq!(watch.observe("listening 41"), Some(41));
    assert!(watch.reported());
    assert_eq!(watch.observe("listening 42"), None);
    assert!(watch.reported());
}

#[test]
fn white_space_is_that_of_the_standard_library() {
    for n in 0u32..0x11_0000 {
        if let Some(c) = char::from_u32(n) {
            if c.is_whitespace() || n < 0x3100 {
                let text = format!("{c}x{c}");
                assert_eq!(trim(&text), text.trim(), "{n:x}");
            }
        }
    }
    assert_eq!(trim("  a b  "), "a b");
    assert_eq!(trim(" \n "), "");
}

#[test]
fn the_last_twenty_lines_are_kept() {
    let mut tail = StderrTail::new();
    assert_eq!(stderr_tail(&tail), "[grazel] (node stderr was empty)");
    tail.push("one".to_string());
    assert_eq!(stderr_tail(&tail), "[grazel] node stderr tail:\none");
    tail.push("two".to_string());
    assert_eq!(stderr_tail(&tail), "[grazel] node stderr tail:\none\ntwo");
    for n in 3..=25 {
        tail.push(format!("{n}"));
    }
    let expected: Vec<String> = (6..=25).map(|n| format!("{n}")).collect();
    assert_eq!(tail.to_vec(), expected);
    assert_eq!(stderr_tail(&tail), format!("[grazel] node stderr tail:\n{}", expected.join("\n")));
}

#[test]
fn joining_puts_separators_between() {
    let parts = |texts: &[&str]| texts.iter().map(|t| t.to_string()).collect::<Vec<String>>();
    assert_eq!(join_texts(&parts(&[]), ' '), "");
    assert_eq!(join_texts(&parts(&["a"]), ' '), "a");
    assert_eq!(join_texts(&parts(&["a", "", "b"]), ','), "a,,b");
}

#[test]
fn node_exit_is_never_success() {
    assert_eq!(node_exit_code(Some(0)), 1);
    assert_eq!(node_exit_code(None), 1);
    assert_eq!(node_exit_code(Some(3)), 3);
    assert_eq!(node_exit_code(Some(-1)), -1);
}

#[test]
fn each_event_has_its_reaction() {
    let on = Reaction { exit_code: None, show_tail: false, stop_node: false, stop_supplier: false };
    assert_eq!(react(Event::StorageFailed), Reaction { exit_code: Some(2), ..on });
    assert_eq!(react(Event::NodeNotStarted), Reaction { exit_code: Some(2), ..on });
    assert_eq!(react(Event::HttpFailed), Reaction { exit_code: Some(2), ..on });
    assert_eq!(react(Event::NodeSilent), Reaction { exit_code: Some(1), show_tail: true, ..on });
    assert_eq!(
        react(Event::NodeExited(Some(7))),
        Reaction { exit_code: Some(7), show_tail: true, stop_supplier: true, ..on }
    );
    assert_eq!(
        react(Event::NodeExited(Some(0))),
        Reaction { exit_code: Some(1), show_tail: true, stop_supplier: true, ..on }
    );
    assert_eq!(react(Event::SupplierNotStarted), on);
    assert_eq!(react(Event::SupplierExited), on);
    assert_eq!(
        react(Event::Signalled),
        Reaction { exit_code: Some(130), stop_node: true, stop_supplier: true, ..on }
    );
}

#[test]
fn only_children_are_signalled() {
    assert_eq!(signal_target(0), None);
    assert_eq!(signal_target(-1), None);
    assert_eq!(signal_target(42), Some(42));
}

fn config(args: &[&str]) -> Config {
    Config::parse(args.iter().map(|a| a.to_string()).collect()).unwrap()
}

#[test]
fn the_supplier_serves_from_the_files_slot() {
    let c = config(&["--mode", "both", "--name", "other", "--data", "/var/g"]);
    assert_eq!(
        c.gwz_supplier_argv(9100),
        vec![
            "--node", "ws://127.0.0.1:9100", "--root", "/var/g/files", "--share", "ws-razel", "--principal",
            "grazel",
        ]
    );
    assert_ne!(c.glade_home(), c.gwz_supplier_argv(9100)[3]);
}

#[test]
fn the_supplier_is_optional() {
    let on = config(&["--mode", "both", "--gwz-supplier-bin", "/x/gwz"]);
    let off = config(&["--mode", "both", "--no-suppliers"]);
    let plan = on.supplier_plan(true, 1);
    assert_eq!(plan, SupplierPlan::Spawn(on.gwz_supplier_argv(1)));
    assert_eq!(
        on.supplier_notice(&plan),
        "[grazel] spawning gwz supplier: /x/gwz --node ws://127.0.0.1:1 --root grazel-data/files \
         --share ws-razel --principal grazel"
    );
    let plan = on.supplier_plan(false, 1);
    assert_eq!(plan, SupplierPlan::Missing);
    assert_eq!(
        on.supplier_notice(&plan),
        "[grazel] SKIP gwz supplier: binary not found at /x/gwz \
         (build ../glade-gwz or pass --gwz-supplier-bin; a supplier is optional)"
    );
    for exists in [true, false] {
        let plan = off.supplier_plan(exists, 1);
        assert_eq!(plan, SupplierPlan::Disabled);
        assert_eq!(
            off.supplier_notice(&plan),
            "[grazel] suppliers disabled (--no-suppliers); node only"
        );
    }
}
