use grazel::Mode;

#[test]
fn mode_parse_roundtrip() {
    assert_eq!(Mode::parse("local"), Some(Mode::Local));
    assert_eq!(Mode::parse("peer"), Some(Mode::Peer));
    assert_eq!(Mode::parse("both"), Some(Mode::Both));
    assert_eq!(Mode::parse("server"), None);
    assert_eq!(Mode::parse(""), None);
}

#[test]
fn mode_maps_to_node_profile() {
    // both -> local: a booted local node already serves + meshes.
    assert_eq!(Mode::Local.node_profile(), "local");
    assert_eq!(Mode::Peer.node_profile(), "peer");
    assert_eq!(Mode::Both.node_profile(), "local");
}

#[test]
fn mode_as_str_is_its_own_name() {
    assert_eq!(Mode::Local.as_str(), "local");
    assert_eq!(Mode::Peer.as_str(), "peer");
    assert_eq!(Mode::Both.as_str(), "both");
}

#[test]
fn every_mode_is_found_by_its_name() {
    for mode in [Mode::Local, Mode::Peer, Mode::Both] {
        assert_eq!(Mode::parse(mode.as_str()), Some(mode));
    }
    assert_eq!(Mode::parse("Local"), None);
    assert_eq!(Mode::parse("local "), None);
}

#[test]
fn mapping_a_profile_again_changes_nothing() {
    for mode in [Mode::Local, Mode::Peer, Mode::Both] {
        let profile = mode.node_profile();
        assert_eq!(Mode::parse(profile).unwrap().node_profile(), profile);
    }
}
