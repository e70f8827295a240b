//! The run modes and the node profiles that they stand for.

use crate::text::same_text;
use vstd::prelude::*;

verus! {

/// The run mode. It composes the node profiles.
///
/// A node makes no serve-only or mesh-only distinction: every booted profile
/// serves clients and meshes. The profile only picks the default instance name,
/// and the three modes differ in naming and intent.
#[derive(Clone, Copy, Debug, PartialEq, Eq, Structural)]
pub enum Mode {
    /// Serve the UI and local client sessions (the dev-box entry node).
    Local,
    /// Mesh participant that holds claims (workspace host).
    Peer,
    /// The dev-box default: one process that serves and meshes. A booted node
    /// does both, so this maps to the `local` profile.
    Both,
}

/// The mode that goes by a name, if there is one.
pub open spec fn mode_named(name: Seq<char>) -> Option<Mode> {
    if name == "local"@ {
        Some(Mode::Local)
    } else if name == "peer"@ {
        Some(Mode::Peer)
    } else if name == "both"@ {
        Some(Mode::Both)
    } else {
        None
    }
}

impl Mode {
    /// The mode's own name.
    pub open spec fn name(self) -> Seq<char> {
        match self {
            Mode::Local => "local"@,
            Mode::Peer => "peer"@,
            Mode::Both => "both"@,
        }
    }

    /// The node profile that the mode boots.
    pub open spec fn profile(self) -> Seq<char> {
        match self {
            Mode::Peer => "peer"@,
            _ => "local"@,
        }
    }

    /// Finds a mode by its name.
    pub fn parse(s: &str) -> (mode: Option<Mode>)
        ensures
            mode == mode_named(s@),
    {
        if same_text(s, "local") {
            Some(Mode::Local)
        } else if same_text(s, "peer") {
            Some(Mode::Peer)
        } else if same_text(s, "both") {
            Some(Mode::Both)
        } else {
            None
        }
    }

    /// The mode's own name, as `/bootstrap.json` carries it.
    pub fn as_str(self) -> (name: &'static str)
        ensures
            name@ == self.name(),
    {
        match self {
            Mode::Local => "local",
            Mode::Peer => "peer",
            Mode::Both => "both",
        }
    }

    /// The `--profile` value for the node. `both` maps to `local` because a
    /// booted local node already serves clients and meshes.
    pub fn node_profile(self) -> (profile: &'static str)
        ensures
            profile@ == self.profile(),
    {
        match self {
            Mode::Local | Mode::Both => "local",
            Mode::Peer => "peer",
        }
    }
}

/// Names and modes correspond one to one: the mode with a given name is the
/// mode whose own name that is.
pub proof fn names_and_modes_correspond(name: Seq<char>, mode: Mode)
    ensures
        mode_named(name) == Some(mode) <==> name == mode.name(),
{
    reveal_strlit("local");
    reveal_strlit("peer");
    reveal_strlit("both");
    assert("local"@.len() == 5 && "peer"@.len() == 4 && "both"@.len() == 4);
    assert("peer"@[0] == 'p' && "both"@[0] == 'b');
}

/// The three modes by name. There is no fourth, and no other spelling.
pub proof fn there_are_three_modes(name: Seq<char>)
    ensures
        mode_named(name) == Some(Mode::Local) <==> name == "local"@,
        mode_named(name) == Some(Mode::Peer) <==> name == "peer"@,
        mode_named(name) == Some(Mode::Both) <==> name == "both"@,
        Mode::Local.name() == "local"@ && Mode::Peer.name() == "peer"@ && Mode::Both.name()
            == "both"@,
        Mode::Local.profile() == "local"@ && Mode::Peer.profile() == "peer"@
            && Mode::Both.profile() == "local"@,
{
    names_and_modes_correspond(name, Mode::Local);
    names_and_modes_correspond(name, Mode::Peer);
    names_and_modes_correspond(name, Mode::Both);
}

/// A profile is the name of a mode that boots this same profile, so mapping a
/// mode to its profile twice changes nothing.
pub proof fn profiles_are_modes(mode: Mode)
    ensures
        mode_named(mode.profile()) is Some,
        mode_named(mode.profile())->0.profile() == mode.profile(),
        mode != Mode::Both ==> mode.profile() == mode.name(),
{
    names_and_modes_correspond(mode.profile(), Mode::Local);
    names_and_modes_correspond(mode.profile(), Mode::Peer);
}

} // verus!
