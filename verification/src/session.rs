//! Agent sessions as the helper lists them, and where each of them runs.

use crate::text::{copy_text, optional_text};
use vstd::prelude::*;

verus! {

/// The machine that an SSH connection goes to.
#[derive(Debug, Eq, Hash)]
pub struct SshTarget {
    pub destination: String,
    /// `None` leaves the port to the SSH client.
    pub port: Option<u16>,
}

/// What an [`SshTarget`] denotes.
pub struct TargetView {
    pub destination: Seq<char>,
    pub port: Option<u16>,
}

impl View for SshTarget {
    type V = TargetView;

    open spec fn view(&self) -> TargetView {
        TargetView { destination: self.destination@, port: self.port }
    }
}

impl Clone for SshTarget {
    fn clone(&self) -> (copy: Self)
        ensures
            copy@ == self@,
    {
        SshTarget { destination: self.destination.clone(), port: self.port }
    }
}

impl PartialEq for SshTarget {
    fn eq(&self, other: &Self) -> (same: bool) {
        let same_port = match (self.port, other.port) {
            (Some(mine), Some(theirs)) => mine == theirs,
            (None, None) => true,
            _ => false,
        };
        self.destination == other.destination && same_port
    }
}

impl vstd::std_specs::cmp::PartialEqSpecImpl for SshTarget {
    open spec fn obeys_eq_spec() -> bool {
        true
    }

    open spec fn eq_spec(&self, other: &Self) -> bool {
        self@ == other@
    }
}

/// The command line agent that a session belongs to, by its name.
#[derive(Debug, Eq, Hash)]
pub struct CliSource {
    pub name: String,
}

impl View for CliSource {
    type V = Seq<char>;

    open spec fn view(&self) -> Seq<char> {
        self.name@
    }
}

impl Clone for CliSource {
    fn clone(&self) -> (copy: Self)
        ensures
            copy@ == self@,
    {
        CliSource { name: self.name.clone() }
    }
}

impl PartialEq for CliSource {
    fn eq(&self, other: &Self) -> (same: bool) {
        self.name == other.name
    }
}

impl vstd::std_specs::cmp::PartialEqSpecImpl for CliSource {
    open spec fn obeys_eq_spec() -> bool {
        true
    }

    open spec fn eq_spec(&self, other: &Self) -> bool {
        self@ == other@
    }
}

/// Where a session runs.
#[derive(Debug, PartialEq, Eq)]
pub enum SessionLocation {
    /// On the machine that the helper runs on.
    Host,
    /// In a distribution of the Windows Subsystem for Linux.
    Wsl { distro: String },
    /// On another machine, reached over SSH.
    Ssh { target: SshTarget },
}

/// What a [`SessionLocation`] denotes.
pub enum LocationView {
    Host,
    Wsl { distro: Seq<char> },
    Ssh { target: TargetView },
}

impl View for SessionLocation {
    type V = LocationView;

    open spec fn view(&self) -> LocationView {
        match self {
            SessionLocation::Host => LocationView::Host,
            SessionLocation::Wsl { distro } => LocationView::Wsl { distro: distro@ },
            SessionLocation::Ssh { target } => LocationView::Ssh { target: target@ },
        }
    }
}

impl Clone for SessionLocation {
    fn clone(&self) -> (copy: Self)
        ensures
            copy@ == self@,
    {
        match self {
            SessionLocation::Host => SessionLocation::Host,
            SessionLocation::Wsl { distro } => SessionLocation::Wsl { distro: distro.clone() },
            SessionLocation::Ssh { target } => SessionLocation::Ssh { target: target.clone() },
        }
    }
}

/// What a session is doing, as far as the helper knows.
#[derive(Debug, Clone, Copy, PartialEq, Eq, Structural)]
pub enum AgentStatus {
    /// Known from the agent's history; no pane shows it.
    Historical,
    /// A pane shows it, and it waits for input.
    Idle,
    /// The pane that showed it is gone.
    Ended,
    /// Any other status, under the host's own number for it. It is carried along unread.
    Other(u32),
}

/// What started a session, as far as the helper knows.
#[derive(Debug, Clone, Copy, PartialEq, Eq, Structural)]
pub enum SessionOrigin {
    Unknown,
    /// A known origin, under the host's own number for it. It is carried along unread.
    Known(u32),
}

/// One row of the sessions view.
#[derive(Debug, PartialEq, Eq)]
pub struct AgentSession {
    /// The agent's own identifier of the session.
    pub key: String,
    pub cli_source: CliSource,
    pub location: SessionLocation,
    pub title: String,
    pub cwd: String,
    pub status: AgentStatus,
    pub origin: SessionOrigin,
    /// The terminal pane that shows the session.
    pub pane_session_id: Option<String>,
    /// In nanoseconds since the start of 1970, negative before it.
    pub last_activity_at: i128,
}

/// What an [`AgentSession`] denotes.
pub struct SessionView {
    pub key: Seq<char>,
    pub cli_source: Seq<char>,
    pub location: LocationView,
    pub title: Seq<char>,
    pub cwd: Seq<char>,
    pub status: AgentStatus,
    pub origin: SessionOrigin,
    pub pane_session_id: Option<Seq<char>>,
    pub last_activity_at: i128,
}

impl View for AgentSession {
    type V = SessionView;

    open spec fn view(&self) -> SessionView {
        SessionView {
            key: self.key@,
            cli_source: self.cli_source@,
            location: self.location@,
            title: self.title@,
            cwd: self.cwd@,
            status: self.status,
            origin: self.origin,
            pane_session_id: optional_text(self.pane_session_id),
            last_activity_at: self.last_activity_at,
        }
    }
}

impl Clone for AgentSession {
    fn clone(&self) -> (copy: Self)
        ensures
            copy@ == self@,
    {
        AgentSession {
            key: self.key.clone(),
            cli_source: self.cli_source.clone(),
            location: self.location.clone(),
            title: self.title.clone(),
            cwd: self.cwd.clone(),
            status: self.status,
            origin: self.origin,
            pane_session_id: copy_text(&self.pane_session_id),
            last_activity_at: self.last_activity_at,
        }
    }
}

/// What each of a sequence of sessions denotes.
pub open spec fn session_views(sessions: Seq<AgentSession>) -> Seq<SessionView> {
    sessions.map_values(|session: AgentSession| session@)
}

} // verus!
