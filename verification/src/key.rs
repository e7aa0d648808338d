//! The identity of a remote session, and the sources whose sessions a tab lists.

use crate::session::{AgentSession, CliSource, SessionLocation, SshTarget};
use crate::session::{LocationView, SessionView, TargetView};
use vstd::prelude::*;

verus! {

/// What tells one remote session from every other: the machine, the agent, and
/// the agent's own identifier of the session. The identifier alone is not unique,
/// for two machines or two agents may have given out the same one.
#[derive(Debug, Eq, Hash)]
pub struct SshSessionKey {
    pub target: SshTarget,
    pub cli: CliSource,
    pub session_id: String,
}

/// What an [`SshSessionKey`] denotes.
pub struct KeyView {
    pub target: TargetView,
    pub cli: Seq<char>,
    pub session_id: Seq<char>,
}

impl View for SshSessionKey {
    type V = KeyView;

    open spec fn view(&self) -> KeyView {
        KeyView { target: self.target@, cli: self.cli@, session_id: self.session_id@ }
    }
}

impl Clone for SshSessionKey {
    fn clone(&self) -> (copy: Self)
        ensures
            copy@ == self@,
    {
        SshSessionKey {
            target: self.target.clone(),
            cli: self.cli.clone(),
            session_id: self.session_id.clone(),
        }
    }
}

impl PartialEq for SshSessionKey {
    fn eq(&self, other: &Self) -> (same: bool) {
        self.target == other.target && self.cli == other.cli && self.session_id
            == other.session_id
    }
}

impl vstd::std_specs::cmp::PartialEqSpecImpl for SshSessionKey {
    open spec fn obeys_eq_spec() -> bool {
        true
    }

    open spec fn eq_spec(&self, other: &Self) -> bool {
        self@ == other@
    }
}

/// The machine and the agent whose sessions a tab lists.
#[derive(Debug, PartialEq, Eq)]
pub struct SshSessionsSource {
    pub target: SshTarget,
    /// The command line agent that the tab's agent stands for, if it stands for one.
    pub cli: Option<CliSource>,
}

/// What an [`SshSessionsSource`] denotes.
pub struct SourceView {
    pub target: TargetView,
    pub cli: Option<Seq<char>>,
}

impl View for SshSessionsSource {
    type V = SourceView;

    open spec fn view(&self) -> SourceView {
        SourceView {
            target: self.target@,
            cli: match self.cli {
                Some(cli) => Some(cli@),
                None => None,
            },
        }
    }
}

impl Clone for SshSessionsSource {
    fn clone(&self) -> (copy: Self)
        ensures
            copy@ == self@,
    {
        SshSessionsSource {
            target: self.target.clone(),
            cli: match &self.cli {
                Some(cli) => Some(cli.clone()),
                None => None,
            },
        }
    }
}

/// The identity of a session. Only a session on a remote machine has one.
pub open spec fn key_of(session: SessionView) -> Option<KeyView> {
    match session.location {
        LocationView::Ssh { target } => Some(
            KeyView { target, cli: session.cli_source, session_id: session.key },
        ),
        _ => None,
    }
}

impl KeyView {
    /// Whether a source lists the session with this identity: it is on the
    /// source's machine and belongs to the source's agent.
    pub open spec fn listed_by(self, source: SourceView) -> bool {
        self.target == source.target && source.cli == Some(self.cli)
    }
}

impl SshSessionKey {
    /// The identity of a session, `None` for one that is not on a remote machine.
    pub fn from_session(session: &AgentSession) -> (key: Option<Self>)
        ensures
            match key {
                Some(key) => key_of(session@) == Some(key@),
                None => key_of(session@) is None,
            },
    {
        match &session.location {
            SessionLocation::Ssh { target } => Some(
                SshSessionKey {
                    target: target.clone(),
                    cli: session.cli_source.clone(),
                    session_id: session.key.clone(),
                },
            ),
            _ => None,
        }
    }

    /// Whether `source` lists the session with this identity.
    pub fn matches_source(&self, source: &SshSessionsSource) -> (listed: bool)
        ensures
            listed == self@.listed_by(source@),
    {
        match &source.cli {
            Some(cli) => self.target == source.target && *cli == self.cli,
            None => false,
        }
    }

    /// Whether this is the identity of `session`.
    pub fn identifies(&self, session: &AgentSession) -> (same: bool)
        ensures
            same == (key_of(session@) == Some(self@)),
    {
        match SshSessionKey::from_session(session) {
            Some(key) => key == *self,
            None => false,
        }
    }
}

} // verus!
