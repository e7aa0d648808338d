//! The record of one resumed session, and what the terminal reports about it.

use crate::guid::result_text;
use crate::session::{AgentSession, AgentStatus, SessionView};
use crate::text::{contains_text, occurs_in};
use vstd::prelude::*;

verus! {

/// How far the resumption of a session has come.
#[derive(Debug, Clone, Copy, PartialEq, Eq, Structural)]
pub enum ResumePhase {
    /// A pane was asked for and not answered yet.
    Launching,
    /// A pane shows the session.
    Bound,
    /// The pane that showed the session is gone.
    Ended,
}

/// The helper's own record of one resumed session.
#[derive(Debug)]
pub struct ResumeBinding {
    /// The request that the record follows. An answer to another request is stale.
    pub operation_id: u128,
    pub phase: ResumePhase,
    pub session: AgentSession,
}

/// What a [`ResumeBinding`] denotes.
pub struct BindingView {
    pub operation_id: u128,
    pub phase: ResumePhase,
    pub session: SessionView,
}

impl View for ResumeBinding {
    type V = BindingView;

    open spec fn view(&self) -> BindingView {
        BindingView {
            operation_id: self.operation_id,
            phase: self.phase,
            session: self.session@,
        }
    }
}

impl BindingView {
    /// The record once the pane of the session is gone.
    pub open spec fn ended(self) -> BindingView {
        BindingView {
            phase: ResumePhase::Ended,
            session: SessionView {
                status: AgentStatus::Ended,
                pane_session_id: None,
                ..self.session
            },
            ..self
        }
    }

    /// The record once a pane is gone, be it the pane of the session or another one.
    pub open spec fn after_closure(self, pane_id: Seq<char>) -> BindingView {
        if self.session.pane_session_id == Some(pane_id) {
            self.ended()
        } else {
            self
        }
    }

    /// The record once a pane shows the session.
    pub open spec fn bound(self, pane_id: Seq<char>, now: i128) -> BindingView {
        BindingView {
            phase: ResumePhase::Bound,
            session: SessionView {
                status: AgentStatus::Idle,
                pane_session_id: Some(pane_id),
                last_activity_at: now,
                ..self.session
            },
            ..self
        }
    }
}

/// What became of a request to the terminal.
#[derive(Debug)]
pub enum SshResumeOutcome {
    /// The pane that shows the session, or why no pane could be made.
    Created(Result<String, String>),
    /// The pane could not be brought to the front.
    FocusFailed { pane_id: String, error: String },
}

/// What an [`SshResumeOutcome`] denotes.
pub enum OutcomeView {
    Created(Result<Seq<char>, Seq<char>>),
    FocusFailed { pane_id: Seq<char>, error: Seq<char> },
}

impl View for SshResumeOutcome {
    type V = OutcomeView;

    open spec fn view(&self) -> OutcomeView {
        match self {
            SshResumeOutcome::Created(result) => OutcomeView::Created(result_text(*result)),
            SshResumeOutcome::FocusFailed { pane_id, error } => OutcomeView::FocusFailed {
                pane_id: pane_id@,
                error: error@,
            },
        }
    }
}

impl OutcomeView {
    /// The failure that a report tells of, if it is one.
    pub open spec fn failure(self) -> Option<Seq<char>> {
        match self {
            OutcomeView::Created(Ok(_)) => None,
            OutcomeView::Created(Err(message)) => Some(message),
            OutcomeView::FocusFailed { error, .. } => Some(error),
        }
    }
}

/// The code with which the terminal says that it has no such pane.
pub const PANE_NOT_FOUND: &'static str = "0x80070490";

/// Whether a message of the terminal says that the pane does not exist. Every other
/// failure, of the terminal or of the way to it, says nothing about the pane.
pub open spec fn reports_missing_pane(error: Seq<char>) -> bool {
    occurs_in(PANE_NOT_FOUND@, error)
}

/// Whether a message of the terminal says that the pane does not exist.
pub fn pane_gone(error: &str) -> (gone: bool)
    ensures
        gone == reports_missing_pane(error@),
{
    contains_text(error, PANE_NOT_FOUND)
}

} // verus!
