//! What the helper asks of the terminal, and what it makes of the answers.

use crate::binding::{OutcomeView, SshResumeOutcome};
use crate::guid::{created_pane_id, pane_created, result_text};
use crate::key::{KeyView, SshSessionKey};
use crate::text::optional_text;
use vstd::prelude::*;

verus! {

pub const NOT_REMOTE_MESSAGE: &'static str = "SSH resume requires an SSH session source.";

pub const FOREIGN_SOURCE_MESSAGE: &'static str = "SSH session does not belong to the selected source.";

pub const NO_BINDING_MESSAGE: &'static str = "SSH session has no local pane binding.";

pub const STALE_BINDING_MESSAGE: &'static str = "SSH session pane binding is no longer current.";

pub const NO_RESUME_LOOP_MESSAGE: &'static str = "SSH session resume requires the helper event loop.";

pub const NO_FOCUS_LOOP_MESSAGE: &'static str = "SSH session focus requires the helper event loop.";

/// Why the helper does not turn to the terminal.
#[derive(Debug, PartialEq, Eq)]
pub enum ResumeError {
    /// The session is not on a remote machine.
    NotRemote,
    /// The selected tab does not list the session.
    ForeignSource,
    /// No pane was ever asked for to resume the session.
    NoBinding,
    /// The pane is not the one that shows the session.
    StaleBinding,
    /// There is nobody to hand the outcome of a resumption to.
    NoResumeLoop,
    /// There is nobody to hand the outcome of a focus request to.
    NoFocusLoop,
    /// There is nothing to run the request on, for the reason given.
    NoRuntime { message: String },
}

/// What a [`ResumeError`] denotes.
pub enum ErrorView {
    NotRemote,
    ForeignSource,
    NoBinding,
    StaleBinding,
    NoResumeLoop,
    NoFocusLoop,
    NoRuntime { message: Seq<char> },
}

impl View for ResumeError {
    type V = ErrorView;

    open spec fn view(&self) -> ErrorView {
        match self {
            ResumeError::NotRemote => ErrorView::NotRemote,
            ResumeError::ForeignSource => ErrorView::ForeignSource,
            ResumeError::NoBinding => ErrorView::NoBinding,
            ResumeError::StaleBinding => ErrorView::StaleBinding,
            ResumeError::NoResumeLoop => ErrorView::NoResumeLoop,
            ResumeError::NoFocusLoop => ErrorView::NoFocusLoop,
            ResumeError::NoRuntime { message } => ErrorView::NoRuntime { message: message@ },
        }
    }
}

impl ErrorView {
    /// The error in words.
    pub open spec fn message(self) -> Seq<char> {
        match self {
            ErrorView::NotRemote => NOT_REMOTE_MESSAGE@,
            ErrorView::ForeignSource => FOREIGN_SOURCE_MESSAGE@,
            ErrorView::NoBinding => NO_BINDING_MESSAGE@,
            ErrorView::StaleBinding => STALE_BINDING_MESSAGE@,
            ErrorView::NoResumeLoop => NO_RESUME_LOOP_MESSAGE@,
            ErrorView::NoFocusLoop => NO_FOCUS_LOOP_MESSAGE@,
            ErrorView::NoRuntime { message } => message,
        }
    }
}

impl ResumeError {
    /// The error in words.
    pub fn message(&self) -> (message: String)
        ensures
            message@ == self@.message(),
    {
        match self {
            ResumeError::NotRemote => NOT_REMOTE_MESSAGE.to_string(),
            ResumeError::ForeignSource => FOREIGN_SOURCE_MESSAGE.to_string(),
            ResumeError::NoBinding => NO_BINDING_MESSAGE.to_string(),
            ResumeError::StaleBinding => STALE_BINDING_MESSAGE.to_string(),
            ResumeError::NoResumeLoop => NO_RESUME_LOOP_MESSAGE.to_string(),
            ResumeError::NoFocusLoop => NO_FOCUS_LOOP_MESSAGE.to_string(),
            ResumeError::NoRuntime { message } => message.clone(),
        }
    }
}

/// What is left to do after a key press on a session.
#[derive(Debug, PartialEq, Eq)]
pub enum ResumeStep {
    /// Nothing.
    Nothing,
    /// Nothing; the tabs that list the session show why.
    Refused { error: String },
    /// Ask the terminal for a tab that runs a command line.
    CreateTab { key: SshSessionKey, operation_id: u128, commandline: String, title: String },
    /// Ask the terminal to bring a pane to the front.
    FocusPane { key: SshSessionKey, operation_id: u128, pane_id: String },
}

/// What a [`ResumeStep`] denotes.
pub enum StepView {
    Nothing,
    Refused { error: Seq<char> },
    CreateTab { key: KeyView, operation_id: u128, commandline: Seq<char>, title: Seq<char> },
    FocusPane { key: KeyView, operation_id: u128, pane_id: Seq<char> },
}

impl View for ResumeStep {
    type V = StepView;

    open spec fn view(&self) -> StepView {
        match self {
            ResumeStep::Nothing => StepView::Nothing,
            ResumeStep::Refused { error } => StepView::Refused { error: error@ },
            ResumeStep::CreateTab { key, operation_id, commandline, title } =>
                StepView::CreateTab {
                key: key@,
                operation_id: *operation_id,
                commandline: commandline@,
                title: title@,
            },
            ResumeStep::FocusPane { key, operation_id, pane_id } => StepView::FocusPane {
                key: key@,
                operation_id: *operation_id,
                pane_id: pane_id@,
            },
        }
    }
}

/// What a step or the reason against it denotes.
pub open spec fn step_view(step: Result<ResumeStep, ResumeError>) -> Result<StepView, ErrorView> {
    match step {
        Ok(step) => Ok(step@),
        Err(error) => Err(error@),
    }
}

/// What a result without a value denotes.
pub open spec fn check_view(check: Result<(), String>) -> Result<(), Seq<char>> {
    match check {
        Ok(_) => Ok(()),
        Err(message) => Err(message@),
    }
}

/// What to report of an answer to a request for a new tab, and the pane to bring to
/// the front once that has been reported. `reply` is the pane identifier in the
/// answer, or the message of the failure to get one.
pub fn report_creation(reply: Result<String, String>) -> (report: (
    SshResumeOutcome,
    Option<String>,
))
    ensures
        report.0@ == OutcomeView::Created(pane_created(result_text(reply))),
        optional_text(report.1) == match pane_created(result_text(reply)) {
            Ok(pane_id) => Some(pane_id),
            Err(_) => None,
        },
{
    let created = created_pane_id(reply);
    let focus = match &created {
        Ok(pane_id) => Some(pane_id.clone()),
        Err(_) => None,
    };
    (SshResumeOutcome::Created(created), focus)
}

/// What to report of an answer to a request to bring a pane to the front: nothing
/// unless it failed.
pub fn report_focus(pane_id: String, reply: Result<(), String>) -> (report: Option<
    SshResumeOutcome,
>)
    ensures
        match report {
            Some(outcome) => check_view(reply) matches Err(error) && outcome@
                == (OutcomeView::FocusFailed { pane_id: pane_id@, error }),
            None => reply is Ok,
        },
{
    match reply {
        Ok(_) => None,
        Err(error) => Some(SshResumeOutcome::FocusFailed { pane_id, error }),
    }
}

} // verus!
