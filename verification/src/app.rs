//! The helper: its tabs, and the remote sessions that were resumed from them.

use crate::binding::{OutcomeView, ResumePhase, SshResumeOutcome};
use crate::clock;
use crate::guid::{canonical_pane_id, is_random_guid, pane_named, random_guid};
use crate::key::{key_of, KeyView, SourceView, SshSessionKey};
use crate::model::ResumesView;
use crate::requests::{check_view, step_view, ErrorView, StepView};
use crate::requests::{ResumeError, ResumeStep};
use crate::resumes::SshResumes;
use crate::session::{AgentSession, SessionView};
use crate::tabs::{remote_selections, selection_views, source_of_tab, tab_views};
use crate::tabs::{tabs_refreshed, tabs_with_error, TabSelection, TabSession, TabView};
use crate::text::{copy_text, is_text, optional_text};
use vstd::prelude::*;

verus! {

/// The helper.
pub struct App {
    pub ssh_resumes: SshResumes,
    pub tab_sessions: Vec<TabSession>,
    /// The tab that the user looks at.
    pub current_tab_id: String,
    /// Whether the event loop runs that takes the outcomes of requests.
    pub event_loop: bool,
}

/// What an [`App`] denotes.
#[verifier::ext_equal]
pub struct AppView {
    pub resumes: ResumesView,
    pub tabs: Seq<TabView>,
    pub current_tab_id: Seq<char>,
    pub event_loop: bool,
}

impl View for App {
    type V = AppView;

    open spec fn view(&self) -> AppView {
        AppView {
            resumes: self.ssh_resumes@,
            tabs: tab_views(self.tab_sessions@),
            current_tab_id: self.current_tab_id@,
            event_loop: self.event_loop,
        }
    }
}

impl AppView {
    /// What holds of the helper at all times.
    pub open spec fn well_formed(self) -> bool {
        self.resumes.well_formed()
    }

    /// After the failure to show for one session changed.
    pub open spec fn with_error(self, key: KeyView, error: Option<Seq<char>>) -> AppView {
        AppView { tabs: tabs_with_error(self.tabs, key, error), ..self }
    }

    /// With the rows of all tabs brought up to date.
    pub open spec fn refreshed(self) -> AppView {
        AppView { tabs: tabs_refreshed(self.tabs, self.resumes), ..self }
    }

    /// The source whose sessions the selected tab lists.
    pub open spec fn current_source(self) -> Option<SourceView> {
        source_of_tab(self.tabs, self.current_tab_id)
    }

    /// Whether the selected tab lists the session with this identity.
    pub open spec fn is_selected(self, key: KeyView) -> bool {
        self.current_source() matches Some(source) && key.listed_by(source)
    }

    /// Whether this pane may be brought to the front for a session, and if so, the
    /// request that the session's record follows.
    pub open spec fn focus_check(
        self,
        key: KeyView,
        pane_id: Seq<char>,
        runtime: Result<(), Seq<char>>,
    ) -> Result<u128, ErrorView> {
        let binding = self.resumes.bindings[key];
        if !self.is_selected(key) {
            Err(ErrorView::ForeignSource)
        } else if !self.resumes.bindings.contains_key(key) {
            Err(ErrorView::NoBinding)
        } else if binding.phase != ResumePhase::Bound || binding.session.pane_session_id != Some(
            pane_id,
        ) {
            Err(ErrorView::StaleBinding)
        } else if !self.event_loop {
            Err(ErrorView::NoFocusLoop)
        } else {
            match runtime {
                Ok(_) => Ok(binding.operation_id),
                Err(message) => Err(ErrorView::NoRuntime { message }),
            }
        }
    }

    /// After the wish to see a session in its pane, and what is left to do.
    pub open spec fn focused(
        self,
        session: SessionView,
        pane_id: Seq<char>,
        runtime: Result<(), Seq<char>>,
    ) -> (AppView, StepView) {
        match key_of(session) {
            Some(key) => match self.focus_check(key, pane_id, runtime) {
                Ok(operation_id) => (
                    self.with_error(key, None),
                    StepView::FocusPane { key, operation_id, pane_id },
                ),
                Err(error) => (
                    self.with_error(key, Some(error.message())),
                    StepView::Refused { error: error.message() },
                ),
            },
            None => (self, StepView::Nothing),
        }
    }

    /// Whether a new pane is asked for on the wish to resume a session.
    pub open spec fn wants_pane(self, session: SessionView, runtime: Result<(), Seq<char>>) -> bool {
        match key_of(session) {
            Some(key) => {
                &&& self.resumes.bindings.contains_key(key) ==> self.resumes.bindings[key].phase
                    == ResumePhase::Ended
                &&& self.event_loop
                &&& runtime is Ok
            },
            None => false,
        }
    }

    /// After the wish to resume a session, and what is left to do. A session that
    /// waits for its pane is left to wait; one that has its pane is shown in it; any
    /// other gets a new pane.
    pub open spec fn started(
        self,
        session: SessionView,
        commandline: Seq<char>,
        runtime: Result<(), Seq<char>>,
        operation_id: u128,
    ) -> (AppView, Result<StepView, ErrorView>) {
        match key_of(session) {
            Some(key) => {
                let binding = self.resumes.bindings[key];
                if self.resumes.is_launching(key) {
                    (self, Ok(StepView::Nothing))
                } else if self.resumes.bindings.contains_key(key) && binding.phase
                    == ResumePhase::Bound {
                    match binding.session.pane_session_id {
                        Some(pane_id) => {
                            let (after, step) = self.focused(binding.session, pane_id, runtime);
                            (after, Ok(step))
                        },
                        None => (self, Ok(StepView::Nothing)),
                    }
                } else if !self.event_loop {
                    (self, Err(ErrorView::NoResumeLoop))
                } else {
                    match runtime {
                        Ok(_) => (
                            AppView {
                                resumes: self.resumes.launched(key, operation_id, session),
                                ..self
                            }.with_error(key, None),
                            Ok(
                                StepView::CreateTab {
                                    key,
                                    operation_id,
                                    commandline,
                                    title: session.title,
                                },
                            ),
                        ),
                        Err(message) => (self, Err(ErrorView::NoRuntime { message })),
                    }
                }
            },
            None => (self, Err(ErrorView::NotRemote)),
        }
    }

    /// After a report of the terminal. A stale one changes nothing.
    pub open spec fn completed(
        self,
        key: KeyView,
        operation_id: u128,
        outcome: OutcomeView,
        now: i128,
    ) -> AppView {
        if self.resumes.accepts(key, operation_id, outcome) {
            AppView {
                resumes: self.resumes.settled(key, operation_id, outcome, now),
                ..self
            }.with_error(key, outcome.failure()).refreshed()
        } else {
            self
        }
    }

    /// After the terminal said that a pane closed or failed. `text` names the pane
    /// in any spelling; one that names no pane changes nothing.
    pub open spec fn pane_closed(self, text: Seq<char>) -> AppView {
        match pane_named(text) {
            Some(pane_id) => {
                let after = AppView { resumes: self.resumes.pane_closed(pane_id), ..self };
                if self.resumes.shows_pane(pane_id) {
                    after.refreshed()
                } else {
                    after
                }
            },
            None => self,
        }
    }
}

/// What a report of the terminal led to.
#[derive(Debug, PartialEq, Eq)]
pub struct ResumeUpdate {
    /// The failure that the tabs now show.
    pub error: Option<String>,
    /// The selections to put back.
    pub selections: Vec<TabSelection>,
}

impl App {
    /// A helper without tabs that has resumed nothing.
    pub fn new(current_tab_id: String, event_loop: bool) -> (app: Self)
        ensures
            app@.well_formed(),
            app@.resumes == ResumesView::none(),
            app@.tabs == Seq::<TabView>::empty(),
            app@.current_tab_id == current_tab_id@,
            app@.event_loop == event_loop,
    {
        let app = App {
            ssh_resumes: SshResumes::new(),
            tab_sessions: Vec::new(),
            current_tab_id,
            event_loop,
        };
        assert(app@.tabs =~= Seq::empty());
        app
    }

    /// Whether a session waits for its pane.
    pub fn ssh_resume_pending(&self, session: &AgentSession) -> (pending: bool)
        requires
            self@.well_formed(),
        ensures
            pending == (key_of(session@) matches Some(key) && self@.resumes.is_launching(key)),
    {
        match SshSessionKey::from_session(session) {
            Some(key) => match self.ssh_resumes.get(&key) {
                Some(binding) => binding.phase == ResumePhase::Launching,
                None => false,
            },
            None => false,
        }
    }

    /// Sets or clears the failure that is shown for a session, in every tab that
    /// lists it.
    pub fn set_ssh_resume_error(&mut self, key: &SshSessionKey, error: Option<String>)
        ensures
            final(self)@ == old(self)@.with_error(key@, optional_text(error)),
            final(self).ssh_resumes == old(self).ssh_resumes,
    {
        let ghost tabs = tab_views(self.tab_sessions@);
        let count: usize = self.tab_sessions.len();
        for i in 0..count
            invariant
                count == self.tab_sessions@.len(),
                tabs == tab_views(old(self).tab_sessions@),
                count == tabs.len(),
                self.ssh_resumes == old(self).ssh_resumes,
                self.current_tab_id == old(self).current_tab_id,
                self.event_loop == old(self).event_loop,
                forall|j: int|
                    0 <= j < count ==> (#[trigger] self.tab_sessions@[j])@ == if j < i {
                        tabs[j].with_error(key@, optional_text(error))
                    } else {
                        tabs[j]
                    },
        {
            if self.tab_sessions[i].shows(key) {
                self.tab_sessions[i].agents_view.ssh_error = copy_text(&error);
            }
        }
        assert(self@.tabs =~= tabs_with_error(tabs, key@, optional_text(error)));
    }

    /// Brings the rows of all tabs that list remote sessions up to date. The
    /// selections of these tabs come back, to be put back on the changed rows.
    pub fn refresh_ssh_resume_snapshots(&mut self) -> (selections: Vec<TabSelection>)
        requires
            old(self)@.well_formed(),
        ensures
            final(self)@ == old(self)@.refreshed(),
            final(self).ssh_resumes == old(self).ssh_resumes,
            selection_views(selections@) == remote_selections(old(self)@.tabs),
    {
        let ghost tabs = tab_views(self.tab_sessions@);
        let ghost remote = |tab: TabView| tab.lists_remote();
        let mut selections: Vec<TabSelection> = Vec::new();
        let count: usize = self.tab_sessions.len();
        proof {
            assert(selection_views(selections@) =~= remote_selections(tabs.take(0))) by {
                reveal(Seq::filter);
            }
        }
        for i in 0..count
            invariant
                old(self)@.well_formed(),
                count == self.tab_sessions@.len(),
                tabs == tab_views(old(self).tab_sessions@),
                count == tabs.len(),
                self.ssh_resumes == old(self).ssh_resumes,
                self.current_tab_id == old(self).current_tab_id,
                self.event_loop == old(self).event_loop,
                forall|j: int|
                    0 <= j < count ==> (#[trigger] self.tab_sessions@[j])@ == if j < i {
                        tabs[j].refreshed(self.ssh_resumes@)
                    } else {
                        tabs[j]
                    },
                selection_views(selections@) == remote_selections(tabs.take(i as int)),
        {
            let ghost before = selection_views(selections@);
            proof {
                assert(tabs.take(i + 1).drop_last() =~= tabs.take(i as int));
                assert(remote_selections(tabs.take(i + 1)) =~= if tabs[i as int].lists_remote() {
                    before.push(tabs[i as int].selection())
                } else {
                    before
                }) by {
                    reveal(Seq::filter);
                }
            }
            match self.tab_sessions[i].refresh(&self.ssh_resumes) {
                Some(selection) => {
                    let ghost added = selection@;
                    selections.push(selection);
                    assert(selection_views(selections@) =~= before.push(added));
                },
                None => {},
            }
        }
        assert(tabs.take(count as int) =~= tabs);
        assert(self@.tabs =~= tabs_refreshed(tabs, self.ssh_resumes@));
        selections
    }

    /// Whether the selected tab lists the session with this identity.
    fn is_selected(&self, key: &SshSessionKey) -> (selected: bool)
        ensures
            selected == self@.is_selected(key@),
    {
        let ghost tabs = tab_views(self.tab_sessions@);
        assert(tabs.skip(0) =~= tabs);
        for i in 0..self.tab_sessions.len()
            invariant
                tabs == tab_views(self.tab_sessions@),
                self@.current_source() == source_of_tab(tabs.skip(i as int), self.current_tab_id@),
        {
            let ghost rest = tabs.skip(i as int);
            assert(rest[0] == self.tab_sessions@[i as int]@);
            assert(rest.drop_first() =~= tabs.skip(i + 1));
            if self.tab_sessions[i].id == self.current_tab_id {
                return self.tab_sessions[i].shows(key);
            }
        }
        false
    }

    /// Whether this pane may be brought to the front for a session, and if so, the
    /// request that the session's record follows. `runtime` says whether there is
    /// something to run a request on.
    pub fn focus_request(
        &self,
        key: &SshSessionKey,
        pane_id: &String,
        runtime: Result<(), String>,
    ) -> (request: Result<u128, ResumeError>)
        requires
            self@.well_formed(),
        ensures
            match request {
                Ok(operation_id) => self@.focus_check(key@, pane_id@, check_view(runtime)) == Ok::<
                    u128,
                    ErrorView,
                >(operation_id),
                Err(error) => self@.focus_check(key@, pane_id@, check_view(runtime)) == Err::<
                    u128,
                    ErrorView,
                >(error@),
            },
    {
        if !self.is_selected(key) {
            return Err(ResumeError::ForeignSource);
        }
        match self.ssh_resumes.get(key) {
            None => Err(ResumeError::NoBinding),
            Some(binding) => {
                if binding.phase != ResumePhase::Bound || !is_text(
                    &binding.session.pane_session_id,
                    pane_id,
                ) {
                    return Err(ResumeError::StaleBinding);
                }
                if !self.event_loop {
                    return Err(ResumeError::NoFocusLoop);
                }
                match runtime {
                    Ok(_) => Ok(binding.operation_id),
                    Err(message) => Err(ResumeError::NoRuntime { message }),
                }
            },
        }
    }

    /// Asks for a session to be shown in its pane. The pane has to be the one that
    /// shows the session, and the selected tab has to list the session; where that
    /// fails, the tabs that list it show why.
    pub fn dispatch_ssh_session_focus(
        &mut self,
        session: &AgentSession,
        pane_id: &String,
        runtime: Result<(), String>,
    ) -> (step: ResumeStep)
        requires
            old(self)@.well_formed(),
        ensures
            (final(self)@, step@) == old(self)@.focused(session@, pane_id@, check_view(runtime)),
            final(self)@.well_formed(),
    {
        match SshSessionKey::from_session(session) {
            Some(key) => match self.focus_request(&key, pane_id, runtime) {
                Ok(operation_id) => {
                    self.set_ssh_resume_error(&key, None);
                    ResumeStep::FocusPane { key, operation_id, pane_id: pane_id.clone() }
                },
                Err(error) => {
                    let message = error.message();
                    self.set_ssh_resume_error(&key, Some(message.clone()));
                    ResumeStep::Refused { error: message }
                },
            },
            None => ResumeStep::Nothing,
        }
    }

    /// Resumes a session, under a given identifier for the request if one is made.
    pub fn resume_under(
        &mut self,
        session: &AgentSession,
        commandline: String,
        runtime: Result<(), String>,
        operation_id: u128,
    ) -> (step: Result<ResumeStep, ResumeError>)
        requires
            old(self)@.well_formed(),
        ensures
            (final(self)@, step_view(step)) == old(self)@.started(
                session@,
                commandline@,
                check_view(runtime),
                operation_id,
            ),
            final(self)@.well_formed(),
    {
        let key = match SshSessionKey::from_session(session) {
            Some(key) => key,
            None => return Err(ResumeError::NotRemote),
        };
        match self.ssh_resumes.get(&key) {
            Some(binding) => match binding.phase {
                ResumePhase::Launching => return Ok(ResumeStep::Nothing),
                ResumePhase::Bound => {
                    let bound = binding.session.clone();
                    return match &bound.pane_session_id {
                        Some(pane_id) => Ok(
                            self.dispatch_ssh_session_focus(&bound, pane_id, runtime),
                        ),
                        None => Ok(ResumeStep::Nothing),
                    };
                },
                ResumePhase::Ended => {},
            },
            None => {},
        }
        if !self.event_loop {
            return Err(ResumeError::NoResumeLoop);
        }
        match runtime {
            Ok(_) => {},
            Err(message) => return Err(ResumeError::NoRuntime { message }),
        }
        self.ssh_resumes.launch(key.clone(), operation_id, session.clone());
        self.set_ssh_resume_error(&key, None);
        Ok(
            ResumeStep::CreateTab {
                key,
                operation_id,
                commandline,
                title: session.title.clone(),
            },
        )
    }

    /// Whether a new pane is asked for on the wish to resume a session.
    fn wants_pane(&self, session: &AgentSession, runtime: &Result<(), String>) -> (wanted: bool)
        requires
            self@.well_formed(),
        ensures
            wanted == self@.wants_pane(session@, check_view(*runtime)),
    {
        match SshSessionKey::from_session(session) {
            Some(key) => {
                let over = match self.ssh_resumes.get(&key) {
                    Some(binding) => binding.phase == ResumePhase::Ended,
                    None => true,
                };
                over && self.event_loop && runtime.is_ok()
            },
            None => false,
        }
    }

    /// Resumes a session: a session that waits for its pane is left to wait, one that
    /// has its pane is shown in it, and for any other a new pane is asked for, that
    /// runs `commandline`. `runtime` says whether there is something to run a request
    /// on. A request that is made gets a random identifier.
    pub fn start_ssh_session_resume(
        &mut self,
        session: &AgentSession,
        commandline: String,
        runtime: Result<(), String>,
    ) -> (step: Result<ResumeStep, ResumeError>)
        requires
            old(self)@.well_formed(),
        ensures
            exists|operation_id: u128|
                {
                    &&& (final(self)@, step_view(step)) == #[trigger] old(self)@.started(
                        session@,
                        commandline@,
                        check_view(runtime),
                        operation_id,
                    )
                    &&& old(self)@.wants_pane(session@, check_view(runtime)) ==> is_random_guid(
                        operation_id,
                    )
                },
            final(self)@.well_formed(),
    {
        // Without a request the identifier goes unused.
        let operation_id: u128 = if self.wants_pane(session, &runtime) {
            random_guid()
        } else {
            0
        };
        self.resume_under(session, commandline, runtime, operation_id)
    }

    /// Takes a report of the terminal into account, as of a given time. `None` says
    /// that it was stale.
    pub fn complete_ssh_resume(
        &mut self,
        key: &SshSessionKey,
        operation_id: u128,
        outcome: SshResumeOutcome,
        now: i128,
    ) -> (update: Option<ResumeUpdate>)
        requires
            old(self)@.well_formed(),
        ensures
            final(self)@ == old(self)@.completed(key@, operation_id, outcome@, now),
            final(self)@.well_formed(),
            match update {
                Some(update) => {
                    &&& old(self)@.resumes.accepts(key@, operation_id, outcome@)
                    &&& optional_text(update.error) == outcome@.failure()
                    &&& selection_views(update.selections@) == remote_selections(old(self)@.tabs)
                },
                None => !old(self)@.resumes.accepts(key@, operation_id, outcome@),
            },
    {
        match self.ssh_resumes.settle(key, operation_id, outcome, now) {
            Some(error) => {
                self.set_ssh_resume_error(key, copy_text(&error));
                let selections = self.refresh_ssh_resume_snapshots();
                proof {
                    lemma_errors_keep_selections(old(self)@.tabs, key@, optional_text(error));
                }
                Some(ResumeUpdate { error, selections })
            },
            None => None,
        }
    }

    /// Takes a report of the terminal into account. A session that now has its pane
    /// was active just now. `None` says that the report was stale.
    pub fn handle_ssh_resume_completed(
        &mut self,
        key: &SshSessionKey,
        operation_id: u128,
        outcome: SshResumeOutcome,
    ) -> (update: Option<ResumeUpdate>)
        requires
            old(self)@.well_formed(),
        ensures
            exists|now: i128|
                {
                    &&& final(self)@ == #[trigger] old(self)@.completed(
                        key@,
                        operation_id,
                        outcome@,
                        now,
                    )
                    &&& -clock::NANOS_LIMIT < now < clock::NANOS_LIMIT
                },
            final(self)@.well_formed(),
            match update {
                Some(update) => {
                    &&& old(self)@.resumes.accepts(key@, operation_id, outcome@)
                    &&& optional_text(update.error) == outcome@.failure()
                    &&& selection_views(update.selections@) == remote_selections(old(self)@.tabs)
                },
                None => !old(self)@.resumes.accepts(key@, operation_id, outcome@),
            },
    {
        let now = clock::now();
        self.complete_ssh_resume(key, operation_id, outcome, now)
    }

    /// Takes into account that a pane closed or failed. `pane_id` names it in any
    /// spelling. The selections to put back come back.
    pub fn ssh_resume_pane_closed(&mut self, pane_id: &str) -> (selections: Vec<TabSelection>)
        requires
            old(self)@.well_formed(),
        ensures
            final(self)@ == old(self)@.pane_closed(pane_id@),
            final(self)@.well_formed(),
            selection_views(selections@) == if pane_named(pane_id@) matches Some(pane)
                && old(self)@.resumes.shows_pane(pane) {
                remote_selections(old(self)@.tabs)
            } else {
                Seq::empty()
            },
    {
        match canonical_pane_id(pane_id) {
            Some(pane_id) => {
                if self.ssh_resumes.close_pane(&pane_id) {
                    return self.refresh_ssh_resume_snapshots();
                }
            },
            None => {},
        }
        let selections: Vec<TabSelection> = Vec::new();
        assert(selection_views(selections@) =~= Seq::empty());
        selections
    }
}

/// Which failures are shown has no bearing on the selections.
proof fn lemma_errors_keep_selections(
    tabs: Seq<TabView>,
    key: KeyView,
    error: Option<Seq<char>>,
)
    ensures
        remote_selections(tabs_with_error(tabs, key, error)) == remote_selections(tabs),
    decreases tabs.len(),
{
    reveal(Seq::filter);
    let after = tabs_with_error(tabs, key, error);
    if tabs.len() > 0 {
        lemma_errors_keep_selections(tabs.drop_last(), key, error);
        assert(after.drop_last() =~= tabs_with_error(tabs.drop_last(), key, error));
        assert(after.last() == tabs.last().with_error(key, error));
        assert(remote_selections(after) =~= if tabs.last().lists_remote() {
            remote_selections(after.drop_last()).push(tabs.last().selection())
        } else {
            remote_selections(after.drop_last())
        });
        assert(remote_selections(tabs) =~= if tabs.last().lists_remote() {
            remote_selections(tabs.drop_last()).push(tabs.last().selection())
        } else {
            remote_selections(tabs.drop_last())
        });
    } else {
        assert(after =~= tabs);
    }
}

} // verus!
