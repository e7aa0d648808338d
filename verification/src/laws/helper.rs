//! What the helper shows and asks for, tab by tab and case by case.

use crate::app::{App, AppView};
use crate::binding::OutcomeView;
use crate::guid::{guid_text, spells_guid};
use crate::key::{key_of, KeyView};
use crate::laws::records::panes_are_shown_by_the_records_that_name_them;
use crate::laws::values::{every_pane_but_the_empty_one_is_taken, other_answers_are_failures};
use crate::requests::{ErrorView, StepView};
use crate::session::SessionView;
use crate::tabs::{remote_selections, source_of_tab, tab_views, TabView};
use vstd::prelude::*;

verus! {

/// Everything that the helper holds is part of what it denotes, and it is in order
/// exactly if its records are.
pub proof fn the_helper_shows_every_field(app: App)
    ensures
        app@.resumes == app.ssh_resumes@,
        app@.tabs == tab_views(app.tab_sessions@),
        app@.current_tab_id == app.current_tab_id@,
        app@.event_loop == app.event_loop,
        app@.well_formed() <==> app.ssh_resumes@.well_formed(),
{
}

/// A tab lists a session exactly if it has a source of the session's host, port and
/// agent.
pub proof fn tabs_list_by_host_port_and_agent(tab: TabView, key: KeyView)
    ensures
        tab.shows(key) <==> {
            &&& tab.source is Some
            &&& tab.source.unwrap().target.destination == key.target.destination
            &&& tab.source.unwrap().target.port == key.target.port
            &&& tab.source.unwrap().cli is Some
            &&& tab.source.unwrap().cli.unwrap() == key.cli
        },
{
    if tab.source is Some && tab.source.unwrap().target.destination == key.target.destination
        && tab.source.unwrap().target.port == key.target.port {
        assert(tab.source.unwrap().target == key.target);
    }
}

/// A failure is set or cleared in every tab that lists the session, wherever it stands,
/// and in no other. Nothing else changes, in these tabs or elsewhere.
pub proof fn failures_go_to_the_tabs_that_list_the_session(
    app: AppView,
    key: KeyView,
    error: Option<Seq<char>>,
)
    ensures
        ({
            let after = app.with_error(key, error);
            &&& after.resumes == app.resumes
            &&& after.current_tab_id == app.current_tab_id
            &&& after.event_loop == app.event_loop
            &&& after.tabs.len() == app.tabs.len()
            &&& forall|i: int|
                #![trigger after.tabs[i]]
                #![trigger app.tabs[i]]
                0 <= i < app.tabs.len() ==> {
                    &&& after.tabs[i].id == app.tabs[i].id
                    &&& after.tabs[i].source == app.tabs[i].source
                    &&& after.tabs[i].rows == app.tabs[i].rows
                    &&& after.tabs[i].selected == app.tabs[i].selected
                    &&& app.tabs[i].shows(key) ==> after.tabs[i].error == error
                    &&& !app.tabs[i].shows(key) ==> after.tabs[i].error == app.tabs[i].error
                }
        }),
{
}

/// Bringing the tabs up to date changes the rows of every tab that has a source and
/// has loaded its rows, wherever it stands, and nothing else.
pub proof fn every_loaded_remote_tab_is_brought_up_to_date(app: AppView)
    ensures
        ({
            let after = app.refreshed();
            &&& after.resumes == app.resumes
            &&& after.current_tab_id == app.current_tab_id
            &&& after.event_loop == app.event_loop
            &&& after.tabs.len() == app.tabs.len()
            &&& forall|i: int|
                #![trigger after.tabs[i]]
                #![trigger app.tabs[i]]
                0 <= i < app.tabs.len() ==> {
                    &&& after.tabs[i].id == app.tabs[i].id
                    &&& after.tabs[i].source == app.tabs[i].source
                    &&& after.tabs[i].error == app.tabs[i].error
                    &&& after.tabs[i].selected == app.tabs[i].selected
                    &&& app.tabs[i].source is Some && app.tabs[i].rows is Some
                        ==> after.tabs[i].rows == Some(
                        app.resumes.merged_rows(
                            app.tabs[i].rows.unwrap(),
                            app.tabs[i].source.unwrap(),
                        ),
                    )
                    &&& app.tabs[i].source is None || app.tabs[i].rows is None
                        ==> after.tabs[i].rows == app.tabs[i].rows
                }
        }),
{
}

/// One tab after another gives its selection to put back: each that has a source and
/// has loaded its rows gives its identifier and its selected row, the first where none
/// is selected.
pub proof fn selections_come_tab_by_tab(tabs: Seq<TabView>, tab: TabView)
    ensures
        remote_selections(Seq::empty()) == Seq::<(Seq<char>, usize)>::empty(),
        tab.source is Some && tab.rows is Some ==> remote_selections(tabs.push(tab))
            == remote_selections(tabs).push(
            (
                tab.id,
                if tab.selected is Some {
                    tab.selected.unwrap()
                } else {
                    0
                },
            ),
        ),
        tab.source is None || tab.rows is None ==> remote_selections(tabs.push(tab))
            == remote_selections(tabs),
{
    reveal(Seq::filter);
    assert(tabs.push(tab).drop_last() =~= tabs);
    assert(remote_selections(Seq::empty()) =~= Seq::<(Seq<char>, usize)>::empty());
}

/// A tab is found by its identifier wherever it stands: the source is that of the first
/// tab with the identifier, and without such a tab there is none.
pub proof fn tabs_are_found_in_any_place(tabs: Seq<TabView>, id: Seq<char>, i: int)
    requires
        0 <= i <= tabs.len(),
        forall|j: int| 0 <= j < i ==> (#[trigger] tabs[j]).id != id,
    ensures
        i < tabs.len() && tabs[i].id == id ==> source_of_tab(tabs, id) == tabs[i].source,
        i == tabs.len() ==> source_of_tab(tabs, id) is None,
    decreases i,
{
    if i > 0 {
        let rest = tabs.drop_first();
        assert(tabs[0].id != id);
        assert forall|j: int| 0 <= j < i - 1 implies (#[trigger] rest[j]).id != id by {
            assert(rest[j] == tabs[j + 1]);
        }
        tabs_are_found_in_any_place(rest, id, i - 1);
    }
}

/// The source that counts is that of the selected tab, wherever that tab stands.
pub proof fn the_selected_tab_is_found_in_any_place(app: AppView, i: int)
    requires
        0 <= i <= app.tabs.len(),
        forall|j: int| 0 <= j < i ==> (#[trigger] app.tabs[j]).id != app.current_tab_id,
    ensures
        i < app.tabs.len() && app.tabs[i].id == app.current_tab_id ==> app.current_source()
            == app.tabs[i].source,
        i == app.tabs.len() ==> app.current_source() is None,
{
    tabs_are_found_in_any_place(app.tabs, app.current_tab_id, i);
}

/// A session is selected exactly if the selected tab lists it, wherever that tab
/// stands.
pub proof fn a_session_is_selected_by_its_tab(app: AppView, key: KeyView, i: int)
    requires
        0 <= i <= app.tabs.len(),
        forall|j: int| 0 <= j < i ==> (#[trigger] app.tabs[j]).id != app.current_tab_id,
    ensures
        i < app.tabs.len() && app.tabs[i].id == app.current_tab_id ==> (app.is_selected(key) <==> {
            &&& app.tabs[i].source is Some
            &&& app.tabs[i].source.unwrap().target.destination == key.target.destination
            &&& app.tabs[i].source.unwrap().target.port == key.target.port
            &&& app.tabs[i].source.unwrap().cli is Some
            &&& app.tabs[i].source.unwrap().cli.unwrap() == key.cli
        }),
        i == app.tabs.len() ==> !app.is_selected(key),
{
    the_selected_tab_is_found_in_any_place(app, i);
    if i < app.tabs.len() {
        tabs_list_by_host_port_and_agent(app.tabs[i], key);
    }
}

/// A session that has its pane is brought to the front from the selected tab if that
/// tab lists it, whatever place the tab has among the others.
pub proof fn a_bound_session_is_focused_from_any_place(
    app: AppView,
    session: SessionView,
    commandline: Seq<char>,
    operation_id: u128,
    key: KeyView,
    i: int,
)
    requires
        app.well_formed(),
        key_of(session) == Some(key),
        0 <= i < app.tabs.len(),
        app.tabs[i].id == app.current_tab_id,
        forall|j: int| 0 <= j < i ==> (#[trigger] app.tabs[j]).id != app.current_tab_id,
        app.tabs[i].source is Some,
        app.tabs[i].source.unwrap().target.destination == key.target.destination,
        app.tabs[i].source.unwrap().target.port == key.target.port,
        app.tabs[i].source.unwrap().cli == Some(key.cli),
        app.resumes.bindings.contains_key(key),
        app.resumes.bindings[key].phase is Bound,
        app.event_loop,
    ensures
        ({
            let binding = app.resumes.bindings[key];
            let pane_id = binding.session.pane_session_id.unwrap();
            let step = StepView::FocusPane { key, operation_id: binding.operation_id, pane_id };
            &&& app.started(session, commandline, Ok(()), operation_id).1 == Ok::<
                StepView,
                ErrorView,
            >(step)
            &&& app.focused(session, pane_id, Ok(())).1 == step
        }),
{
    a_session_is_selected_by_its_tab(app, key, i);
}

/// Whether a pane may be brought to the front for a session, and the first reason
/// against it: the selected tab does not list the session, it is not recorded, its
/// record names no pane or another one, or there is no event loop or nothing to run
/// the request on.
pub proof fn a_pane_is_focused_unless_there_is_a_reason(
    app: AppView,
    key: KeyView,
    pane_id: Seq<char>,
    message: Seq<char>,
)
    ensures
        ({
            let selected = app.is_selected(key);
            let recorded = app.resumes.bindings.contains_key(key);
            let binding = app.resumes.bindings[key];
            let current = binding.phase is Bound && binding.session.pane_session_id == Some(
                pane_id,
            );
            let ready = app.focus_check(key, pane_id, Ok(()));
            let idle = app.focus_check(key, pane_id, Err(message));
            &&& !selected ==> ready == Err::<u128, ErrorView>(ErrorView::ForeignSource) && idle
                == ready
            &&& selected && !recorded ==> ready == Err::<u128, ErrorView>(ErrorView::NoBinding)
                && idle == ready
            &&& selected && recorded && !current ==> ready == Err::<u128, ErrorView>(
                ErrorView::StaleBinding,
            ) && idle == ready
            &&& selected && recorded && current && !app.event_loop ==> ready == Err::<
                u128,
                ErrorView,
            >(ErrorView::NoFocusLoop) && idle == ready
            &&& selected && recorded && current && app.event_loop ==> {
                &&& ready == Ok::<u128, ErrorView>(binding.operation_id)
                &&& idle == Err::<u128, ErrorView>((ErrorView::NoRuntime { message }))
            }
        }),
{
}

/// The wish to see a session in a pane: what may be shown is asked for and clears the
/// failure in the tabs that list the session; what may not is refused, and these tabs
/// show why. The records stay, and a local session is no matter of the helper's.
pub proof fn a_focus_is_asked_for_or_refused(
    app: AppView,
    session: SessionView,
    pane_id: Seq<char>,
    runtime: Result<(), Seq<char>>,
    key: KeyView,
)
    ensures
        ({
            let (after, step) = app.focused(session, pane_id, runtime);
            &&& !(session.location is Ssh) ==> after == app && step is Nothing
            &&& key_of(session) == Some(key) ==> {
                let check = app.focus_check(key, pane_id, runtime);
                &&& check is Ok ==> {
                    &&& step is FocusPane
                    &&& step->FocusPane_key == key
                    &&& step->FocusPane_operation_id == check->Ok_0
                    &&& step->pane_id == pane_id
                    &&& after == app.with_error(key, None)
                }
                &&& check is Err ==> {
                    &&& step is Refused
                    &&& step->error == check->Err_0.message()
                    &&& after == app.with_error(key, Some(check->Err_0.message()))
                }
            }
        }),
{
}

/// A new pane is wanted exactly for a remote session that is not recorded or is over,
/// while there is an event loop and something to run the request on.
pub proof fn a_pane_is_wanted_for_unrecorded_and_ended_sessions(
    app: AppView,
    session: SessionView,
    runtime: Result<(), Seq<char>>,
    key: KeyView,
)
    ensures
        !(session.location is Ssh) ==> !app.wants_pane(session, runtime),
        key_of(session) == Some(key) ==> (app.wants_pane(session, runtime) <==> {
            &&& !app.resumes.bindings.contains_key(key) || app.resumes.bindings[key].phase is Ended
            &&& app.event_loop
            &&& runtime is Ok
        }),
{
}

/// The wish to resume a session touches no record but that of the session, and no
/// closure, whatever comes of it. Of the tabs at most the failures change.
pub proof fn a_resume_touches_its_record_alone(
    app: AppView,
    session: SessionView,
    commandline: Seq<char>,
    runtime: Result<(), Seq<char>>,
    operation_id: u128,
    other: KeyView,
)
    requires
        key_of(session) != Some(other),
    ensures
        ({
            let after = app.started(session, commandline, runtime, operation_id).0;
            &&& after.resumes.bindings.contains_key(other)
                <==> app.resumes.bindings.contains_key(other)
            &&& after.resumes.bindings[other] == app.resumes.bindings[other]
            &&& after.resumes.closed == app.resumes.closed
            &&& after.current_tab_id == app.current_tab_id
            &&& after.event_loop == app.event_loop
            &&& after.tabs.len() == app.tabs.len()
            &&& forall|i: int|
                #![trigger after.tabs[i]]
                #![trigger app.tabs[i]]
                0 <= i < app.tabs.len() ==> {
                    &&& after.tabs[i].id == app.tabs[i].id
                    &&& after.tabs[i].source == app.tabs[i].source
                    &&& after.tabs[i].rows == app.tabs[i].rows
                    &&& after.tabs[i].selected == app.tabs[i].selected
                }
        }),
{
}

/// A resume that gets no new pane and no focus changes nothing: one of a local session,
/// one of a session that already waits, and one without an event loop or without
/// something to run the request on. Each but the second says why.
pub proof fn a_resume_without_a_request_changes_nothing(
    app: AppView,
    session: SessionView,
    commandline: Seq<char>,
    message: Seq<char>,
    operation_id: u128,
    key: KeyView,
)
    ensures
        !(session.location is Ssh) ==> {
            &&& app.started(session, commandline, Ok(()), operation_id) == (
                app,
                Err::<StepView, ErrorView>(ErrorView::NotRemote),
            )
            &&& app.started(session, commandline, Err(message), operation_id) == (
                app,
                Err::<StepView, ErrorView>(ErrorView::NotRemote),
            )
        },
        key_of(session) == Some(key) && app.resumes.bindings.contains_key(key)
            && app.resumes.bindings[key].phase is Launching ==> {
            &&& app.started(session, commandline, Ok(()), operation_id) == (
                app,
                Ok::<StepView, ErrorView>(StepView::Nothing),
            )
            &&& app.started(session, commandline, Err(message), operation_id) == (
                app,
                Ok::<StepView, ErrorView>(StepView::Nothing),
            )
        },
        key_of(session) == Some(key) && (!app.resumes.bindings.contains_key(key)
            || app.resumes.bindings[key].phase is Ended) ==> {
            &&& !app.event_loop ==> app.started(session, commandline, Ok(()), operation_id) == (
                app,
                Err::<StepView, ErrorView>(ErrorView::NoResumeLoop),
            )
            &&& !app.event_loop ==> app.started(session, commandline, Err(message), operation_id)
                == (app, Err::<StepView, ErrorView>(ErrorView::NoResumeLoop))
            &&& app.event_loop ==> app.started(session, commandline, Err(message), operation_id)
                == (app, Err::<StepView, ErrorView>((ErrorView::NoRuntime { message })))
        },
{
}

/// A session that is not recorded, or is over, gets a new tab: it is asked for under the
/// given identifier, runs the command line under the session's title, and the record
/// waits for it. The tabs that list the session show no failure any more.
pub proof fn an_unrecorded_or_ended_session_gets_a_new_tab(
    app: AppView,
    session: SessionView,
    commandline: Seq<char>,
    operation_id: u128,
    key: KeyView,
)
    requires
        key_of(session) == Some(key),
        !app.resumes.bindings.contains_key(key) || app.resumes.bindings[key].phase is Ended,
        app.event_loop,
    ensures
        ({
            let (after, step) = app.started(session, commandline, Ok(()), operation_id);
            &&& step is Ok
            &&& step->Ok_0 is CreateTab
            &&& step->Ok_0->CreateTab_key == key
            &&& step->Ok_0->CreateTab_operation_id == operation_id
            &&& step->Ok_0->commandline == commandline
            &&& step->Ok_0->title == session.title
            &&& after.resumes == app.resumes.launched(key, operation_id, session)
            &&& after.tabs == app.with_error(key, None).tabs
        }),
{
}

/// A session that has its pane is resumed by bringing that pane to the front, or by
/// showing why that cannot be; what the key press says of the session has no bearing
/// but for its identity.
pub proof fn a_bound_session_is_resumed_in_its_pane(
    app: AppView,
    session: SessionView,
    commandline: Seq<char>,
    runtime: Result<(), Seq<char>>,
    operation_id: u128,
    key: KeyView,
)
    requires
        app.well_formed(),
        key_of(session) == Some(key),
        app.resumes.bindings.contains_key(key),
        app.resumes.bindings[key].phase is Bound,
    ensures
        ({
            let pane_id = app.resumes.bindings[key].session.pane_session_id.unwrap();
            let (after, step) = app.started(session, commandline, runtime, operation_id);
            let (expected, wanted) = app.focused(session, pane_id, runtime);
            &&& after == expected
            &&& step == Ok::<StepView, ErrorView>(wanted)
        }),
{
}

/// A report that concerns its record is taken into the records; the tabs that list the
/// session, wherever they stand, show the failure it tells of, or none if it tells of
/// none; and all loaded remote tabs are brought up to date with the records as they
/// are then. Any other report changes nothing.
pub proof fn a_report_reaches_the_records_and_the_tabs(
    app: AppView,
    key: KeyView,
    operation_id: u128,
    outcome: OutcomeView,
    now: i128,
)
    ensures
        ({
            let after = app.completed(key, operation_id, outcome, now);
            &&& after.current_tab_id == app.current_tab_id
            &&& after.event_loop == app.event_loop
            &&& after.tabs.len() == app.tabs.len()
            &&& !app.resumes.accepts(key, operation_id, outcome) ==> after == app
            &&& app.resumes.accepts(key, operation_id, outcome) ==> after.resumes
                == app.resumes.settled(key, operation_id, outcome, now)
            &&& app.resumes.accepts(key, operation_id, outcome) ==> forall|i: int|
                #![trigger after.tabs[i]]
                #![trigger app.tabs[i]]
                0 <= i < app.tabs.len() ==> {
                    let before = app.tabs[i];
                    let tab = after.tabs[i];
                    &&& tab.id == before.id
                    &&& tab.source == before.source
                    &&& tab.selected == before.selected
                    &&& before.source is Some && before.rows is Some ==> tab.rows == Some(
                        after.resumes.merged_rows(before.rows.unwrap(), before.source.unwrap()),
                    )
                    &&& before.source is None || before.rows is None ==> tab.rows == before.rows
                    &&& !before.shows(key) ==> tab.error == before.error
                    &&& before.shows(key) ==> match outcome {
                        OutcomeView::Created(Ok(_)) => tab.error is None,
                        OutcomeView::Created(Err(message)) => tab.error == Some(message),
                        OutcomeView::FocusFailed { error, .. } => tab.error == Some(error),
                    }
                }
        }),
{
}

/// A pane that was made is no failure; every other report tells of the failure that it
/// was given.
pub proof fn a_report_tells_of_a_failure_or_of_none(message: Seq<char>, pane_id: Seq<char>)
    ensures
        OutcomeView::Created(Ok(pane_id)).failure() is None,
        OutcomeView::Created(Err(message)).failure() == Some(message),
        (OutcomeView::FocusFailed { pane_id, error: message }).failure() == Some(message),
{
}

/// The closure of a pane, under whatever spelling it is told, is taken into the records
/// under the canonical name of the pane, and all loaded remote tabs are brought up to
/// date if a record named the pane. Nothing else changes.
pub proof fn a_closure_reaches_the_records_and_the_tabs(app: AppView, text: Seq<char>, id: u128)
    requires
        spells_guid(text, id),
    ensures
        ({
            let pane_id = guid_text(id);
            let after = app.pane_closed(text);
            let named = exists|k: KeyView|
                #![trigger app.resumes.bindings[k]]
                app.resumes.bindings.contains_key(k)
                    && app.resumes.bindings[k].session.pane_session_id == Some(pane_id);
            &&& after.resumes == app.resumes.pane_closed(pane_id)
            &&& after.current_tab_id == app.current_tab_id
            &&& after.event_loop == app.event_loop
            &&& !named ==> after.tabs == app.tabs
            &&& named ==> after.tabs.len() == app.tabs.len() && forall|i: int|
                #![trigger after.tabs[i]]
                #![trigger app.tabs[i]]
                0 <= i < app.tabs.len() ==> {
                    &&& after.tabs[i].id == app.tabs[i].id
                    &&& after.tabs[i].source == app.tabs[i].source
                    &&& after.tabs[i].error == app.tabs[i].error
                    &&& after.tabs[i].selected == app.tabs[i].selected
                    &&& app.tabs[i].source is Some && app.tabs[i].rows is Some
                        ==> after.tabs[i].rows == Some(
                        after.resumes.merged_rows(
                            app.tabs[i].rows.unwrap(),
                            app.tabs[i].source.unwrap(),
                        ),
                    )
                    &&& app.tabs[i].source is None || app.tabs[i].rows is None
                        ==> after.tabs[i].rows == app.tabs[i].rows
                }
        }),
{
    every_pane_but_the_empty_one_is_taken(text, id);
    panes_are_shown_by_the_records_that_name_them(app.resumes, guid_text(id));
}

/// What names no pane closes none.
pub proof fn what_names_no_pane_closes_none(app: AppView, text: Seq<char>)
    requires
        forall|id: u128| !spells_guid(text, id),
    ensures
        app.pane_closed(text) == app,
{
    other_answers_are_failures(text, text);
}

} // verus!
