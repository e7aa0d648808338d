//! What holds of the resumption of remote sessions as a whole.

use crate::app::AppView;
use crate::binding::{reports_missing_pane, OutcomeView, ResumePhase};
use crate::guid::{guid_of, guid_text, pane_created, pane_named};
use crate::key::{key_of, KeyView, SourceView};
use crate::model::{is_first_of_its_key, lists, ResumesView};
use crate::requests::{ErrorView, StepView};
use crate::session::{AgentStatus, LocationView, SessionView};
use crate::tabs::TabView;
use vstd::prelude::*;

pub mod helper;
pub mod records;
pub mod rows;
pub mod values;

verus! {

/// A session that is not on a remote machine is never recorded: nothing changes on
/// the wish to resume it or to see it in a pane.
pub proof fn local_sessions_stay_out(
    app: AppView,
    session: SessionView,
    commandline: Seq<char>,
    pane_id: Seq<char>,
    runtime: Result<(), Seq<char>>,
    operation_id: u128,
)
    requires
        app.well_formed(),
        !(session.location is Ssh),
    ensures
        app.started(session, commandline, runtime, operation_id) == (
            app,
            Err::<StepView, ErrorView>(ErrorView::NotRemote),
        ),
        app.focused(session, pane_id, runtime) == (app, StepView::Nothing),
{
}

/// Every recorded session is on a remote machine and recorded under its own identity.
pub proof fn recorded_sessions_are_remote(resumes: ResumesView, key: KeyView)
    requires
        resumes.well_formed(),
        resumes.bindings.contains_key(key),
    ensures
        resumes.bindings[key].session.location == (LocationView::Ssh { target: key.target }),
        resumes.bindings[key].session.cli_source == key.cli,
        resumes.bindings[key].session.key == key.session_id,
{
}

/// Two remote sessions are the same exactly if host, port, agent and session
/// identifier all agree.
pub proof fn identity_is_machine_agent_and_session(a: SessionView, b: SessionView)
    requires
        a.location is Ssh,
        b.location is Ssh,
    ensures
        key_of(a) == key_of(b) <==> {
            &&& a.location->target.destination == b.location->target.destination
            &&& a.location->target.port == b.location->target.port
            &&& a.cli_source == b.cli_source
            &&& a.key == b.key
        },
{
    if a.location->target.destination == b.location->target.destination
        && a.location->target.port == b.location->target.port {
        assert(a.location->target == b.location->target);
    }
}

/// The identifier of the request has a bearing on the outcome only where a request
/// is made, and one is made exactly where a new pane is wanted.
pub proof fn identifiers_are_for_requests(
    app: AppView,
    session: SessionView,
    commandline: Seq<char>,
    runtime: Result<(), Seq<char>>,
    a: u128,
    b: u128,
)
    requires
        app.well_formed(),
    ensures
        !app.wants_pane(session, runtime) ==> app.started(session, commandline, runtime, a)
            == app.started(session, commandline, runtime, b),
        app.wants_pane(session, runtime) <==> app.started(session, commandline, runtime, a).1
            matches Ok(StepView::CreateTab { .. }),
{
}

/// Once a pane was asked for, the session waits, and asking again does nothing until
/// there is an answer.
pub proof fn a_waiting_session_is_left_to_wait(
    app: AppView,
    session: SessionView,
    commandline: Seq<char>,
    runtime: Result<(), Seq<char>>,
    operation_id: u128,
    again: SessionView,
    other_commandline: Seq<char>,
    other_runtime: Result<(), Seq<char>>,
    other_id: u128,
)
    requires
        app.well_formed(),
        app.wants_pane(session, runtime),
        key_of(again) == key_of(session),
    ensures
        ({
            let after = app.started(session, commandline, runtime, operation_id).0;
            &&& after.resumes.is_launching(key_of(session).unwrap())
            &&& after.started(again, other_commandline, other_runtime, other_id) == (
                after,
                Ok::<StepView, ErrorView>(StepView::Nothing),
            )
        }),
{
}

/// The tab that is asked for runs the given command line under the title of the
/// session, and the answer to the request is the answer to this very record.
pub proof fn a_new_tab_runs_the_command_line(
    app: AppView,
    session: SessionView,
    commandline: Seq<char>,
    runtime: Result<(), Seq<char>>,
    operation_id: u128,
    reply: Result<Seq<char>, Seq<char>>,
)
    requires
        app.well_formed(),
        app.wants_pane(session, runtime),
    ensures
        ({
            let key = key_of(session).unwrap();
            let (after, step) = app.started(session, commandline, runtime, operation_id);
            &&& step == Ok::<StepView, ErrorView>(
                StepView::CreateTab { key, operation_id, commandline, title: session.title },
            )
            &&& after.resumes.accepts(key, operation_id, OutcomeView::Created(reply))
        }),
{
}

/// A session that has its pane is shown in that pane, and no second pane is asked for.
pub proof fn a_bound_session_is_shown_in_its_pane(
    app: AppView,
    session: SessionView,
    commandline: Seq<char>,
    operation_id: u128,
    key: KeyView,
)
    requires
        app.well_formed(),
        key_of(session) == Some(key),
        app.resumes.bindings.contains_key(key),
        app.resumes.bindings[key].phase == ResumePhase::Bound,
        app.is_selected(key),
        app.event_loop,
    ensures
        app.started(session, commandline, Ok(()), operation_id) == (
            app.with_error(key, None),
            Ok::<StepView, ErrorView>(
                StepView::FocusPane {
                    key,
                    operation_id: app.resumes.bindings[key].operation_id,
                    pane_id: app.resumes.bindings[key].session.pane_session_id.unwrap(),
                },
            ),
        ),
{
}

/// The only pane that is ever brought to the front is the one that shows the session,
/// and only from a tab that lists the session. The records stay as they are.
pub proof fn only_the_bound_pane_is_focused(
    app: AppView,
    session: SessionView,
    pane_id: Seq<char>,
    runtime: Result<(), Seq<char>>,
)
    requires
        app.well_formed(),
    ensures
        app.focused(session, pane_id, runtime).0.resumes == app.resumes,
        app.focused(session, pane_id, runtime).1 matches StepView::FocusPane {
            key,
            operation_id,
            pane_id: focused,
        } ==> {
            &&& focused == pane_id
            &&& key_of(session) == Some(key)
            &&& app.is_selected(key)
            &&& app.resumes.bindings.contains_key(key)
            &&& app.resumes.bindings[key].phase == ResumePhase::Bound
            &&& app.resumes.bindings[key].session.pane_session_id == Some(pane_id)
            &&& app.resumes.bindings[key].operation_id == operation_id
        },
{
}

/// A pane that comes of a request is named in canonical spelling and is not the one
/// of all zeros; any other answer of the terminal is a failure.
pub proof fn created_panes_are_canonical(reply: Result<Seq<char>, Seq<char>>)
    ensures
        pane_created(reply) matches Ok(pane_id) ==> {
            &&& reply is Ok
            &&& guid_of(reply->Ok_0) is Some
            &&& guid_of(reply->Ok_0) != Some(0u128)
            &&& pane_id == guid_text(guid_of(reply->Ok_0).unwrap())
            &&& pane_named(reply->Ok_0) == Some(pane_id)
        },
        reply matches Ok(text) ==> (guid_of(text) is None || guid_of(text) == Some(0u128)
            ==> pane_created(reply) is Err),
        reply is Err ==> pane_created(reply) == reply,
{
}

/// A failed request leaves no record behind: the session does not wait any more, the
/// tabs that list it show the failure, its rows stay as they were, and it can be
/// resumed anew.
pub proof fn a_failed_request_can_be_repeated(
    app: AppView,
    session: SessionView,
    commandline: Seq<char>,
    key: KeyView,
    operation_id: u128,
    message: Seq<char>,
    now: i128,
)
    requires
        app.well_formed(),
        key_of(session) == Some(key),
        app.event_loop,
        app.resumes.accepts(key, operation_id, OutcomeView::Created(Err(message))),
    ensures
        ({
            let after = app.completed(key, operation_id, OutcomeView::Created(Err(message)), now);
            &&& !after.resumes.bindings.contains_key(key)
            &&& after.wants_pane(session, Ok(()))
            &&& forall|i: int|
                0 <= i < app.tabs.len() && app.tabs[i].shows(key) ==> (
                #[trigger] after.tabs[i]).error == Some(message)
            &&& forall|i: int, j: int|
                0 <= i < app.tabs.len() && app.tabs[i].lists_remote() && 0 <= j
                    < app.tabs[i].rows.unwrap().len() && key_of(app.tabs[i].rows.unwrap()[j])
                    == Some(key) ==> (#[trigger] after.tabs[i].rows.unwrap()[j])
                    == app.tabs[i].rows.unwrap()[j]
        }),
{
    let outcome = OutcomeView::Created(Err(message));
    let after = app.completed(key, operation_id, outcome, now);
    lemma_without_binding(app.resumes, key);
    assert forall|i: int, j: int|
        0 <= i < app.tabs.len() && app.tabs[i].lists_remote() && 0 <= j
            < app.tabs[i].rows.unwrap().len() && key_of(app.tabs[i].rows.unwrap()[j]) == Some(
            key,
        ) implies (#[trigger] after.tabs[i].rows.unwrap()[j]) == app.tabs[i].rows.unwrap()[j] by {
        assert(!after.resumes.keys.contains(key));
    }
}

/// What is left of the identities once a record is removed.
proof fn lemma_without_binding(resumes: ResumesView, key: KeyView)
    requires
        resumes.well_formed(),
        resumes.bindings.contains_key(key),
    ensures
        forall|k: KeyView|
            resumes.without_binding(key).keys.contains(k) <==> resumes.keys.contains(k) && k != key,
        resumes.without_binding(key).keys == resumes.keys.remove(resumes.keys.index_of(key)),
{
    let keys = resumes.keys;
    let after = resumes.without_binding(key).keys;
    let at = keys.index_of(key);
    assert(keys.contains(key));
    keys.index_of_first_ensures(key);
    assert(keys[at] == key);
    assert(keys.index_of_first(key) == Some(at));
    assert(after == keys.remove(at));
    assert forall|k: KeyView| after.contains(k) <==> keys.contains(k) && k != key by {
        if after.contains(k) {
            let i = after.index_of(k);
            let moved = if i < at {
                i
            } else {
                i + 1
            };
            assert(keys[moved] == k);
        }
        if keys.contains(k) && k != key {
            let i = keys.index_of(k);
            let moved = if i < at {
                i
            } else {
                i - 1
            };
            assert(after[moved] == k);
        }
    }
}

/// A report that answers another request than the one that the record follows
/// changes nothing.
pub proof fn stale_reports_change_nothing(
    app: AppView,
    key: KeyView,
    operation_id: u128,
    outcome: OutcomeView,
    now: i128,
)
    requires
        app.well_formed(),
        app.resumes.bindings.contains_key(key) ==> app.resumes.bindings[key].operation_id
            != operation_id,
    ensures
        app.completed(key, operation_id, outcome, now) == app,
{
}

/// Once a session is resumed anew, no report on an earlier request touches it.
pub proof fn old_requests_cannot_touch_a_new_record(
    app: AppView,
    session: SessionView,
    commandline: Seq<char>,
    runtime: Result<(), Seq<char>>,
    operation_id: u128,
    old_id: u128,
    outcome: OutcomeView,
    now: i128,
)
    requires
        app.well_formed(),
        app.wants_pane(session, runtime),
        old_id != operation_id,
    ensures
        ({
            let after = app.started(session, commandline, runtime, operation_id).0;
            after.completed(key_of(session).unwrap(), old_id, outcome, now) == after
        }),
{
}

/// A request is answered once: after its answer the session does not wait any more,
/// and another answer to it changes nothing.
pub proof fn a_request_is_answered_once(
    app: AppView,
    key: KeyView,
    operation_id: u128,
    reply: Result<Seq<char>, Seq<char>>,
    now: i128,
    second: Result<Seq<char>, Seq<char>>,
    later: i128,
)
    requires
        app.well_formed(),
        app.resumes.accepts(key, operation_id, OutcomeView::Created(reply)),
    ensures
        ({
            let after = app.completed(key, operation_id, OutcomeView::Created(reply), now);
            &&& !after.resumes.is_launching(key)
            &&& after.completed(key, operation_id, OutcomeView::Created(second), later) == after
        }),
{
}

/// A session becomes idle in the pane that was made for it, as of now, and the tabs
/// that list it show no failure.
pub proof fn an_answered_session_is_idle_in_its_pane(
    app: AppView,
    key: KeyView,
    operation_id: u128,
    pane_id: Seq<char>,
    now: i128,
)
    requires
        app.well_formed(),
        app.resumes.accepts(key, operation_id, OutcomeView::Created(Ok(pane_id))),
        !app.resumes.closed.contains(pane_id),
    ensures
        ({
            let after = app.completed(key, operation_id, OutcomeView::Created(Ok(pane_id)), now);
            let binding = after.resumes.bindings[key];
            &&& after.resumes.bindings.contains_key(key)
            &&& binding.phase == ResumePhase::Bound
            &&& binding.session.status == AgentStatus::Idle
            &&& binding.session.pane_session_id == Some(pane_id)
            &&& binding.session.last_activity_at == now
            &&& binding.session.origin == app.resumes.bindings[key].session.origin
            &&& binding.operation_id == operation_id
            &&& forall|i: int|
                0 <= i < app.tabs.len() && app.tabs[i].shows(key) ==> (
                #[trigger] after.tabs[i]).error is None
        }),
{
}

/// The closure of a pane ends the sessions that the pane shows, and no other.
pub proof fn a_closure_ends_the_sessions_of_its_pane(
    resumes: ResumesView,
    pane_id: Seq<char>,
    key: KeyView,
)
    requires
        resumes.well_formed(),
        resumes.bindings.contains_key(key),
    ensures
        resumes.pane_closed(pane_id).bindings.contains_key(key),
        resumes.bindings[key].session.pane_session_id == Some(pane_id) ==> {
            let after = resumes.pane_closed(pane_id).bindings[key];
            &&& after.phase == ResumePhase::Ended
            &&& after.session.status == AgentStatus::Ended
            &&& after.session.pane_session_id is None
        },
        resumes.bindings[key].session.pane_session_id != Some(pane_id) ==> resumes.pane_closed(
            pane_id,
        ).bindings[key] == resumes.bindings[key],
{
}

/// Two spellings of one pane tell of the same closure.
pub proof fn spellings_of_a_pane_act_alike(app: AppView, a: Seq<char>, b: Seq<char>)
    requires
        app.well_formed(),
        pane_named(a) == pane_named(b),
    ensures
        app.pane_closed(a) == app.pane_closed(b),
{
}

/// A pane that closes twice is the same as a pane that closes once.
pub proof fn closing_a_pane_twice_changes_nothing(resumes: ResumesView, pane_id: Seq<char>)
    requires
        resumes.well_formed(),
    ensures
        resumes.pane_closed(pane_id).pane_closed(pane_id) == resumes.pane_closed(pane_id),
{
    let once = resumes.pane_closed(pane_id);
    let twice = once.pane_closed(pane_id);
    assert(twice.bindings =~= once.bindings);
    if once.any_launching() {
        let waiting = choose|waiting: KeyView| once.is_launching(waiting);
        assert(resumes.is_launching(waiting));
    }
    assert(twice.closed =~= once.closed);
}

/// A session whose pane is gone can be resumed anew.
pub proof fn an_ended_session_can_be_resumed(app: AppView, session: SessionView, key: KeyView)
    requires
        app.well_formed(),
        key_of(session) == Some(key),
        app.resumes.bindings.contains_key(key),
        app.resumes.bindings[key].phase == ResumePhase::Ended,
        app.event_loop,
    ensures
        app.wants_pane(session, Ok(())),
{
}

/// A pane that closed, under any spelling of its name, before the answer to the
/// request for it came does not come back with the answer: the session is over.
pub proof fn a_dead_pane_is_not_resurrected(
    app: AppView,
    key: KeyView,
    operation_id: u128,
    closed: Seq<char>,
    reply: Seq<char>,
    now: i128,
)
    requires
        app.well_formed(),
        app.resumes.is_launching(key),
        app.resumes.bindings[key].operation_id == operation_id,
        pane_created(Ok(reply)) is Ok,
        pane_named(closed) == pane_named(reply),
    ensures
        ({
            let outcome = OutcomeView::Created(pane_created(Ok(reply)));
            let after = app.pane_closed(closed).completed(key, operation_id, outcome, now);
            &&& after.resumes.bindings.contains_key(key)
            &&& after.resumes.bindings[key].phase == ResumePhase::Ended
            &&& after.resumes.bindings[key].session.status == AgentStatus::Ended
            &&& after.resumes.bindings[key].session.pane_session_id is None
        }),
{
    let pane_id = pane_named(closed).unwrap();
    assert(app.resumes.any_launching());
    assert(app.pane_closed(closed).resumes.closed.contains(pane_id));
}

/// Whatever else happens, the closure of a pane is remembered as long as some
/// session waits for its pane.
pub proof fn closures_are_remembered_while_a_session_waits(
    resumes: ResumesView,
    pane_id: Seq<char>,
    waiting: KeyView,
    key: KeyView,
    operation_id: u128,
    session: SessionView,
    outcome: OutcomeView,
    now: i128,
    other_pane: Seq<char>,
)
    requires
        resumes.well_formed(),
        resumes.closed.contains(pane_id),
    ensures
        resumes.launched(key, operation_id, session).closed.contains(pane_id),
        resumes.settled(key, operation_id, outcome, now).is_launching(waiting) ==> resumes.settled(
            key,
            operation_id,
            outcome,
            now,
        ).closed.contains(pane_id),
        resumes.pane_closed(other_pane).closed.contains(pane_id),
{
    if resumes.accepts(key, operation_id, outcome) && resumes.settled(
        key,
        operation_id,
        outcome,
        now,
    ).is_launching(waiting) {
        let binding = resumes.bindings[key];
        match outcome {
            OutcomeView::Created(Ok(pane)) => {
                if resumes.closed.contains(pane) {
                    lemma_closures_stay(resumes.with_binding(key, binding.ended()), waiting);
                } else {
                    lemma_closures_stay(
                        resumes.with_binding(key, binding.bound(pane, now)),
                        waiting,
                    );
                }
            },
            OutcomeView::Created(Err(_)) => {
                lemma_closures_stay(resumes.without_binding(key), waiting);
            },
            OutcomeView::FocusFailed { error, .. } => {
                if reports_missing_pane(error) {
                    lemma_closures_stay(resumes.with_binding(key, binding.ended()), waiting);
                } else {
                    lemma_closures_stay(resumes, waiting);
                }
            },
        }
    }
}

/// No closure is forgotten while some session waits for its pane.
proof fn lemma_closures_stay(resumes: ResumesView, waiting: KeyView)
    requires
        resumes.pruned().is_launching(waiting),
    ensures
        resumes.pruned() == resumes,
{
    assert(resumes.is_launching(waiting));
}

/// Closures are kept only while some session waits for its pane.
pub open spec fn closures_are_of_use(resumes: ResumesView) -> bool {
    resumes.closed != Set::<Seq<char>>::empty() ==> resumes.any_launching()
}

/// Closures are kept only while some session waits for its pane: that holds at
/// first, and no event changes it, unless it closes a pane that every waiting
/// session already names.
pub proof fn closures_are_kept_only_while_a_session_waits(
    resumes: ResumesView,
    key: KeyView,
    operation_id: u128,
    session: SessionView,
    outcome: OutcomeView,
    now: i128,
    pane_id: Seq<char>,
)
    requires
        resumes.well_formed(),
        closures_are_of_use(resumes),
    ensures
        closures_are_of_use(ResumesView::none()),
        closures_are_of_use(resumes.launched(key, operation_id, session)),
        closures_are_of_use(resumes.settled(key, operation_id, outcome, now)),
        (resumes.any_launching() ==> exists|waiting: KeyView| #[trigger]
            resumes.is_launching(waiting) && resumes.bindings[waiting].session.pane_session_id
                != Some(pane_id)) ==> closures_are_of_use(resumes.pane_closed(pane_id)),
{
    assert(resumes.launched(key, operation_id, session).is_launching(key));
    let closed = resumes.pane_closed(pane_id);
    if exists|waiting: KeyView| #[trigger]
        resumes.is_launching(waiting) && resumes.bindings[waiting].session.pane_session_id != Some(
            pane_id,
        ) {
        let waiting = choose|waiting: KeyView| #[trigger]
            resumes.is_launching(waiting) && resumes.bindings[waiting].session.pane_session_id
                != Some(pane_id);
        assert(closed.is_launching(waiting));
    }
}

/// A failure to bring a pane to the front says nothing about the pane, unless it says
/// that there is no such pane: then the session is over. Either way the tabs that
/// list the session show the failure.
pub proof fn only_a_missing_pane_ends_a_session(
    app: AppView,
    key: KeyView,
    operation_id: u128,
    pane_id: Seq<char>,
    error: Seq<char>,
    now: i128,
)
    requires
        app.well_formed(),
        app.resumes.accepts(key, operation_id, (OutcomeView::FocusFailed { pane_id, error })),
    ensures
        ({
            let outcome = OutcomeView::FocusFailed { pane_id, error };
            let after = app.completed(key, operation_id, outcome, now);
            &&& !reports_missing_pane(error) ==> after.resumes.bindings == app.resumes.bindings
            &&& reports_missing_pane(error) ==> after.resumes.bindings
                == app.resumes.bindings.insert(key, app.resumes.bindings[key].ended())
            &&& after.resumes.keys == app.resumes.keys
            &&& forall|i: int|
                0 <= i < app.tabs.len() && app.tabs[i].shows(key) ==> (
                #[trigger] after.tabs[i]).error == Some(error)
        }),
{
}

/// The records do not depend on the tabs: they are the same however tabs are
/// renamed, opened or closed.
pub proof fn records_do_not_depend_on_tabs(
    a: AppView,
    b: AppView,
    key: KeyView,
    operation_id: u128,
    outcome: OutcomeView,
    now: i128,
    text: Seq<char>,
)
    requires
        a.well_formed(),
        a.resumes == b.resumes,
    ensures
        a.completed(key, operation_id, outcome, now).resumes == b.completed(
            key,
            operation_id,
            outcome,
            now,
        ).resumes,
        a.pane_closed(text).resumes == b.pane_closed(text).resumes,
        a.refreshed().resumes == a.resumes,
{
}

/// Bringing a list up to date leaves its rows in place, and of a row changes at most
/// the status, the pane and the time of the last activity, which never goes back.
/// Rows are added below.
pub proof fn rows_stay_in_place(
    resumes: ResumesView,
    rows: Seq<SessionView>,
    source: SourceView,
    i: int,
)
    requires
        resumes.well_formed(),
        0 <= i < rows.len(),
    ensures
        ({
            let merged = resumes.merged_rows(rows, source);
            &&& merged.len() >= rows.len()
            &&& merged[i] == SessionView {
                status: merged[i].status,
                pane_session_id: merged[i].pane_session_id,
                last_activity_at: merged[i].last_activity_at,
                ..rows[i]
            }
            &&& merged[i].last_activity_at >= rows[i].last_activity_at
            &&& key_of(merged[i]) == key_of(rows[i])
        }),
{
}

/// The rows of a session that waits for its pane are shown as they are.
pub proof fn a_waiting_session_is_shown_as_it_was(
    resumes: ResumesView,
    rows: Seq<SessionView>,
    source: SourceView,
    key: KeyView,
    i: int,
)
    requires
        resumes.well_formed(),
        resumes.is_launching(key),
        0 <= i < rows.len(),
        key_of(rows[i]) == Some(key),
    ensures
        resumes.merged_rows(rows, source)[i] == rows[i],
{
}

/// The identities of the rows of a merged list.
pub(crate) proof fn lemma_merged_keys(resumes: ResumesView, rows: Seq<SessionView>, source: SourceView)
    requires
        resumes.well_formed(),
    ensures
        resumes.merged_rows(rows, source).len() >= rows.len(),
        forall|i: int|
            0 <= i < rows.len() ==> key_of(#[trigger] resumes.merged_rows(rows, source)[i])
                == key_of(rows[i]),
        forall|i: int|
            rows.len() <= i < resumes.merged_rows(rows, source).len() ==> {
                let row = #[trigger] resumes.merged_rows(rows, source)[i];
                &&& key_of(row) is Some
                &&& resumes.bindings.contains_key(key_of(row).unwrap())
                &&& resumes.is_missing(rows, source, key_of(row).unwrap())
                &&& row == resumes.bindings[key_of(row).unwrap()].session
            },
        forall|key: KeyView|
            #![trigger resumes.is_missing(rows, source, key)]
            resumes.bindings.contains_key(key) && resumes.is_missing(rows, source, key) ==> exists|
                i: int,
            |
                rows.len() <= i < resumes.merged_rows(rows, source).len()
                    && #[trigger] resumes.merged_rows(rows, source)[i]
                    == resumes.bindings[key].session,
{
    let merged = resumes.merged_rows(rows, source);
    let wanted = resumes.missing_from(rows, source);
    let added = resumes.keys.filter(wanted);
    assert forall|i: int| rows.len() <= i < merged.len() implies {
        let row = #[trigger] merged[i];
        &&& key_of(row) is Some
        &&& resumes.bindings.contains_key(key_of(row).unwrap())
        &&& resumes.is_missing(rows, source, key_of(row).unwrap())
        &&& row == resumes.bindings[key_of(row).unwrap()].session
    } by {
        let key = added[i - rows.len()];
        assert(added.contains(key));
        resumes.keys.lemma_filter_contains_rev(wanted, key);
        resumes.keys.lemma_filter_pred(wanted, i - rows.len());
        assert(resumes.bindings.contains_key(key));
        assert(merged[i] == resumes.bindings[key].session);
    }
    assert forall|key: KeyView|
        #![trigger resumes.is_missing(rows, source, key)]
        resumes.bindings.contains_key(key) && resumes.is_missing(
            rows,
            source,
            key,
        ) implies exists|i: int|
        rows.len() <= i < merged.len() && #[trigger] merged[i] == resumes.bindings[key].session by {
        assert(resumes.keys.contains(key));
        let at = resumes.keys.index_of(key);
        resumes.keys.lemma_filter_contains(wanted, at);
        let j = added.index_of(key);
        assert(added[j] == key);
        assert(merged[rows.len() + j] == resumes.bindings[key].session);
    }
}

/// A session that has its pane is in every list of its source, idle in that pane,
/// even where the agent's history leaves it out.
pub proof fn a_bound_session_stays_in_view(
    resumes: ResumesView,
    rows: Seq<SessionView>,
    source: SourceView,
    key: KeyView,
)
    requires
        resumes.well_formed(),
        resumes.bindings.contains_key(key),
        resumes.bindings[key].phase == ResumePhase::Bound,
        key.listed_by(source),
    ensures
        exists|i: int|
            #![trigger resumes.merged_rows(rows, source)[i]]
            {
                let merged = resumes.merged_rows(rows, source);
                &&& 0 <= i < merged.len()
                &&& key_of(merged[i]) == Some(key)
                &&& is_first_of_its_key(merged, i)
                &&& merged[i].status == AgentStatus::Idle
                &&& merged[i].pane_session_id == resumes.bindings[key].session.pane_session_id
            },
{
    let merged = resumes.merged_rows(rows, source);
    lemma_merged_keys(resumes, rows, source);
    assert(resumes.keys.contains(key));
    if lists(rows, key) {
        let some = choose|i: int| 0 <= i < rows.len() && key_of(#[trigger] rows[i]) == Some(key);
        let first = lemma_first_of_its_key(rows, some);
        assert(is_first_of_its_key(merged, first)) by {
            assert forall|j: int| 0 <= j < first implies key_of(#[trigger] merged[j]) != key_of(
                merged[first],
            ) by {
                assert(key_of(rows[j]) != key_of(rows[first]));
            }
        }
        assert(key_of(merged[first]) == Some(key));
    } else {
        assert(resumes.is_missing(rows, source, key));
        let some = choose|i: int|
            rows.len() <= i < merged.len() && #[trigger] merged[i] == resumes.bindings[key].session;
        let first = lemma_first_of_its_key(merged, some);
        assert(key_of(merged[first]) == Some(key));
        assert(first >= rows.len()) by {
            if first < rows.len() {
                assert(key_of(rows[first]) == Some(key));
            }
        }
    }
}

/// Where a list shows a session, there is a first row that does.
proof fn lemma_first_of_its_key(rows: Seq<SessionView>, i: int) -> (first: int)
    requires
        0 <= i < rows.len(),
    ensures
        0 <= first <= i,
        key_of(rows[first]) == key_of(rows[i]),
        is_first_of_its_key(rows, first),
    decreases i,
{
    if is_first_of_its_key(rows, i) {
        i
    } else {
        let earlier = choose|j: int| 0 <= j < i && key_of(#[trigger] rows[j]) == key_of(rows[i]);
        lemma_first_of_its_key(rows, earlier)
    }
}

/// A session that is over is not added to a list that leaves it out.
pub proof fn an_ended_session_is_not_added(
    resumes: ResumesView,
    rows: Seq<SessionView>,
    source: SourceView,
    key: KeyView,
)
    requires
        resumes.well_formed(),
        resumes.bindings.contains_key(key),
        resumes.bindings[key].phase == ResumePhase::Ended,
        !lists(rows, key),
    ensures
        !lists(resumes.merged_rows(rows, source), key),
{
    let merged = resumes.merged_rows(rows, source);
    lemma_merged_keys(resumes, rows, source);
    if lists(merged, key) {
        let i = choose|i: int| 0 <= i < merged.len() && key_of(#[trigger] merged[i]) == Some(key);
        if i < rows.len() {
            assert(key_of(rows[i]) == Some(key));
        }
    }
}

/// A session that is over is shown as ended, without a pane, in the first row that
/// lists it.
pub proof fn an_ended_session_is_shown_as_ended(
    resumes: ResumesView,
    rows: Seq<SessionView>,
    source: SourceView,
    key: KeyView,
    i: int,
)
    requires
        resumes.well_formed(),
        resumes.bindings.contains_key(key),
        resumes.bindings[key].phase == ResumePhase::Ended,
        key.listed_by(source),
        0 <= i < rows.len(),
        key_of(rows[i]) == Some(key),
        is_first_of_its_key(rows, i),
    ensures
        resumes.merged_rows(rows, source)[i].status == AgentStatus::Ended,
        resumes.merged_rows(rows, source)[i].pane_session_id is None,
{
    assert(resumes.keys.contains(key));
}

/// Bringing a list up to date twice is the same as doing it once.
pub proof fn merging_twice_changes_nothing(
    resumes: ResumesView,
    rows: Seq<SessionView>,
    source: SourceView,
)
    requires
        resumes.well_formed(),
    ensures
        resumes.merged_rows(resumes.merged_rows(rows, source), source) == resumes.merged_rows(
            rows,
            source,
        ),
{
    let once = resumes.merged_rows(rows, source);
    let twice = resumes.merged_rows(once, source);
    let wanted = resumes.missing_from(once, source);
    lemma_merged_keys(resumes, rows, source);
    assert forall|i: int| 0 <= i < resumes.keys.len() implies !wanted(
        #[trigger] resumes.keys[i],
    ) by {
        let key = resumes.keys[i];
        assert(resumes.keys.contains(key));
        assert(resumes.bindings.contains_key(key));
        if key.listed_by(source) && resumes.bindings[key].phase != ResumePhase::Ended {
            if lists(rows, key) {
                let j = choose|j: int| 0 <= j < rows.len() && key_of(#[trigger] rows[j]) == Some(key);
                assert(key_of(once[j]) == Some(key));
            } else {
                assert(resumes.is_missing(rows, source, key));
                let j = choose|j: int|
                    rows.len() <= j < once.len() && #[trigger] once[j]
                        == resumes.bindings[key].session;
                assert(key_of(once[j]) == Some(key));
            }
            assert(lists(once, key));
        }
    }
    assert(resumes.keys.filter(wanted).len() == 0) by {
        resumes.keys.lemma_all_neg_filter_empty(wanted);
    }
    assert(twice.len() == once.len());
    assert forall|i: int| 0 <= i < once.len() implies #[trigger] twice[i] == once[i] by {
        if i < rows.len() {
            assert(is_first_of_its_key(once, i) ==> is_first_of_its_key(rows, i)) by {
                if is_first_of_its_key(once, i) {
                    assert forall|j: int| 0 <= j < i implies key_of(#[trigger] rows[j]) != key_of(
                        rows[i],
                    ) by {
                        assert(key_of(once[j]) != key_of(once[i]));
                    }
                }
            }
        }
    }
    assert(twice =~= once);
}

/// Two tables that agree on the sessions of a source agree on its lists.
proof fn lemma_merge_depends_on_source(
    a: ResumesView,
    b: ResumesView,
    rows: Seq<SessionView>,
    source: SourceView,
)
    requires
        forall|key: KeyView|
            #![trigger a.keys.contains(key)]
            #![trigger b.keys.contains(key)]
            key.listed_by(source) ==> (a.keys.contains(key) <==> b.keys.contains(key)),
        forall|key: KeyView|
            key.listed_by(source) && a.keys.contains(key) ==> #[trigger] a.bindings[key]
                == b.bindings[key],
        a.keys.filter(|key: KeyView| key.listed_by(source)) == b.keys.filter(
            |key: KeyView| key.listed_by(source),
        ),
    ensures
        a.merged_rows(rows, source) == b.merged_rows(rows, source),
{
    let listed = |key: KeyView| key.listed_by(source);
    lemma_filter_in_steps(a.keys, listed, a.missing_from(rows, source));
    lemma_filter_in_steps(b.keys, listed, b.missing_from(rows, source));
    let common = a.keys.filter(listed);
    assert forall|i: int| 0 <= i < common.len() implies a.missing_from(rows, source)(
        #[trigger] common[i],
    ) == b.missing_from(rows, source)(common[i]) && a.bindings[common[i]]
        == b.bindings[common[i]] by {
        assert(common.contains(common[i]));
        a.keys.lemma_filter_contains_rev(listed, common[i]);
        a.keys.lemma_filter_pred(listed, i);
        assert(a.keys.contains(common[i]));
    }
    lemma_filter_same(common, a.missing_from(rows, source), b.missing_from(rows, source));
    let added = common.filter(a.missing_from(rows, source));
    assert(a.missing_rows(rows, source) =~= b.missing_rows(rows, source)) by {
        assert forall|i: int| 0 <= i < added.len() implies a.bindings[#[trigger] added[i]]
            == b.bindings[added[i]] by {
            assert(added.contains(added[i]));
            common.lemma_filter_contains_rev(a.missing_from(rows, source), added[i]);
            let at = common.index_of(added[i]);
            assert(common[at] == added[i]);
        }
    }
    assert forall|i: int| 0 <= i < rows.len() implies #[trigger] a.merged_row(rows, source, i)
        == b.merged_row(rows, source, i) by {
        if key_of(rows[i]) is Some {
            let key = key_of(rows[i]).unwrap();
            if key.listed_by(source) && a.keys.contains(key) {
                assert(a.bindings[key] == b.bindings[key]);
            }
        }
    }
    assert(a.merged_rows(rows, source) =~= b.merged_rows(rows, source));
}

/// A test that implies another can be applied after the other.
proof fn lemma_filter_in_steps<A>(s: Seq<A>, wide: spec_fn(A) -> bool, narrow: spec_fn(A) -> bool)
    requires
        forall|a: A| #[trigger] narrow(a) ==> wide(a),
    ensures
        s.filter(wide).filter(narrow) == s.filter(narrow),
    decreases s.len(),
{
    reveal(Seq::filter);
    if s.len() > 0 {
        lemma_filter_in_steps(s.drop_last(), wide, narrow);
        let before = s.drop_last().filter(wide);
        if wide(s.last()) {
            assert(before.push(s.last()).drop_last() =~= before);
        }
    }
}

/// Two tests that agree on a sequence select the same of it.
proof fn lemma_filter_same<A>(s: Seq<A>, p: spec_fn(A) -> bool, q: spec_fn(A) -> bool)
    requires
        forall|i: int| 0 <= i < s.len() ==> p(#[trigger] s[i]) == q(s[i]),
    ensures
        s.filter(p) == s.filter(q),
    decreases s.len(),
{
    reveal(Seq::filter);
    if s.len() > 0 {
        assert forall|i: int| 0 <= i < s.drop_last().len() implies p(#[trigger] s.drop_last()[i])
            == q(s.drop_last()[i]) by {
            assert(p(s[i]) == q(s[i]));
        }
        lemma_filter_same(s.drop_last(), p, q);
        assert(p(s[s.len() - 1]) == q(s[s.len() - 1]));
    }
}

/// An element that a test rejects can be removed before the test.
proof fn lemma_filter_remove<A>(s: Seq<A>, p: spec_fn(A) -> bool, i: int)
    requires
        0 <= i < s.len(),
        !p(s[i]),
    ensures
        s.remove(i).filter(p) == s.filter(p),
    decreases s.len(),
{
    reveal(Seq::filter);
    if i == s.len() - 1 {
        assert(s.remove(i) =~= s.drop_last());
    } else {
        assert(s.remove(i).drop_last() =~= s.drop_last().remove(i));
        assert(s.remove(i).last() == s.last());
        lemma_filter_remove(s.drop_last(), p, i);
    }
}

/// A list of a source without resumed sessions stays as it is.
pub proof fn a_foreign_list_is_left_alone(
    resumes: ResumesView,
    rows: Seq<SessionView>,
    source: SourceView,
)
    requires
        resumes.well_formed(),
        forall|key: KeyView| #[trigger]
            resumes.bindings.contains_key(key) ==> !key.listed_by(source),
    ensures
        resumes.merged_rows(rows, source) == rows,
{
    let wanted = resumes.missing_from(rows, source);
    assert forall|i: int| 0 <= i < resumes.keys.len() implies !wanted(
        #[trigger] resumes.keys[i],
    ) by {
        assert(resumes.keys.contains(resumes.keys[i]));
    }
    resumes.keys.lemma_all_neg_filter_empty(wanted);
    assert(resumes.merged_rows(rows, source) =~= rows);
}

/// A report on a session has no bearing on the lists of sources that do not list it.
pub proof fn reports_do_not_reach_foreign_lists(
    resumes: ResumesView,
    key: KeyView,
    operation_id: u128,
    outcome: OutcomeView,
    now: i128,
    rows: Seq<SessionView>,
    source: SourceView,
)
    requires
        resumes.well_formed(),
        !key.listed_by(source),
    ensures
        resumes.settled(key, operation_id, outcome, now).merged_rows(rows, source)
            == resumes.merged_rows(rows, source),
{
    let after = resumes.settled(key, operation_id, outcome, now);
    if resumes.accepts(key, operation_id, outcome) {
        assert(resumes.keys.contains(key));
        if outcome matches OutcomeView::Created(Err(_)) {
            lemma_without_binding(resumes, key);
            let at = resumes.keys.index_of(key);
            lemma_filter_remove(resumes.keys, |k: KeyView| k.listed_by(source), at);
        }
    }
    lemma_merge_depends_on_source(after, resumes, rows, source);
}

/// A report on a session tells a tab that does not list the session nothing: its rows
/// are brought up to date with what was known before, so that a tab that was up to
/// date is the same after, and its failure stays.
pub proof fn late_reports_do_not_change_foreign_tabs(
    app: AppView,
    key: KeyView,
    operation_id: u128,
    outcome: OutcomeView,
    now: i128,
    i: int,
)
    requires
        app.well_formed(),
        0 <= i < app.tabs.len(),
        !app.tabs[i].shows(key),
    ensures
        app.completed(key, operation_id, outcome, now).tabs[i] == if app.resumes.accepts(
            key,
            operation_id,
            outcome,
        ) {
            app.tabs[i].refreshed(app.resumes)
        } else {
            app.tabs[i]
        },
        app.tabs[i].refreshed(app.resumes) == app.tabs[i] ==> app.completed(
            key,
            operation_id,
            outcome,
            now,
        ).tabs[i] == app.tabs[i],
        app.completed(key, operation_id, outcome, now).tabs[i].error == app.tabs[i].error,
{
    let tab = app.tabs[i];
    if tab.lists_remote() {
        reports_do_not_reach_foreign_lists(
            app.resumes,
            key,
            operation_id,
            outcome,
            now,
            tab.rows.unwrap(),
            tab.source.unwrap(),
        );
    }
}

/// Once a pane was made for a session, every loaded tab that lists the session shows
/// it idle in that pane.
pub proof fn an_answered_session_is_shown_idle(
    app: AppView,
    key: KeyView,
    operation_id: u128,
    pane_id: Seq<char>,
    now: i128,
    i: int,
)
    requires
        app.well_formed(),
        app.resumes.accepts(key, operation_id, OutcomeView::Created(Ok(pane_id))),
        !app.resumes.closed.contains(pane_id),
        0 <= i < app.tabs.len(),
        app.tabs[i].shows(key),
        app.tabs[i].rows is Some,
    ensures
        ({
            let outcome = OutcomeView::Created(Ok(pane_id));
            let rows = app.completed(key, operation_id, outcome, now).tabs[i].rows.unwrap();
            exists|j: int|
                0 <= j < rows.len() && is_first_of_its_key(rows, j) && key_of(#[trigger] rows[j])
                    == Some(key) && rows[j].status == AgentStatus::Idle && rows[j].pane_session_id
                    == Some(pane_id)
        }),
{
    let outcome = OutcomeView::Created(Ok(pane_id));
    let after = app.completed(key, operation_id, outcome, now);
    let tab = app.tabs[i];
    assert(app.resumes.keys.contains(key));
    assert(after.resumes.well_formed());
    a_bound_session_stays_in_view(after.resumes, tab.rows.unwrap(), tab.source.unwrap(), key);
    assert(after.tabs[i].rows.unwrap() == after.resumes.merged_rows(
        tab.rows.unwrap(),
        tab.source.unwrap(),
    ));
}

/// Once the pane of a session closed, under any spelling of its name, every loaded
/// tab that lists the session shows it as ended.
pub proof fn a_closed_session_is_shown_as_ended(
    app: AppView,
    text: Seq<char>,
    key: KeyView,
    i: int,
    j: int,
)
    requires
        app.well_formed(),
        app.resumes.bindings.contains_key(key),
        app.resumes.bindings[key].session.pane_session_id is Some,
        app.resumes.bindings[key].session.pane_session_id == pane_named(text),
        0 <= i < app.tabs.len(),
        app.tabs[i].shows(key),
        app.tabs[i].rows is Some,
        0 <= j < app.tabs[i].rows.unwrap().len(),
        key_of(app.tabs[i].rows.unwrap()[j]) == Some(key),
        is_first_of_its_key(app.tabs[i].rows.unwrap(), j),
    ensures
        app.pane_closed(text).tabs[i].rows.unwrap()[j].status == AgentStatus::Ended,
        app.pane_closed(text).tabs[i].rows.unwrap()[j].pane_session_id is None,
{
    let pane_id = pane_named(text).unwrap();
    let after = app.pane_closed(text);
    assert(app.resumes.shows_pane(pane_id));
    assert(app.resumes.keys.contains(key));
    assert(after.resumes.keys.contains(key));
    assert(after.tabs[i] == app.tabs[i].refreshed(after.resumes));
}

/// Bringing the tabs up to date twice is the same as doing it once.
pub proof fn refreshing_twice_changes_nothing(app: AppView)
    requires
        app.well_formed(),
    ensures
        app.refreshed().refreshed() == app.refreshed(),
{
    let once = app.refreshed();
    let twice = once.refreshed();
    assert forall|i: int| 0 <= i < app.tabs.len() implies twice.tabs[i] == #[trigger] once.tabs[i] by {
        let tab: TabView = app.tabs[i];
        if tab.lists_remote() {
            merging_twice_changes_nothing(app.resumes, tab.rows.unwrap(), tab.source.unwrap());
        }
    }
    assert(twice.tabs =~= once.tabs);
}

} // verus!
