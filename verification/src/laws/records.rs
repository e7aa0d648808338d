//! What each event does to the records of resumed sessions, and what it leaves alone.

use crate::binding::{reports_missing_pane, OutcomeView, ResumePhase};
use crate::key::{key_of, KeyView};
use crate::laws::values::the_not_found_code_has_a_place;
use crate::model::{binding_well_formed, ResumesView};
use crate::session::{AgentStatus, SessionView};
use vstd::prelude::*;

verus! {

/// At first nothing is recorded and no closure is kept.
pub proof fn nothing_is_recorded_at_first(key: KeyView, pane_id: Seq<char>)
    ensures
        ResumesView::none().keys.len() == 0,
        !ResumesView::none().bindings.contains_key(key),
        !ResumesView::none().closed.contains(pane_id),
        ResumesView::none().well_formed(),
{
}

/// A record is of the session that it stands under, on that session's machine; a
/// session with a pane is idle in it, and one without is over.
pub proof fn records_say_what_they_stand_for(resumes: ResumesView, key: KeyView)
    requires
        resumes.well_formed(),
        resumes.bindings.contains_key(key),
    ensures
        ({
            let session = resumes.bindings[key].session;
            &&& session.location is Ssh
            &&& session.location->target.destination == key.target.destination
            &&& session.location->target.port == key.target.port
            &&& session.cli_source == key.cli
            &&& session.key == key.session_id
            &&& resumes.bindings[key].phase == ResumePhase::Bound ==> session.status
                == AgentStatus::Idle && session.pane_session_id is Some
            &&& resumes.bindings[key].phase == ResumePhase::Ended ==> session.status
                == AgentStatus::Ended && session.pane_session_id is None
        }),
        exists|i: int| 0 <= i < resumes.keys.len() && #[trigger] resumes.keys[i] == key,
        forall|i: int, j: int|
            0 <= i < resumes.keys.len() && 0 <= j < resumes.keys.len() && #[trigger] resumes.keys[i]
                == key && #[trigger] resumes.keys[j] == key ==> i == j,
{
    assert(resumes.keys.contains(key));
}

/// Nothing more is asked of the records than that each stands under its own identity,
/// that each identity occurs once, and that the phase agrees with the pane.
pub proof fn such_records_are_in_order(resumes: ResumesView)
    requires
        forall|i: int, j: int|
            0 <= i < j < resumes.keys.len() ==> #[trigger] resumes.keys[i]
                != #[trigger] resumes.keys[j],
        forall|i: int|
            0 <= i < resumes.keys.len() ==> resumes.bindings.contains_key(
                #[trigger] resumes.keys[i],
            ),
        forall|key: KeyView| #[trigger]
            resumes.bindings.contains_key(key) ==> exists|i: int|
                0 <= i < resumes.keys.len() && #[trigger] resumes.keys[i] == key,
        forall|key: KeyView| #[trigger]
            resumes.bindings.contains_key(key) ==> {
                let session = resumes.bindings[key].session;
                &&& key_of(session) == Some(key)
                &&& resumes.bindings[key].phase == ResumePhase::Bound ==> session.status
                    == AgentStatus::Idle && session.pane_session_id is Some
                &&& resumes.bindings[key].phase == ResumePhase::Ended ==> session.status
                    == AgentStatus::Ended && session.pane_session_id is None
            },
    ensures
        resumes.well_formed(),
{
    assert forall|key: KeyView|
        #![trigger resumes.bindings.contains_key(key)]
        #![trigger resumes.keys.contains(key)]
        resumes.bindings.contains_key(key) <==> resumes.keys.contains(key) by {
        if resumes.keys.contains(key) {
            let i = resumes.keys.index_of(key);
            assert(resumes.keys[i] == key);
        }
    }
    assert forall|key: KeyView| #[trigger]
        resumes.bindings.contains_key(key) implies binding_well_formed(
        key,
        resumes.bindings[key],
    ) by {}
}

/// A session waits for its pane exactly if its record says so.
pub proof fn waiting_is_told_by_the_phase(resumes: ResumesView, key: KeyView)
    ensures
        resumes.is_launching(key) <==> {
            &&& resumes.bindings.contains_key(key)
            &&& resumes.bindings[key].phase is Launching
        },
{
}

/// Some session waits for its pane exactly if one of the records says so.
pub proof fn some_session_waits_if_a_record_says_so(resumes: ResumesView)
    ensures
        resumes.any_launching() <==> exists|k: KeyView|
            #![trigger resumes.bindings[k]]
            resumes.bindings.contains_key(k) && resumes.bindings[k].phase is Launching,
{
    if exists|k: KeyView|
        #![trigger resumes.bindings[k]]
        resumes.bindings.contains_key(k) && resumes.bindings[k].phase is Launching {
        let k = choose|k: KeyView|
            #![trigger resumes.bindings[k]]
            resumes.bindings.contains_key(k) && resumes.bindings[k].phase is Launching;
        assert(resumes.is_launching(k));
    }
    if resumes.any_launching() {
        let k = choose|k: KeyView| resumes.is_launching(k);
        assert(resumes.bindings[k].phase is Launching);
    }
}

/// A pane is shown exactly if one of the records names it.
pub proof fn panes_are_shown_by_the_records_that_name_them(resumes: ResumesView, pane_id: Seq<char>)
    ensures
        resumes.shows_pane(pane_id) <==> exists|k: KeyView|
            #![trigger resumes.bindings[k]]
            resumes.bindings.contains_key(k) && resumes.bindings[k].session.pane_session_id == Some(
                pane_id,
            ),
{
    if exists|k: KeyView|
        #![trigger resumes.bindings[k]]
        resumes.bindings.contains_key(k) && resumes.bindings[k].session.pane_session_id == Some(
            pane_id,
        ) {
        let k = choose|k: KeyView|
            #![trigger resumes.bindings[k]]
            resumes.bindings.contains_key(k) && resumes.bindings[k].session.pane_session_id == Some(
                pane_id,
            );
        assert(resumes.bindings.contains_key(k));
    }
    if resumes.shows_pane(pane_id) {
        let k = choose|k: KeyView| #[trigger]
            resumes.bindings.contains_key(k) && resumes.bindings[k].session.pane_session_id == Some(
                pane_id,
            );
        assert(resumes.bindings[k].session.pane_session_id == Some(pane_id));
    }
}

/// Asking for a pane records the session that it is for, as it was given, and touches
/// no other record and no closure, whichever machines the other sessions are on. A
/// session that was not recorded comes last.
pub proof fn a_launch_records_its_session_alone(
    resumes: ResumesView,
    key: KeyView,
    operation_id: u128,
    session: SessionView,
    other: KeyView,
)
    requires
        resumes.well_formed(),
        other != key,
    ensures
        ({
            let after = resumes.launched(key, operation_id, session);
            &&& after.bindings.contains_key(key)
            &&& after.bindings[key].operation_id == operation_id
            &&& after.bindings[key].phase is Launching
            &&& after.bindings[key].session == session
            &&& after.bindings.contains_key(other) <==> resumes.bindings.contains_key(other)
            &&& after.bindings[other] == resumes.bindings[other]
            &&& after.closed == resumes.closed
            &&& resumes.bindings.contains_key(key) ==> after.keys == resumes.keys
            &&& !resumes.bindings.contains_key(key) ==> {
                &&& after.keys.len() == resumes.keys.len() + 1
                &&& after.keys[resumes.keys.len() as int] == key
                &&& forall|i: int|
                    0 <= i < resumes.keys.len() ==> #[trigger] after.keys[i] == resumes.keys[i]
            }
        }),
{
}

/// An answer to a request for a pane concerns the record that follows the request and
/// still waits; a failure to bring a pane to the front concerns the record that follows
/// the request and names that pane.
pub proof fn reports_concern_the_records_that_follow_them(
    resumes: ResumesView,
    key: KeyView,
    operation_id: u128,
    reply: Result<Seq<char>, Seq<char>>,
    pane_id: Seq<char>,
    error: Seq<char>,
)
    ensures
        resumes.accepts(key, operation_id, OutcomeView::Created(reply)) <==> {
            &&& resumes.bindings.contains_key(key)
            &&& resumes.bindings[key].operation_id == operation_id
            &&& resumes.bindings[key].phase is Launching
        },
        resumes.accepts(key, operation_id, (OutcomeView::FocusFailed { pane_id, error })) <==> {
            &&& resumes.bindings.contains_key(key)
            &&& resumes.bindings[key].operation_id == operation_id
            &&& resumes.bindings[key].session.pane_session_id is Some
            &&& resumes.bindings[key].session.pane_session_id.unwrap() == pane_id
        },
{
}

/// A report touches no record but that of the session it speaks of, and one that does
/// not concern that record touches nothing at all.
pub proof fn a_report_touches_its_record_alone(
    resumes: ResumesView,
    key: KeyView,
    operation_id: u128,
    outcome: OutcomeView,
    now: i128,
    other: KeyView,
)
    requires
        other != key,
    ensures
        ({
            let after = resumes.settled(key, operation_id, outcome, now);
            &&& after.bindings.contains_key(other) <==> resumes.bindings.contains_key(other)
            &&& after.bindings[other] == resumes.bindings[other]
            &&& !resumes.accepts(key, operation_id, outcome) ==> {
                &&& after.bindings == resumes.bindings
                &&& after.keys == resumes.keys
                &&& after.closed == resumes.closed
            }
        }),
{
}

/// A pane that was made for a session is named by its record, which says that the
/// session is idle as of now. All else that the record says of the session stays.
pub proof fn an_answer_binds_the_session_to_its_pane(
    resumes: ResumesView,
    key: KeyView,
    operation_id: u128,
    pane_id: Seq<char>,
    now: i128,
)
    requires
        resumes.well_formed(),
        resumes.accepts(key, operation_id, OutcomeView::Created(Ok(pane_id))),
        !resumes.closed.contains(pane_id),
    ensures
        ({
            let before = resumes.bindings[key];
            let outcome = OutcomeView::Created(Ok(pane_id));
            let after = resumes.settled(key, operation_id, outcome, now);
            let binding = after.bindings[key];
            &&& after.keys == resumes.keys
            &&& after.bindings.contains_key(key)
            &&& binding.operation_id == operation_id
            &&& binding.phase is Bound
            &&& binding.session.status is Idle
            &&& binding.session.pane_session_id is Some
            &&& binding.session.pane_session_id.unwrap() == pane_id
            &&& binding.session.last_activity_at == now
            &&& binding.session.key == before.session.key
            &&& binding.session.cli_source == before.session.cli_source
            &&& binding.session.location == before.session.location
            &&& binding.session.title == before.session.title
            &&& binding.session.cwd == before.session.cwd
            &&& binding.session.origin == before.session.origin
        }),
{
    assert(resumes.keys.contains(key));
}

/// A session whose pane is already gone when the answer comes is over. All else that
/// the record says of the session stays, the time of its last activity included.
pub proof fn an_answer_with_a_closed_pane_ends_the_session(
    resumes: ResumesView,
    key: KeyView,
    operation_id: u128,
    pane_id: Seq<char>,
    now: i128,
)
    requires
        resumes.well_formed(),
        resumes.accepts(key, operation_id, OutcomeView::Created(Ok(pane_id))),
        resumes.closed.contains(pane_id),
    ensures
        ({
            let before = resumes.bindings[key];
            let outcome = OutcomeView::Created(Ok(pane_id));
            let after = resumes.settled(key, operation_id, outcome, now);
            let binding = after.bindings[key];
            &&& after.keys == resumes.keys
            &&& after.bindings.contains_key(key)
            &&& binding.operation_id == before.operation_id
            &&& binding.phase is Ended
            &&& binding.session.status is Ended
            &&& binding.session.pane_session_id is None
            &&& binding.session.last_activity_at == before.session.last_activity_at
            &&& binding.session.key == before.session.key
            &&& binding.session.cli_source == before.session.cli_source
            &&& binding.session.location == before.session.location
            &&& binding.session.title == before.session.title
            &&& binding.session.cwd == before.session.cwd
            &&& binding.session.origin == before.session.origin
        }),
{
    assert(resumes.keys.contains(key));
}

/// A failure to make a pane removes the record, and the others keep their order.
pub proof fn a_failed_answer_removes_the_record(
    resumes: ResumesView,
    key: KeyView,
    operation_id: u128,
    message: Seq<char>,
    now: i128,
    i: int,
)
    requires
        resumes.well_formed(),
        resumes.accepts(key, operation_id, OutcomeView::Created(Err(message))),
        0 <= i < resumes.keys.len(),
        resumes.keys[i] == key,
    ensures
        ({
            let outcome = OutcomeView::Created(Err(message));
            let after = resumes.settled(key, operation_id, outcome, now);
            &&& !after.bindings.contains_key(key)
            &&& after.keys.len() == resumes.keys.len() - 1
            &&& forall|j: int| 0 <= j < i ==> #[trigger] after.keys[j] == resumes.keys[j]
            &&& forall|j: int|
                i <= j < after.keys.len() ==> #[trigger] after.keys[j] == resumes.keys[j + 1]
        }),
{
    let keys = resumes.keys;
    assert(keys.contains(key));
    keys.index_of_first_ensures(key);
    assert(keys.index_of_first(key) == Some(i));
}

/// A failure to bring a pane to the front ends the session exactly if the code
/// `0x80070490` stands somewhere in it; whatever else it says, the record stays as it
/// is. The end of a session changes nothing but its phase, its status and its pane.
pub proof fn a_focus_failure_ends_the_session_only_with_the_code(
    resumes: ResumesView,
    key: KeyView,
    operation_id: u128,
    pane_id: Seq<char>,
    error: Seq<char>,
    now: i128,
)
    requires
        resumes.well_formed(),
        resumes.accepts(key, operation_id, (OutcomeView::FocusFailed { pane_id, error })),
    ensures
        ({
            let before = resumes.bindings[key];
            let outcome = OutcomeView::FocusFailed { pane_id, error };
            let after = resumes.settled(key, operation_id, outcome, now);
            let binding = after.bindings[key];
            let named = exists|start: int|
                0 <= start <= error.len() - 10 && #[trigger] error.subrange(start, start + 10)
                    == "0x80070490"@;
            &&& after.keys == resumes.keys
            &&& after.bindings.contains_key(key)
            &&& before.phase is Bound ==> (binding.phase is Ended <==> named)
            &&& named ==> {
                &&& binding.phase is Ended
                &&& binding.session.status is Ended
                &&& binding.session.pane_session_id is None
            }
            &&& !named ==> {
                &&& binding.phase == before.phase
                &&& binding.session.status == before.session.status
                &&& binding.session.pane_session_id == before.session.pane_session_id
            }
            &&& binding.operation_id == before.operation_id
            &&& binding.session.last_activity_at == before.session.last_activity_at
            &&& binding.session.key == before.session.key
            &&& binding.session.cli_source == before.session.cli_source
            &&& binding.session.location == before.session.location
            &&& binding.session.title == before.session.title
            &&& binding.session.cwd == before.session.cwd
            &&& binding.session.origin == before.session.origin
        }),
{
    assert(resumes.keys.contains(key));
    the_not_found_code_has_a_place(error);
}

/// A report that concerns a record clears the closures, unless some session still
/// waits for its pane afterwards: then all of them are kept.
pub proof fn closures_go_with_the_last_waiting_session(
    resumes: ResumesView,
    key: KeyView,
    operation_id: u128,
    outcome: OutcomeView,
    now: i128,
    pane_id: Seq<char>,
)
    requires
        resumes.accepts(key, operation_id, outcome),
    ensures
        ({
            let after = resumes.settled(key, operation_id, outcome, now);
            after.closed.contains(pane_id) <==> {
                &&& resumes.closed.contains(pane_id)
                &&& exists|k: KeyView|
                    #![trigger after.bindings[k]]
                    after.bindings.contains_key(k) && after.bindings[k].phase is Launching
            }
        }),
{
    let after = resumes.settled(key, operation_id, outcome, now);
    let binding = resumes.bindings[key];
    let unpruned = match outcome {
        OutcomeView::Created(Ok(pane)) => if resumes.closed.contains(pane) {
            resumes.with_binding(key, binding.ended())
        } else {
            resumes.with_binding(key, binding.bound(pane, now))
        },
        OutcomeView::Created(Err(_)) => resumes.without_binding(key),
        OutcomeView::FocusFailed { error, .. } => if reports_missing_pane(error) {
            resumes.with_binding(key, binding.ended())
        } else {
            resumes
        },
    };
    assert(after == unpruned.pruned());
    closures_are_cleared_unless_a_session_waits(unpruned, pane_id);
    assert(after.bindings == unpruned.bindings);
}

/// Clearing the closures keeps all of them while some session waits for its pane, and
/// none otherwise. The records stay.
pub proof fn closures_are_cleared_unless_a_session_waits(resumes: ResumesView, pane_id: Seq<char>)
    ensures
        resumes.pruned().keys == resumes.keys,
        resumes.pruned().bindings == resumes.bindings,
        resumes.pruned().closed.contains(pane_id) <==> {
            &&& resumes.closed.contains(pane_id)
            &&& exists|k: KeyView|
                #![trigger resumes.bindings[k]]
                resumes.bindings.contains_key(k) && resumes.bindings[k].phase is Launching
        },
{
    some_session_waits_if_a_record_says_so(resumes);
}

/// The closure of a pane ends the sessions whose records name it: their phase, their
/// status and their pane change, and nothing else. All other records stay as they are.
pub proof fn a_closure_touches_the_records_of_its_pane_alone(
    resumes: ResumesView,
    pane_id: Seq<char>,
    key: KeyView,
)
    ensures
        ({
            let before = resumes.bindings[key];
            let after = resumes.pane_closed(pane_id);
            let binding = after.bindings[key];
            let named = before.session.pane_session_id is Some
                && before.session.pane_session_id.unwrap() == pane_id;
            &&& after.keys == resumes.keys
            &&& after.bindings.contains_key(key) <==> resumes.bindings.contains_key(key)
            &&& resumes.bindings.contains_key(key) && !named ==> binding == before
            &&& resumes.bindings.contains_key(key) && named ==> {
                &&& binding.phase is Ended
                &&& binding.session.status is Ended
                &&& binding.session.pane_session_id is None
                &&& binding.operation_id == before.operation_id
                &&& binding.session.last_activity_at == before.session.last_activity_at
                &&& binding.session.key == before.session.key
                &&& binding.session.cli_source == before.session.cli_source
                &&& binding.session.location == before.session.location
                &&& binding.session.title == before.session.title
                &&& binding.session.cwd == before.session.cwd
                &&& binding.session.origin == before.session.origin
            }
        }),
{
}

/// The closure of a pane is kept exactly if some session waits for its pane when it
/// comes, and the closures before it are kept in any case.
pub proof fn a_closure_is_kept_if_a_session_waits(
    resumes: ResumesView,
    pane_id: Seq<char>,
    other: Seq<char>,
)
    ensures
        resumes.pane_closed(pane_id).closed.contains(other) <==> {
            ||| resumes.closed.contains(other)
            ||| {
                &&& other == pane_id
                &&& exists|k: KeyView|
                    #![trigger resumes.bindings[k]]
                    resumes.bindings.contains_key(k) && resumes.bindings[k].phase is Launching
            }
        },
{
    some_session_waits_if_a_record_says_so(resumes);
}

} // verus!
