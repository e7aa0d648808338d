//! Single functions of the library on concrete values.

use ssh_resume::app::App;
use ssh_resume::binding::{pane_gone, ResumePhase, SshResumeOutcome};
use ssh_resume::clock::{now, signed_nanos};
use ssh_resume::guid::{canonical_pane_id, created_pane_id};
use ssh_resume::key::{SshSessionKey, SshSessionsSource};
use ssh_resume::requests::{report_creation, report_focus, ResumeError, ResumeStep};
use ssh_resume::resumes::SshResumes;
use ssh_resume::session::{
    AgentSession, AgentStatus, CliSource, SessionLocation, SessionOrigin, SshTarget,
};
use ssh_resume::tabs::{AgentsView, TabSelection, TabSession};

const PANE: &str = "67e55044-10b1-426f-9247-bb680e5fe0c8";

fn target(destination: &str, port: Option<u16>) -> SshTarget {
    SshTarget {
        destination: destination.to_string(),
        port,
    }
}

fn cli(name: &str) -> CliSource {
    CliSource {
        name: name.to_string(),
    }
}

fn source() -> SshSessionsSource {
    SshSessionsSource {
        target: target("remote", Some(22)),
        cli: Some(cli("copilot")),
    }
}

fn foreign() -> SshSessionsSource {
    SshSessionsSource {
        target: target("elsewhere", Some(22)),
        cli: Some(cli("copilot")),
    }
}

fn session(id: &str, last_activity_at: i128) -> AgentSession {
    AgentSession {
        key: id.to_string(),
        cli_source: cli("copilot"),
        location: SessionLocation::Ssh {
            target: target("remote", Some(22)),
        },
        title: format!("Title of {id}"),
        cwd: "/srv".to_string(),
        status: AgentStatus::Historical,
        origin: SessionOrigin::Known(3),
        pane_session_id: None,
        last_activity_at,
    }
}

fn local(location: SessionLocation) -> AgentSession {
    AgentSession {
        location,
        ..session("local", 0)
    }
}

fn key(id: &str) -> SshSessionKey {
    SshSessionKey::from_session(&session(id, 0)).unwrap()
}

fn tab(id: &str, ssh_source: Option<SshSessionsSource>, rows: Vec<AgentSession>) -> TabSession {
    TabSession {
        id: id.to_string(),
        agents_view: AgentsView {
            ssh_source,
            ssh_error: None,
            snapshot: Some(rows),
        },
        selected: None,
    }
}

fn app() -> App {
    let mut app = App::new("one".to_string(), true);
    app.tab_sessions
        .push(tab("one", Some(source()), vec![session("a", 5)]));
    app
}

fn launch(app: &mut App, id: &str, operation_id: u128) -> ResumeStep {
    app.resume_under(&session(id, 5), "ssh".to_string(), Ok(()), operation_id)
        .unwrap()
}

fn bind(app: &mut App, id: &str, operation_id: u128, pane_id: &str, now: i128) {
    launch(app, id, operation_id);
    let update = app.complete_ssh_resume(
        &key(id),
        operation_id,
        SshResumeOutcome::Created(Ok(pane_id.to_string())),
        now,
    );
    assert!(update.is_some());
}

fn rows(app: &App, tab: usize) -> &Vec<AgentSession> {
    app.tab_sessions[tab].agents_view.snapshot.as_ref().unwrap()
}

#[test]
fn only_remote_sessions_have_an_identity() {
    assert!(SshSessionKey::from_session(&local(SessionLocation::Host)).is_none());
    assert!(SshSessionKey::from_session(&local(SessionLocation::Wsl {
        distro: "Ubuntu".to_string()
    }))
    .is_none());
    let key = SshSessionKey::from_session(&session("a", 0)).unwrap();
    assert_eq!(key.target, target("remote", Some(22)));
    assert_eq!(key.cli, cli("copilot"));
    assert_eq!(key.session_id, "a");
    assert!(key.identifies(&session("a", 9)));
    assert!(!key.identifies(&session("b", 9)));
}

#[test]
fn a_source_without_a_known_agent_lists_nothing() {
    assert!(key("a").matches_source(&source()));
    assert!(!key("a").matches_source(&foreign()));
    assert!(!key("a").matches_source(&SshSessionsSource {
        target: target("remote", Some(22)),
        cli: None,
    }));
    assert!(!key("a").matches_source(&SshSessionsSource {
        target: target("remote", None),
        cli: Some(cli("copilot")),
    }));
    assert!(!key("a").matches_source(&SshSessionsSource {
        target: target("remote", Some(22)),
        cli: Some(cli("another-agent")),
    }));
}

#[test]
fn only_the_missing_pane_code_says_that_a_pane_is_gone() {
    assert!(pane_gone("FocusPane failed: 0x80070490"));
    assert!(pane_gone("0x80070490"));
    assert!(!pane_gone("0x8007049"));
    assert!(!pane_gone("0x80070491"));
    assert!(!pane_gone("RPC unavailable"));
    assert!(!pane_gone(""));
}

#[test]
fn every_spelling_of_a_pane_has_one_canonical_form() {
    for spelling in [
        "67e55044-10b1-426f-9247-bb680e5fe0c8",
        "67E55044-10B1-426F-9247-BB680E5FE0C8",
        "67e5504410b1426f9247bb680e5fe0c8",
        "{67e55044-10b1-426f-9247-BB680E5FE0C8}",
        "urn:uuid:67e55044-10b1-426f-9247-bb680e5fe0c8",
        "URN:UUID:67e55044-10b1-426f-9247-bb680e5fe0c8",
    ] {
        assert_eq!(canonical_pane_id(spelling).as_deref(), Some(PANE));
    }
    for other in [
        "",
        "-t",
        "67e55044-10b1-426f-9247-bb680e5fe0c",
        "{67e55044-10b1-426f-9247-bb680e5fe0c8",
        "{67e5504410b1426f9247bb680e5fe0c8}",
        "67e55044-10b1-426f-9247-bb680e5fe0cg",
        "67e55044-10b1-426f-9247_bb680e5fe0c8",
        "uuid:urn:67e55044-10b1-426f-9247-bb680e5fe0c8",
        "67e55044-10b1-426f-9247-bb680e5fe0\u{e9}",
    ] {
        assert_eq!(canonical_pane_id(other), None);
    }
}

#[test]
fn created_panes_are_checked() {
    assert_eq!(
        created_pane_id(Ok("{67E55044-10b1-426f-9247-bb680e5fe0c8}".to_string())),
        Ok(PANE.to_string())
    );
    assert_eq!(
        created_pane_id(Ok("00000000-0000-0000-0000-000000000000".to_string())),
        Err("SSH resume returned an empty pane GUID.".to_string())
    );
    assert_eq!(
        created_pane_id(Ok(String::new())),
        Err(uuid::Uuid::parse_str("").unwrap_err().to_string())
    );
    assert_eq!(
        created_pane_id(Ok("-t".to_string())),
        Err(uuid::Uuid::parse_str("-t").unwrap_err().to_string())
    );
    assert_eq!(
        created_pane_id(Err("no terminal".to_string())),
        Err("no terminal".to_string())
    );
}

#[test]
fn reports_follow_the_answers() {
    let (outcome, focus) = report_creation(Ok(PANE.to_uppercase()));
    assert!(matches!(outcome, SshResumeOutcome::Created(Ok(pane_id)) if pane_id == PANE));
    assert_eq!(focus.as_deref(), Some(PANE));
    let (outcome, focus) = report_creation(Err("no terminal".to_string()));
    assert!(matches!(outcome, SshResumeOutcome::Created(Err(message)) if message == "no terminal"));
    assert_eq!(focus, None);
    assert!(report_focus(PANE.to_string(), Ok(())).is_none());
    assert!(matches!(
        report_focus(PANE.to_string(), Err("lost".to_string())),
        Some(SshResumeOutcome::FocusFailed { pane_id, error }) if pane_id == PANE && error == "lost"
    ));
}

#[test]
fn the_clock_reads_after_1970() {
    assert_eq!(signed_nanos(Ok(7)), 7);
    assert_eq!(signed_nanos(Err(7)), -7);
    assert_eq!(signed_nanos(Ok(0)), 0);
    assert!(now() > 1_600_000_000_000_000_000);
}

#[test]
fn local_sessions_are_refused() {
    let mut app = app();
    for location in [
        SessionLocation::Host,
        SessionLocation::Wsl {
            distro: "Ubuntu".to_string(),
        },
    ] {
        let session = local(location);
        let refused = app.start_ssh_session_resume(&session, "ssh".to_string(), Ok(()));
        assert_eq!(refused, Err(ResumeError::NotRemote));
        let step = app.dispatch_ssh_session_focus(&session, &PANE.to_string(), Ok(()));
        assert_eq!(step, ResumeStep::Nothing);
        assert!(!app.ssh_resume_pending(&session));
    }
    assert!(app.ssh_resumes.is_empty());
    assert_eq!(
        ResumeError::NotRemote.message(),
        "SSH resume requires an SSH session source."
    );
}

#[test]
fn a_request_needs_an_event_loop_and_a_runtime() {
    let mut app = app();
    app.event_loop = false;
    let refused = app.start_ssh_session_resume(&session("a", 5), "ssh".to_string(), Ok(()));
    assert_eq!(refused, Err(ResumeError::NoResumeLoop));
    assert_eq!(
        ResumeError::NoResumeLoop.message(),
        "SSH session resume requires the helper event loop."
    );
    app.event_loop = true;
    let refused = app.start_ssh_session_resume(
        &session("a", 5),
        "ssh".to_string(),
        Err("no runtime".to_string()),
    );
    let error = refused.unwrap_err();
    assert_eq!(
        error,
        ResumeError::NoRuntime {
            message: "no runtime".to_string()
        }
    );
    assert_eq!(error.message(), "no runtime");
    assert!(app.ssh_resumes.is_empty());
}

#[test]
fn a_request_gets_a_random_identifier() {
    let mut app = app();
    let step = app
        .start_ssh_session_resume(&session("a", 5), "ssh -t remote".to_string(), Ok(()))
        .unwrap();
    match step {
        ResumeStep::CreateTab {
            key: asked,
            operation_id,
            commandline,
            title,
        } => {
            assert_eq!(asked, key("a"));
            assert_eq!(commandline, "ssh -t remote");
            assert_eq!(title, "Title of a");
            assert_eq!((operation_id >> 76) & 0xf, 4);
            assert_eq!((operation_id >> 62) & 3, 2);
            let binding = app.ssh_resumes.get(&key("a")).unwrap();
            assert_eq!(binding.operation_id, operation_id);
            assert_eq!(binding.phase, ResumePhase::Launching);
            assert_eq!(binding.session, session("a", 5));
        }
        other => panic!("unexpected step: {other:?}"),
    }
    assert!(app.ssh_resume_pending(&session("a", 0)));
    assert!(!app.ssh_resume_pending(&session("b", 0)));
}

#[test]
fn a_waiting_session_is_not_asked_for_twice() {
    let mut app = app();
    assert!(matches!(
        launch(&mut app, "a", 7),
        ResumeStep::CreateTab { .. }
    ));
    assert_eq!(launch(&mut app, "a", 8), ResumeStep::Nothing);
    assert_eq!(app.ssh_resumes.get(&key("a")).unwrap().operation_id, 7);
    assert_eq!(rows(&app, 0)[0], session("a", 5));
}

#[test]
fn a_bound_session_is_focused_in_its_pane() {
    let mut app = app();
    bind(&mut app, "a", 7, PANE, 99);
    let binding = app.ssh_resumes.get(&key("a")).unwrap();
    assert_eq!(binding.phase, ResumePhase::Bound);
    assert_eq!(binding.session.status, AgentStatus::Idle);
    assert_eq!(binding.session.last_activity_at, 99);
    assert_eq!(binding.session.origin, SessionOrigin::Known(3));
    app.tab_sessions[0].agents_view.ssh_error = Some("earlier".to_string());
    assert_eq!(
        launch(&mut app, "a", 8),
        ResumeStep::FocusPane {
            key: key("a"),
            operation_id: 7,
            pane_id: PANE.to_string(),
        }
    );
    assert_eq!(app.tab_sessions[0].agents_view.ssh_error, None);
}

#[test]
fn focus_is_refused_for_each_reason() {
    let pane = PANE.to_string();
    let refused = |app: &mut App, id: &str, pane_id: &String, runtime: Result<(), String>| {
        match app.dispatch_ssh_session_focus(&session(id, 0), pane_id, runtime) {
            ResumeStep::Refused { error } => error,
            other => panic!("unexpected step: {other:?}"),
        }
    };
    let mut app = app();
    assert_eq!(
        refused(&mut app, "a", &pane, Ok(())),
        "SSH session has no local pane binding."
    );
    assert_eq!(
        app.tab_sessions[0].agents_view.ssh_error.as_deref(),
        Some("SSH session has no local pane binding.")
    );
    launch(&mut app, "a", 7);
    assert_eq!(
        refused(&mut app, "a", &pane, Ok(())),
        "SSH session pane binding is no longer current."
    );
    bind(&mut app, "b", 8, PANE, 1);
    assert_eq!(
        refused(&mut app, "b", &"another".to_string(), Ok(())),
        "SSH session pane binding is no longer current."
    );
    assert_eq!(
        refused(&mut app, "b", &pane, Err("no runtime".to_string())),
        "no runtime"
    );
    app.event_loop = false;
    assert_eq!(
        refused(&mut app, "b", &pane, Ok(())),
        "SSH session focus requires the helper event loop."
    );
    app.event_loop = true;
    app.tab_sessions[0].agents_view.ssh_error = None;
    app.tab_sessions.push(tab("two", Some(foreign()), vec![]));
    app.current_tab_id = "two".to_string();
    assert_eq!(
        refused(&mut app, "b", &pane, Ok(())),
        "SSH session does not belong to the selected source."
    );
    // The tab that lists the session shows the refusal, the selected one does not.
    assert!(app.tab_sessions[0].agents_view.ssh_error.is_some());
    assert!(app.tab_sessions[1].agents_view.ssh_error.is_none());
    app.current_tab_id = "three".to_string();
    assert_eq!(
        refused(&mut app, "b", &pane, Ok(())),
        "SSH session does not belong to the selected source."
    );
    app.current_tab_id = "one".to_string();
    assert_eq!(app.focus_request(&key("b"), &pane, Ok(())), Ok(8));
}

#[test]
fn a_failed_request_leaves_no_record() {
    let mut app = app();
    launch(&mut app, "a", 7);
    launch(&mut app, "b", 8);
    let update = app
        .complete_ssh_resume(
            &key("a"),
            7,
            SshResumeOutcome::Created(Err("no terminal".to_string())),
            99,
        )
        .unwrap();
    assert_eq!(update.error.as_deref(), Some("no terminal"));
    assert_eq!(
        update.selections,
        vec![TabSelection {
            tab_id: "one".to_string(),
            selected: 0
        }]
    );
    assert!(app.ssh_resumes.get(&key("a")).is_none());
    assert!(app.ssh_resumes.get(&key("b")).is_some());
    assert_eq!(
        app.tab_sessions[0].agents_view.ssh_error.as_deref(),
        Some("no terminal")
    );
    assert_eq!(rows(&app, 0)[0], session("a", 5));
    assert!(matches!(
        launch(&mut app, "a", 9),
        ResumeStep::CreateTab { .. }
    ));
}

#[test]
fn stale_and_repeated_answers_change_nothing() {
    let mut app = app();
    bind(&mut app, "a", 7, PANE, 99);
    let answer = |pane_id: &str| SshResumeOutcome::Created(Ok(pane_id.to_string()));
    assert!(app
        .complete_ssh_resume(&key("a"), 7, answer("second"), 100)
        .is_none());
    assert!(app
        .complete_ssh_resume(&key("a"), 8, answer("other request"), 100)
        .is_none());
    assert!(app
        .complete_ssh_resume(&key("b"), 7, answer("other session"), 100)
        .is_none());
    assert!(app
        .complete_ssh_resume(
            &key("a"),
            7,
            SshResumeOutcome::FocusFailed {
                pane_id: "other pane".to_string(),
                error: "0x80070490".to_string(),
            },
            100,
        )
        .is_none());
    let binding = app.ssh_resumes.get(&key("a")).unwrap();
    assert_eq!(binding.session.pane_session_id.as_deref(), Some(PANE));
    assert_eq!(binding.session.last_activity_at, 99);
    assert_eq!(app.tab_sessions[0].agents_view.ssh_error, None);
}

#[test]
fn a_missing_pane_ends_its_session() {
    let mut app = app();
    bind(&mut app, "a", 7, PANE, 99);
    let failure = |error: &str| SshResumeOutcome::FocusFailed {
        pane_id: PANE.to_string(),
        error: error.to_string(),
    };
    let update = app
        .complete_ssh_resume(&key("a"), 7, failure("busy"), 100)
        .unwrap();
    assert_eq!(update.error.as_deref(), Some("busy"));
    assert_eq!(rows(&app, 0)[0].status, AgentStatus::Idle);
    app.complete_ssh_resume(&key("a"), 7, failure("error 0x80070490"), 100)
        .unwrap();
    assert_eq!(rows(&app, 0)[0].status, AgentStatus::Ended);
    assert_eq!(rows(&app, 0)[0].pane_session_id, None);
    assert_eq!(
        app.ssh_resumes.get(&key("a")).unwrap().phase,
        ResumePhase::Ended
    );
}

#[test]
fn closures_are_kept_while_another_session_waits() {
    let mut app = app();
    // Nothing waits: the closure is not kept.
    assert!(app.ssh_resume_pane_closed(PANE).is_empty());
    assert!(app.ssh_resumes.keeps_no_closures());
    launch(&mut app, "a", 7);
    launch(&mut app, "b", 8);
    assert!(app.ssh_resume_pane_closed("no pane at all").is_empty());
    assert!(app.ssh_resumes.keeps_no_closures());
    app.ssh_resume_pane_closed(&PANE.to_uppercase());
    app.ssh_resume_pane_closed(PANE);
    assert!(!app.ssh_resumes.keeps_no_closures());
    app.complete_ssh_resume(
        &key("a"),
        7,
        SshResumeOutcome::Created(Ok("11111111-1111-4111-8111-111111111111".to_string())),
        1,
    )
    .unwrap();
    assert!(!app.ssh_resumes.keeps_no_closures());
    app.complete_ssh_resume(
        &key("b"),
        8,
        SshResumeOutcome::Created(Ok(PANE.to_string())),
        1,
    )
    .unwrap();
    assert!(app.ssh_resumes.keeps_no_closures());
    assert_eq!(
        app.ssh_resumes.get(&key("a")).unwrap().phase,
        ResumePhase::Bound
    );
    let dead = app.ssh_resumes.get(&key("b")).unwrap();
    assert_eq!(dead.phase, ResumePhase::Ended);
    assert_eq!(dead.session.status, AgentStatus::Ended);
    assert_eq!(dead.session.pane_session_id, None);
}

#[test]
fn a_closure_ends_every_session_of_its_pane_and_no_other() {
    let mut app = app();
    bind(&mut app, "a", 7, PANE, 1);
    bind(&mut app, "b", 8, PANE, 1);
    bind(&mut app, "c", 9, "11111111-1111-4111-8111-111111111111", 1);
    let selections = app.ssh_resume_pane_closed(PANE);
    assert_eq!(selections.len(), 1);
    let phase = |id: &str| app.ssh_resumes.get(&key(id)).unwrap().phase;
    assert_eq!(phase("a"), ResumePhase::Ended);
    assert_eq!(phase("b"), ResumePhase::Ended);
    assert_eq!(phase("c"), ResumePhase::Bound);
    assert!(app.ssh_resume_pane_closed(&format!("{{{PANE}}}")).is_empty());
    let phase = |id: &str| app.ssh_resumes.get(&key(id)).unwrap().phase;
    assert_eq!(phase("a"), ResumePhase::Ended);
    assert_eq!(phase("c"), ResumePhase::Bound);
}

#[test]
fn merging_updates_the_first_row_and_adds_what_is_missing() {
    let mut app = app();
    bind(&mut app, "a", 7, PANE, 10);
    launch(&mut app, "b", 8);
    launch(&mut app, "c", 9);
    bind(&mut app, "d", 10, "11111111-1111-4111-8111-111111111111", 10);
    app.ssh_resume_pane_closed("11111111-1111-4111-8111-111111111111");
    let mut merged = vec![session("x", 1), session("a", 20), session("a", 3)];
    merged.push(session("b", 4));
    app.ssh_resumes.merge_rows(&mut merged, &source());
    assert_eq!(merged.len(), 5);
    assert_eq!(merged[0], session("x", 1));
    assert_eq!(merged[1].status, AgentStatus::Idle);
    assert_eq!(merged[1].pane_session_id.as_deref(), Some(PANE));
    assert_eq!(merged[1].last_activity_at, 20);
    assert_eq!(merged[2], session("a", 3));
    assert_eq!(merged[3], session("b", 4));
    assert_eq!(merged[4], session("c", 5));
    let mut again = merged.clone();
    app.ssh_resumes.merge_rows(&mut again, &source());
    assert_eq!(again, merged);
    let mut older = vec![session("a", 3)];
    app.ssh_resumes.merge_rows(&mut older, &source());
    assert_eq!(older[0].last_activity_at, 10);
    let mut ended = vec![session("d", 3)];
    app.ssh_resumes.merge_rows(&mut ended, &source());
    assert_eq!(ended[0].status, AgentStatus::Ended);
    let mut elsewhere = vec![session("a", 3)];
    app.ssh_resumes.merge_rows(&mut elsewhere, &foreign());
    assert_eq!(elsewhere, vec![session("a", 3)]);
}

#[test]
fn added_rows_come_in_the_order_of_their_resumption() {
    let mut app = app();
    bind(&mut app, "b", 7, PANE, 10);
    launch(&mut app, "a", 8);
    app.ssh_resume_pane_closed(PANE);
    launch(&mut app, "b", 9);
    let mut merged = Vec::new();
    app.ssh_resumes.merge_rows(&mut merged, &source());
    let ids: Vec<&str> = merged.iter().map(|row| row.key.as_str()).collect();
    assert_eq!(ids, vec!["b", "a"]);
}

#[test]
fn refreshing_touches_only_loaded_remote_tabs() {
    let mut app = app();
    app.tab_sessions
        .push(tab("two", None, vec![session("a", 5)]));
    app.tab_sessions
        .push(tab("three", Some(foreign()), vec![session("a", 5)]));
    app.tab_sessions.push(tab("four", Some(source()), vec![]));
    app.tab_sessions[3].agents_view.snapshot = None;
    app.tab_sessions[2].selected = Some(4);
    bind(&mut app, "a", 7, PANE, 10);
    let selections = app.refresh_ssh_resume_snapshots();
    assert_eq!(
        selections,
        vec![
            TabSelection {
                tab_id: "one".to_string(),
                selected: 0
            },
            TabSelection {
                tab_id: "three".to_string(),
                selected: 4
            },
        ]
    );
    assert_eq!(rows(&app, 0)[0].status, AgentStatus::Idle);
    assert_eq!(rows(&app, 1)[0], session("a", 5));
    assert_eq!(rows(&app, 2)[0], session("a", 5));
    assert!(app.tab_sessions[3].agents_view.snapshot.is_none());
}

#[test]
fn failures_are_shown_in_the_tabs_that_list_the_session() {
    let mut app = app();
    app.tab_sessions.push(tab("two", None, vec![]));
    app.tab_sessions.push(tab("three", Some(foreign()), vec![]));
    app.tab_sessions.push(tab("four", Some(source()), vec![]));
    app.set_ssh_resume_error(&key("a"), Some("failure".to_string()));
    let shown: Vec<Option<&str>> = app
        .tab_sessions
        .iter()
        .map(|tab| tab.agents_view.ssh_error.as_deref())
        .collect();
    assert_eq!(shown, vec![Some("failure"), None, None, Some("failure")]);
    app.set_ssh_resume_error(&key("a"), None);
    assert!(app
        .tab_sessions
        .iter()
        .all(|tab| tab.agents_view.ssh_error.is_none()));
}

#[test]
fn a_new_table_is_empty() {
    let mut resumes = SshResumes::new();
    assert!(resumes.is_empty());
    assert!(resumes.keeps_no_closures());
    assert!(!resumes.any_launching());
    resumes.launch(key("a"), 7, session("a", 5));
    assert!(resumes.any_launching());
    assert!(!resumes.is_empty());
    resumes.clear_finished_closures();
    assert!(resumes.any_launching());
}
