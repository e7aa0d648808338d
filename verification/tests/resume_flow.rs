//! Whole resumptions, from the key press to the answers of a terminal that replies
//! from a script.

use serde_json::Value;
use ssh_resume::app::App;
use ssh_resume::binding::{ResumePhase, SshResumeOutcome};
use ssh_resume::key::{SshSessionKey, SshSessionsSource};
use ssh_resume::requests::{report_creation, report_focus, ResumeStep};
use ssh_resume::session::{
    AgentSession, AgentStatus, CliSource, SessionLocation, SessionOrigin, SshTarget,
};
use ssh_resume::tabs::{AgentsView, TabSession};
use std::collections::VecDeque;

const PANE: &str = "11111111-1111-4111-8111-111111111111";
const OTHER_PANE: &str = "22222222-2222-4222-8222-222222222222";
const TAB: &str = "default-tab";

struct Reply {
    method: &'static str,
    result: Result<Value, String>,
}

fn object(fields: Vec<(&str, Value)>) -> Value {
    let mut map = serde_json::Map::new();
    for (name, value) in fields {
        map.insert(name.to_string(), value);
    }
    Value::Object(map)
}

fn created(pane_id: &str) -> Reply {
    Reply {
        method: "create_tab",
        result: Ok(object(vec![("session_id", Value::from(pane_id))])),
    }
}

fn focused() -> Reply {
    Reply {
        method: "focus_pane",
        result: Ok(object(vec![])),
    }
}

fn failed(method: &'static str, message: &str) -> Reply {
    Reply {
        method,
        result: Err(message.to_string()),
    }
}

struct Completed {
    key: SshSessionKey,
    operation_id: u128,
    outcome: SshResumeOutcome,
}

struct Harness {
    app: App,
    calls: Vec<(String, Value)>,
    replies: VecDeque<Reply>,
    events: VecDeque<Completed>,
}

impl Harness {
    fn new(replies: Vec<Reply>) -> Self {
        let mut app = App::new(TAB.to_string(), true);
        app.tab_sessions.push(TabSession {
            id: TAB.to_string(),
            agents_view: AgentsView {
                ssh_source: None,
                ssh_error: None,
                snapshot: None,
            },
            selected: None,
        });
        let mut harness = Harness {
            app,
            calls: Vec::new(),
            replies: replies.into(),
            events: VecDeque::new(),
        };
        harness.show_source(&source("remote"), vec![history(&source("remote"))]);
        harness
    }

    fn request(&mut self, method: &str, params: Value) -> Result<Value, String> {
        self.calls.push((method.to_string(), params));
        let reply = self.replies.pop_front().expect("unexpected terminal request");
        assert_eq!(reply.method, method);
        reply.result
    }

    fn perform(&mut self, step: ResumeStep) {
        match step {
            ResumeStep::Nothing | ResumeStep::Refused { .. } => {}
            ResumeStep::CreateTab {
                key,
                operation_id,
                commandline,
                title,
            } => {
                let params = object(vec![
                    ("commandline", Value::from(commandline)),
                    ("title", Value::from(title)),
                ]);
                let reply = self.request("create_tab", params).and_then(|response| {
                    response
                        .get("session_id")
                        .and_then(Value::as_str)
                        .map(str::to_string)
                        .ok_or_else(|| "the answer names no pane".to_string())
                });
                let (outcome, focus) = report_creation(reply);
                self.events.push_back(Completed {
                    key: key.clone(),
                    operation_id,
                    outcome,
                });
                if let Some(pane_id) = focus {
                    self.perform(ResumeStep::FocusPane {
                        key,
                        operation_id,
                        pane_id,
                    });
                }
            }
            ResumeStep::FocusPane {
                key,
                operation_id,
                pane_id,
            } => {
                let params = object(vec![("session_id", Value::from(pane_id.clone()))]);
                let reply = self.request("focus_pane", params).map(|_| ());
                if let Some(outcome) = report_focus(pane_id, reply) {
                    self.events.push_back(Completed {
                        key,
                        operation_id,
                        outcome,
                    });
                }
            }
        }
    }

    /// The key press: the step is decided at once and performed after it.
    fn press(&mut self) -> ResumeStep {
        let row = self.row();
        self.app
            .start_ssh_session_resume(&row, "ssh.exe remote agent".to_string(), Ok(()))
            .expect("an SSH session can be resumed")
    }

    fn enter(&mut self) {
        let step = self.press();
        self.perform(step);
    }

    fn next_event(&mut self) {
        let event = self.events.pop_front().expect("an event is due");
        self.app
            .handle_ssh_resume_completed(&event.key, event.operation_id, event.outcome);
    }

    fn rows(&self) -> Vec<AgentSession> {
        self.app.tab_sessions[0]
            .agents_view
            .snapshot
            .as_ref()
            .expect("the rows are loaded")
            .clone()
    }

    fn row(&self) -> AgentSession {
        self.rows().into_iter().next().expect("there is a row")
    }

    fn error(&self) -> Option<&str> {
        self.app.tab_sessions[0].agents_view.ssh_error.as_deref()
    }

    fn show_source(&mut self, source: &SshSessionsSource, rows: Vec<AgentSession>) {
        let tab = &mut self.app.tab_sessions[0];
        tab.agents_view.ssh_source = Some(source.clone());
        tab.agents_view.snapshot = Some(rows);
        tab.selected = Some(0);
    }

    /// The agent's history was loaded anew.
    fn refresh(&mut self, source: &SshSessionsSource, rows: Vec<AgentSession>) {
        let mut rows = rows;
        self.app.ssh_resumes.merge_rows(&mut rows, source);
        self.app.tab_sessions[0].agents_view.snapshot = Some(rows);
    }
}

fn cli(agent_id: &str) -> CliSource {
    CliSource {
        name: agent_id.to_string(),
    }
}

fn source_of(destination: &str, port: Option<u16>, agent_id: &str) -> SshSessionsSource {
    SshSessionsSource {
        target: SshTarget {
            destination: destination.to_string(),
            port,
        },
        cli: Some(cli(agent_id)),
    }
}

fn source(destination: &str) -> SshSessionsSource {
    source_of(destination, None, "copilot")
}

fn history(source: &SshSessionsSource) -> AgentSession {
    AgentSession {
        key: "same-id".to_string(),
        cli_source: source.cli.clone().expect("the agent is known"),
        location: SessionLocation::Ssh {
            target: source.target.clone(),
        },
        title: "Remote conversation".to_string(),
        cwd: "/home/me/project".to_string(),
        status: AgentStatus::Historical,
        origin: SessionOrigin::Unknown,
        pane_session_id: None,
        last_activity_at: 0,
    }
}

#[test]
fn successful_resume_displays_idle_with_unknown_origin_and_repeat_enter_focuses() {
    let mut h = Harness::new(vec![created(PANE), focused(), focused()]);
    let step = h.press();
    assert!(h.app.ssh_resume_pending(&h.row()));
    assert_eq!(h.row().status, AgentStatus::Historical);
    let again = h.press();
    assert_eq!(again, ResumeStep::Nothing);
    h.perform(step);
    h.next_event();
    assert_eq!(h.calls.len(), 2);
    let row = h.row();
    assert_eq!(row.status, AgentStatus::Idle);
    assert_eq!(row.pane_session_id.as_deref(), Some(PANE));
    assert_eq!(row.origin, SessionOrigin::Unknown);
    assert_eq!(row.title, "Remote conversation");
    assert!(row.last_activity_at > 0);

    h.enter();
    assert_eq!(h.calls.len(), 3);
    assert_eq!(
        h.calls
            .iter()
            .filter(|(method, _)| method == "create_tab")
            .count(),
        1
    );
    assert_eq!(
        h.calls.last().unwrap(),
        &(
            "focus_pane".to_string(),
            object(vec![("session_id", Value::from(PANE))])
        )
    );
    assert!(h.calls[0].1["commandline"]
        .as_str()
        .unwrap()
        .contains("ssh.exe"));
    assert!(h.calls[0].1.get("cwd").is_none());
}

#[test]
fn refresh_and_reopen_preserve_the_live_binding_even_if_history_temporarily_omits_it() {
    let mut h = Harness::new(vec![created(PANE), focused()]);
    h.enter();
    h.next_event();
    h.refresh(&source("remote"), vec![history(&source("remote"))]);
    assert_eq!(h.row().status, AgentStatus::Idle);
    assert_eq!(h.row().pane_session_id.as_deref(), Some(PANE));
    h.refresh(&source("remote"), Vec::new());
    assert_eq!(h.row().status, AgentStatus::Idle);

    h.app.tab_sessions[0].agents_view.snapshot = None;
    assert!(h.app.refresh_ssh_resume_snapshots().is_empty());
    h.app.tab_sessions[0].agents_view.snapshot = Some(Vec::new());
    let selections = h.app.refresh_ssh_resume_snapshots();
    assert_eq!(h.row().status, AgentStatus::Idle);
    assert_eq!(selections.len(), 1);
    assert_eq!(selections[0].tab_id, TAB);
    assert_eq!(selections[0].selected, 0);
}

#[test]
fn create_failure_releases_pending_state_and_allows_retry_without_false_idle() {
    let mut h = Harness::new(vec![
        failed("create_tab", "creation failed"),
        created(PANE),
        focused(),
    ]);
    h.enter();
    h.next_event();
    assert!(!h.app.ssh_resume_pending(&h.row()));
    assert_eq!(h.row().status, AgentStatus::Historical);
    assert!(h.row().pane_session_id.is_none());
    assert!(h.error().unwrap().contains("creation failed"));
    h.enter();
    h.next_event();
    assert_eq!(h.row().status, AgentStatus::Idle);
    assert!(h.error().is_none());
}

#[test]
fn malformed_creation_responses_do_not_publish_idle_or_focus_an_arbitrary_pane() {
    for response in [
        object(vec![]),
        object(vec![("session_id", Value::from(""))]),
        object(vec![("session_id", Value::from("-t"))]),
        object(vec![("session_id", Value::from(1))]),
        object(vec![(
            "session_id",
            Value::from(uuid::Uuid::nil().to_string()),
        )]),
    ] {
        let mut h = Harness::new(vec![Reply {
            method: "create_tab",
            result: Ok(response),
        }]);
        h.enter();
        h.next_event();
        assert_eq!(h.row().status, AgentStatus::Historical);
        assert!(h.row().pane_session_id.is_none());
        assert!(h.error().is_some());
        assert!(h.app.ssh_resumes.is_empty());
        assert_eq!(h.calls.len(), 1);
    }
}

#[test]
fn native_close_or_failure_ends_only_the_bound_remote_pane_and_allows_resume() {
    for _state in ["closed", "failed"] {
        let mut h = Harness::new(vec![
            created(PANE),
            focused(),
            created(OTHER_PANE),
            focused(),
        ]);
        h.enter();
        h.next_event();
        h.app.ssh_resume_pane_closed(OTHER_PANE);
        assert_eq!(h.row().status, AgentStatus::Idle);
        h.app.ssh_resume_pane_closed(PANE);
        assert_eq!(h.row().status, AgentStatus::Ended);
        assert!(h.row().pane_session_id.is_none());
        h.refresh(&source("remote"), vec![history(&source("remote"))]);
        assert_eq!(h.row().status, AgentStatus::Ended);
        h.enter();
        h.next_event();
        assert_eq!(h.row().status, AgentStatus::Idle);
        assert_eq!(h.row().pane_session_id.as_deref(), Some(OTHER_PANE));
    }
}

#[test]
fn closure_before_creation_reply_cannot_resurrect_a_dead_pane() {
    let mut h = Harness::new(vec![created(PANE), focused()]);
    h.enter();
    h.app.ssh_resume_pane_closed(&format!("{{{PANE}}}"));
    assert!(!h.app.ssh_resumes.keeps_no_closures());
    h.next_event();
    assert_eq!(h.row().status, AgentStatus::Ended);
    assert!(h.row().pane_session_id.is_none());
    assert!(h.app.ssh_resumes.keeps_no_closures());
}

#[test]
fn focus_infrastructure_failure_preserves_idle_but_missing_pane_ends_it() {
    for (message, status) in [
        ("RPC unavailable", AgentStatus::Idle),
        ("FocusPane failed: 0x80070490", AgentStatus::Ended),
    ] {
        let mut h = Harness::new(vec![
            created(PANE),
            focused(),
            failed("focus_pane", message),
        ]);
        h.enter();
        h.next_event();
        assert_eq!(h.calls.len(), 2);
        h.enter();
        h.next_event();
        assert_eq!(h.row().status, status);
        assert_eq!(
            h.row().pane_session_id.is_some(),
            status == AgentStatus::Idle
        );
        assert!(h.error().unwrap().contains(message));
    }
}

#[test]
fn automatic_focus_failure_keeps_the_created_pane_bound() {
    let mut h = Harness::new(vec![created(PANE), failed("focus_pane", "focus failed")]);
    h.enter();
    h.next_event();
    h.next_event();
    assert_eq!(h.row().status, AgentStatus::Idle);
    assert_eq!(h.row().pane_session_id.as_deref(), Some(PANE));
    assert!(h.error().unwrap().contains("focus failed"));
}

#[test]
fn late_completion_after_source_switch_never_changes_the_foreign_view() {
    let mut h = Harness::new(vec![created(PANE), focused()]);
    h.enter();
    let foreign = source("other-host");
    h.show_source(&foreign, vec![history(&foreign)]);
    h.next_event();
    assert_eq!(h.row().status, AgentStatus::Historical);
    assert!(h.row().pane_session_id.is_none());
    assert!(h.error().is_none());
    h.show_source(&source("remote"), vec![history(&source("remote"))]);
    h.app.refresh_ssh_resume_snapshots();
    assert_eq!(h.row().status, AgentStatus::Idle);
}

#[test]
fn binding_identity_includes_host_port_agent_and_session_not_just_session_id() {
    let mut h = Harness::new(vec![created(PANE), focused()]);
    h.enter();
    h.next_event();
    for foreign in [
        source("other-host"),
        source_of("remote", Some(2222), "copilot"),
        source_of("remote", None, "another-agent"),
    ] {
        h.show_source(&foreign, vec![history(&foreign)]);
        h.app.refresh_ssh_resume_snapshots();
        assert_eq!(h.row().status, AgentStatus::Historical);
        assert!(h.row().pane_session_id.is_none());
    }
    let own = source("remote");
    let mut another = history(&own);
    another.key = "different-id".to_string();
    h.show_source(&own, vec![another]);
    h.app.refresh_ssh_resume_snapshots();
    let rows = h.rows();
    assert_eq!(
        rows.iter()
            .find(|row| row.key == "different-id")
            .unwrap()
            .status,
        AgentStatus::Historical
    );
    assert_eq!(
        rows.iter().find(|row| row.key == "same-id").unwrap().status,
        AgentStatus::Idle
    );
}

#[test]
fn old_operation_results_cannot_overwrite_a_replacement_binding() {
    let mut h = Harness::new(vec![
        created(PANE),
        focused(),
        created(OTHER_PANE),
        focused(),
    ]);
    h.enter();
    h.next_event();
    let key = SshSessionKey::from_session(&h.row()).unwrap();
    let old_id = h.app.ssh_resumes.get(&key).unwrap().operation_id;
    h.app.ssh_resume_pane_closed(PANE);
    h.enter();
    assert!(h
        .app
        .handle_ssh_resume_completed(
            &key,
            old_id,
            SshResumeOutcome::Created(Err("stale creation".to_string())),
        )
        .is_none());
    assert!(h.app.ssh_resume_pending(&h.row()));
    h.next_event();
    assert!(h
        .app
        .handle_ssh_resume_completed(
            &key,
            old_id,
            SshResumeOutcome::FocusFailed {
                pane_id: PANE.to_string(),
                error: "0x80070490".to_string(),
            },
        )
        .is_none());
    assert_eq!(h.row().status, AgentStatus::Idle);
    assert_eq!(h.row().pane_session_id.as_deref(), Some(OTHER_PANE));
}

#[test]
fn binding_survives_owner_tab_rename_and_closing_the_view() {
    let mut h = Harness::new(vec![created(PANE), focused()]);
    h.enter();
    let key = SshSessionKey::from_session(&h.row()).unwrap();
    h.app.tab_sessions[0].id = "renamed-tab".to_string();
    h.app.current_tab_id = "renamed-tab".to_string();
    h.next_event();
    assert_eq!(h.rows()[0].status, AgentStatus::Idle);
    h.app.tab_sessions[0].agents_view.snapshot = None;
    h.app.ssh_resume_pane_closed(PANE);
    let binding = h.app.ssh_resumes.get(&key).unwrap();
    assert!(matches!(binding.phase, ResumePhase::Ended));
    assert!(binding.session.pane_session_id.is_none());
}
