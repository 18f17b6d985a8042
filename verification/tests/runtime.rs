use orchestration::records::{ProcedureRunStatus, ProcedureSource, StateOutcome};
use orchestration::runtime::{
    BackendUrl, Poll, StubBackend, base_url_from, convert_entry, convert_entry_at,
    eq_ignore_ascii_case, follow_up_executor, is_truthy_flag, merge_repo, merged, poll_status,
    review_prompt, run_status_for, terminal_label, terminal_notice, awaiting_notice,
    uses_stub_backend, workspace_id_param,
};
use orchestration::json::{JsonValue, object_insert};
use orchestration::state_machine::{
    BackendError, ExecutorError, MergeOutcome, RunOutcome, StateEvent,
    StateHistoryEntry as OrchEntry,
};
use orchestration::uuids::{parse_uuid, uuid_string};

fn object(pairs: Vec<(&str, JsonValue)>) -> JsonValue {
    let mut entries = Vec::new();
    for (k, v) in pairs {
        object_insert(&mut entries, k.to_string(), v);
    }
    JsonValue::Object(entries)
}

fn message(e: BackendError) -> String {
    match e {
        BackendError::Generic(m) => m,
    }
}

#[test]
fn converts_gate_pass_to_success_outcome() {
    let orch = OrchEntry {
        state: "review".into(),
        attempt: 1,
        event: StateEvent::GateEvaluated {
            passed: true,
            summary: "all checks green".into(),
        },
    };
    let db = convert_entry("review", "merge", &orch);
    assert_eq!(db.state, "review");
    assert_eq!(db.attempt, 1);
    assert_eq!(db.outcome, Some(StateOutcome::Success));
    assert_eq!(db.gate_summary.as_deref(), Some("all checks green"));
}

#[test]
fn converts_gate_fail_to_failure_outcome() {
    let orch = OrchEntry {
        state: "test".into(),
        attempt: 2,
        event: StateEvent::GateEvaluated {
            passed: false,
            summary: "2 tests failed".into(),
        },
    };
    let db = convert_entry("test", "test", &orch);
    assert_eq!(db.outcome, Some(StateOutcome::Failure));
    assert_eq!(db.attempt, 2);
}

#[test]
fn converts_retry_action_to_failure_outcome() {
    let orch = OrchEntry {
        state: "implement".into(),
        attempt: 1,
        event: StateEvent::ActionCompleted {
            action_kind: "follow_up".into(),
            session_id: Some("s1".into()),
            execution_id: Some("e1".into()),
        },
    };
    let db = convert_entry("implement", "implement", &orch);
    assert_eq!(db.outcome, Some(StateOutcome::Failure));
    assert_eq!(db.gate_summary.as_deref(), Some("action: follow_up"));
}

#[test]
fn converts_progressing_action_to_success_outcome() {
    let orch = OrchEntry {
        state: "plan".into(),
        attempt: 1,
        event: StateEvent::ActionCompleted {
            action_kind: "create_session".into(),
            session_id: Some("s1".into()),
            execution_id: None,
        },
    };
    let db = convert_entry("plan", "implement", &orch);
    assert_eq!(db.outcome, Some(StateOutcome::Success));
}

#[test]
fn converts_max_attempts_exhausted_to_failure() {
    let orch = OrchEntry {
        state: "test".into(),
        attempt: 3,
        event: StateEvent::MaxAttemptsExhausted { attempts: 3 },
    };
    let db = convert_entry("test", "failed", &orch);
    assert_eq!(db.outcome, Some(StateOutcome::Failure));
    assert!(db.gate_summary.as_deref().unwrap().contains("exhausted"));
}

#[test]
fn converted_entries_carry_session_and_time() {
    let orch = OrchEntry {
        state: "plan".into(),
        attempt: 4,
        event: StateEvent::ActionCompleted {
            action_kind: "create_session".into(),
            session_id: Some("s9".into()),
            execution_id: None,
        },
    };
    let db = convert_entry_at("plan", "next", &orch, 1234);
    assert_eq!(db.entered_at, 1234);
    assert_eq!(db.exited_at, Some(1234));
    assert_eq!(db.session_id.as_deref(), Some("s9"));
    assert_eq!(db.gate_summary.as_deref(), Some("action: create_session"));
    let ex = OrchEntry {
        state: "t".into(),
        attempt: 12,
        event: StateEvent::MaxAttemptsExhausted { attempts: 12 },
    };
    let d2 = convert_entry_at("t", "t", &ex, 0);
    assert_eq!(
        d2.gate_summary.as_deref(),
        Some("max_attempts exhausted after 12 tries")
    );
    assert_eq!(d2.session_id, None);
}

#[test]
fn stored_names_of_statuses_and_sources() {
    assert_eq!(ProcedureRunStatus::Running.as_str(), "running");
    assert_eq!(ProcedureRunStatus::Succeeded.as_str(), "succeeded");
    assert_eq!(ProcedureRunStatus::Failed.as_str(), "failed");
    assert_eq!(ProcedureRunStatus::Cancelled.as_str(), "cancelled");
    assert_eq!(ProcedureSource::User.as_str(), "user");
    assert_eq!(ProcedureSource::LeadAgent.as_str(), "lead_agent");
}

#[test]
fn run_outcomes_and_labels() {
    assert_eq!(run_status_for(RunOutcome::Success), ProcedureRunStatus::Succeeded);
    assert_eq!(run_status_for(RunOutcome::Failure), ProcedureRunStatus::Failed);
    assert_eq!(terminal_label(&Ok(RunOutcome::Success)), "succeeded");
    assert_eq!(terminal_label(&Ok(RunOutcome::Failure)), "failed");
    assert_eq!(
        terminal_label(&Err(ExecutorError::UnknownState("x".into()))),
        "failed"
    );
}

#[test]
fn configuration_flags() {
    assert!(is_truthy_flag("1"));
    assert!(is_truthy_flag("TRUE"));
    assert!(is_truthy_flag("Yes"));
    assert!(!is_truthy_flag(""));
    assert!(!is_truthy_flag("on"));
    assert!(!is_truthy_flag("true "));
    assert!(uses_stub_backend("STUB"));
    assert!(uses_stub_backend("stub"));
    assert!(!uses_stub_backend("stubby"));
    assert!(eq_ignore_ascii_case("ÄbC", "Äbc"));
    assert!(!eq_ignore_ascii_case("Ä", "ä"));
}

#[test]
fn base_url_resolution() {
    assert_eq!(
        base_url_from(Some("http://x:1"), Some("h"), Some("2"), Some("3")),
        Ok("http://x:1".to_string())
    );
    assert_eq!(
        base_url_from(None, None, Some("8080"), Some("9")),
        Ok("http://127.0.0.1:8080".to_string())
    );
    assert_eq!(
        base_url_from(None, Some("example"), None, Some("9")),
        Ok("http://example:9".to_string())
    );
    assert_eq!(
        base_url_from(None, Some("example"), None, None),
        Err("neither VIBE_BACKEND_URL nor BACKEND_PORT is set".to_string())
    );
    let b = BackendUrl::new("http://host:1///");
    assert_eq!(b.base_url, "http://host:1");
    assert_eq!(b.url("/api/sessions"), "http://host:1/api/sessions");
}

#[test]
fn stub_backend_answers() {
    let stub = StubBackend;
    assert_eq!(
        stub.merge(),
        MergeOutcome::Merged {
            commit_sha: "stub-merge-commit".into()
        }
    );
    let out = stub.completion();
    assert_eq!(out.stdout, "stub");
    assert_eq!(out.exit_code, Some(0));
    assert_eq!(
        out.last_assistant_message.as_deref(),
        Some(r#"{"verdict":"pass","feedback":"stub approved"}"#)
    );
    let a = stub.create_session();
    let b = stub.create_session();
    assert_ne!(a, b);
    assert!(parse_uuid(&a.0).is_ok());
    assert!(parse_uuid(&stub.follow_up().0).is_ok());
    assert!(parse_uuid(&stub.start_review().0).is_ok());
}

#[test]
fn merge_requires_exactly_one_repo() {
    assert_eq!(merge_repo("w", &vec!["r1".to_string()]).ok(), Some("r1".to_string()));
    let none = merge_repo("w", &vec![]).unwrap_err();
    assert_eq!(message(none), "workspace w has no repos to merge");
    let many = merge_repo("w", &vec!["a".into(), "b".into()]).unwrap_err();
    let m = message(many);
    assert!(m.contains("exactly one"), "got: {m}");
    assert_eq!(
        m,
        "workspace w has 2 repos; merge expects exactly one. Multi-repo merge is not yet supported."
    );
    assert_eq!(
        merged("w", "r"),
        MergeOutcome::Merged {
            commit_sha: "workspace:w/repo:r".into()
        }
    );
}

#[test]
fn execution_polling() {
    assert!(matches!(poll_status("e", "running", None), Poll::Pending));
    assert!(matches!(
        poll_status("e", "completed", Some(3)),
        Poll::Completed { exit_code: Some(3) }
    ));
    assert!(matches!(
        poll_status("e", "completed", Some(1 << 32)),
        Poll::Completed { exit_code: Some(0) }
    ));
    match poll_status("e1", "failed", Some(0)) {
        Poll::Failed(e) => assert_eq!(message(e), "execution e1 ended with status `failed`"),
        _ => panic!("expected failure"),
    }
}

#[test]
fn request_details() {
    assert_eq!(review_prompt(""), None);
    assert_eq!(review_prompt("look"), Some("look".to_string()));
    assert_eq!(follow_up_executor(Some("A"), "s", Some("B".into())).ok(), Some("A".to_string()));
    assert_eq!(follow_up_executor(None, "s", Some("B".into())).ok(), Some("B".to_string()));
    assert_eq!(
        message(follow_up_executor(None, "s", None).unwrap_err()),
        "session s has no executor set"
    );
}

#[test]
fn workspace_param_is_read_as_uuid() {
    let id = uuid::Uuid::new_v4();
    let p = object(vec![("workspace_id", JsonValue::String(id.to_string()))]);
    assert_eq!(workspace_id_param(&p).ok(), Some(id.as_u128()));
    let missing = object(vec![]);
    assert_eq!(
        message(workspace_id_param(&missing).unwrap_err()),
        "params.workspace_id is required for VkApiBackend create_session"
    );
    let bad = object(vec![("workspace_id", JsonValue::String("nope".into()))]);
    let m = message(workspace_id_param(&bad).unwrap_err());
    assert!(m.starts_with("invalid workspace_id `nope`: "), "got: {m}");
}

#[test]
fn uuid_text_round_trips() {
    let id = uuid::Uuid::new_v4();
    assert_eq!(uuid_string(id.as_u128()), id.to_string());
    assert_eq!(parse_uuid(&id.to_string()), Ok(id.as_u128()));
    assert_eq!(
        uuid_string(0x0123_4567_89ab_cdef_0123_4567_89ab_cdef),
        "01234567-89ab-cdef-0123-456789abcdef"
    );
}

#[test]
fn lead_agent_notices() {
    let run = 0x0123_4567_89ab_cdef_0123_4567_89ab_cdef;
    assert_eq!(
        terminal_notice(run, "smoke", "succeeded", "done"),
        "[procedure-runtime] Run 01234567 (smoke) finished: succeeded. final_state=done. (System event from the runtime — surface to the user as a brief notification.)"
    );
    assert_eq!(
        awaiting_notice(run, "smoke", "approve", "ship?"),
        "[procedure-runtime] Run 01234567 (smoke) is awaiting human approval at state `approve`. Gate prompt: \"ship?\". You can call `approve_procedure_run` or `reject_procedure_run` with run_id=01234567-89ab-cdef-0123-456789abcdef once the user gives the go-ahead. Surface this to the user."
    );
}

#[test]
fn run_ids_are_random_version_4_uuids() {
    let a = orchestration::run_log::RunId::new();
    let b = orchestration::run_log::RunId::new();
    assert_ne!(a, b);
    let u = uuid::Uuid::from_u128(a.0);
    assert_eq!(u.get_version_num(), 4);
    assert_eq!(u.get_variant(), uuid::Variant::RFC4122);
}
