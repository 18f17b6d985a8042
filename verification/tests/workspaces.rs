use orchestration::json::{JsonValue, object_insert};
use orchestration::lead_agent::ApiError;
use orchestration::records::{
    ProcedureRun, ProcedureRunStatus, ProjectLeadAgent, StateHistoryEntry,
};
use orchestration::workspaces::{
    CreateLocalProjectRequest, RepoInfo, WorkspaceInfo, WorkspaceSessionRoleKind, enrich_params,
    session_roles, workspace_hint,
};

fn text(s: &str) -> JsonValue {
    JsonValue::String(s.to_string())
}

fn object(pairs: Vec<(&str, JsonValue)>) -> JsonValue {
    let mut entries = Vec::new();
    for (k, v) in pairs {
        object_insert(&mut entries, k.to_string(), v);
    }
    JsonValue::Object(entries)
}

fn member<'a>(v: &'a JsonValue, key: &str) -> Option<&'a JsonValue> {
    v.get(&key.chars().collect())
}

fn uuid_text(id: u128) -> String {
    uuid::Uuid::from_u128(id).to_string()
}

fn entry(session: Option<String>) -> StateHistoryEntry {
    StateHistoryEntry {
        state: "s".into(),
        entered_at: 0,
        exited_at: Some(0),
        outcome: None,
        gate_summary: None,
        attempt: 1,
        session_id: session,
    }
}

fn run(id: u128, name: &str, sessions: Vec<Option<String>>) -> ProcedureRun {
    ProcedureRun {
        id,
        project_id: 1,
        procedure_name: name.into(),
        procedure_version: 1,
        current_state: "s".into(),
        status: "running".into(),
        params: JsonValue::Null,
        state_history: sessions.into_iter().map(entry).collect(),
        workspace_id: None,
        created_at: 0,
        updated_at: 0,
    }
}

#[test]
fn session_roles_prefer_lead_agent_then_most_recent_run() {
    let lead = ProjectLeadAgent {
        project_id: 77,
        session_id: 10,
        workspace_id: 5,
        created_at: 0,
        updated_at: 0,
    };
    // Runs come most recent first.
    let runs = vec![
        run(200, "newer", vec![Some(uuid_text(11)), None]),
        run(100, "older", vec![Some(uuid_text(11)), Some(uuid_text(12)), Some(uuid_text(10))]),
        run(50, "bad", vec![Some("not-a-uuid".into())]),
    ];
    let roles = session_roles(&[10, 11, 12, 13], &[lead], &runs);
    assert_eq!(roles.len(), 4);
    assert_eq!(roles[0].role, WorkspaceSessionRoleKind::LeadAgent);
    assert_eq!(roles[0].project_id, Some(77));
    assert_eq!(roles[0].run_id, None);
    assert_eq!(roles[1].role, WorkspaceSessionRoleKind::ProcedureWorker);
    assert_eq!(roles[1].run_id, Some(200));
    assert_eq!(roles[1].procedure_name.as_deref(), Some("newer"));
    assert_eq!(roles[2].run_id, Some(100));
    assert_eq!(roles[2].procedure_name.as_deref(), Some("older"));
    assert_eq!(roles[3].role, WorkspaceSessionRoleKind::User);
    assert_eq!(roles[3].session_id, 13);
}

#[test]
fn later_lead_binding_wins() {
    let a = ProjectLeadAgent { project_id: 1, session_id: 9, workspace_id: 5, created_at: 0, updated_at: 0 };
    let b = ProjectLeadAgent { project_id: 2, session_id: 9, workspace_id: 5, created_at: 0, updated_at: 0 };
    let roles = session_roles(&[9], &[a, b], &[]);
    assert_eq!(roles[0].project_id, Some(2));
}

#[test]
fn workspace_hint_prefers_explicit_then_params() {
    let id = uuid::Uuid::new_v4();
    let p = object(vec![("workspace_id", text(&id.to_string()))]);
    assert_eq!(workspace_hint(Some(3), &p), Some(3));
    assert_eq!(workspace_hint(None, &p), Some(id.as_u128()));
    assert_eq!(workspace_hint(None, &object(vec![("workspace_id", text("zz"))])), None);
    assert_eq!(workspace_hint(None, &JsonValue::Null), None);
}

#[test]
fn enrich_single_repo_workspace() {
    let ws = WorkspaceInfo {
        id: 0xabc,
        container_ref: Some("/w".into()),
        branch: "feat".into(),
    };
    let repos = vec![RepoInfo { id: 1, name: "app".into() }];
    let params = object(vec![("goal", text("g"))]);
    let out = enrich_params(params, &ws, &repos);
    assert_eq!(member(&out, "goal"), Some(&text("g")));
    assert_eq!(member(&out, "workspace_id"), Some(&text(&uuid_text(0xabc))));
    let w = member(&out, "workspace").unwrap();
    assert_eq!(member(w, "worktree_path"), Some(&text("/w/app")));
    assert_eq!(member(w, "workspace_path"), Some(&text("/w")));
    assert_eq!(member(w, "branch"), Some(&text("feat")));
    assert_eq!(member(w, "id"), Some(&text(&uuid_text(0xabc))));
    let expected_repos = JsonValue::Array(vec![object(vec![
        ("id", text(&uuid_text(1))),
        ("name", text("app")),
        ("path", text("/w/app")),
    ])]);
    assert_eq!(member(w, "repos"), Some(&expected_repos));
    let rendered = orchestration::template::render_template("cd {{workspace.worktree_path}}", &out);
    assert_eq!(rendered, "cd /w/app");
}

#[test]
fn enrich_keeps_caller_workspace_id_and_wraps_scalars() {
    let ws = WorkspaceInfo { id: 5, container_ref: None, branch: "b".into() };
    let repos = vec![RepoInfo { id: 1, name: "a".into() }, RepoInfo { id: 2, name: "b".into() }];
    let out = enrich_params(object(vec![("workspace_id", text("mine"))]), &ws, &repos);
    assert_eq!(member(&out, "workspace_id"), Some(&text("mine")));
    let w = member(&out, "workspace").unwrap();
    assert_eq!(member(w, "worktree_path"), Some(&text("")));
    let scalar = enrich_params(text("x"), &ws, &[]);
    assert_eq!(member(&scalar, "value"), Some(&text("x")));
    let null = enrich_params(JsonValue::Null, &ws, &[]);
    assert_eq!(member(&null, "value"), None);
    assert!(member(&null, "workspace").is_some());
}

#[test]
fn new_project_request_is_normalized() {
    let r = CreateLocalProjectRequest { name: "  demo ".into(), default_agent_working_dir: Some("  ".into()) };
    assert_eq!(r.normalized(), Ok(("demo".to_string(), None)));
    let r = CreateLocalProjectRequest { name: "demo".into(), default_agent_working_dir: Some(" /src ".into()) };
    assert_eq!(r.normalized(), Ok(("demo".to_string(), Some("/src".to_string()))));
    let r = CreateLocalProjectRequest { name: "   ".into(), default_agent_working_dir: None };
    assert_eq!(r.normalized(), Err(ApiError::BadRequest("project name is required".into())));
}

#[test]
fn cancelling_a_run() {
    let r = run(1, "p", vec![]);
    let c = r.cancelled().unwrap();
    assert_eq!(c.status, ProcedureRunStatus::Cancelled.as_str());
    let mut done = run(2, "p", vec![]);
    done.status = "succeeded".into();
    assert!(done.cancelled().is_none());
    let mut moving = run(3, "p", vec![]);
    moving.record_transition("next".into(), entry(None));
    assert_eq!(moving.current_state, "next");
    assert_eq!(moving.state_history.len(), 1);
}
