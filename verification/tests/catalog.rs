use indexmap::IndexMap;
use orchestration::catalog::{
    ProcedureEdgeKind, ProcedureNodeKind, ProcedureSourceLabel, UpsertProcedureRequest,
    builtin_source_view, check_not_builtin, delete_result, find_procedure, graph_from_procedure,
    label_for, merge_catalog, run_request, source_label, stored_source_view, summaries,
};
use orchestration::json::{JsonNumber, JsonValue, object_insert};
use orchestration::lead_agent::ApiError;
use orchestration::loader::{builtin_procedure_yaml, builtin_procedure_yamls};
use orchestration::procedure::{
    Action, Gate, ParamSpec, ParamType, Procedure, State, Terminal, Triggers, ValidationError,
};
use orchestration::records::{ProcedureRecord, ProcedureSource};
use serde_yaml_ng::Value as Yaml;

fn json_of(v: &Yaml) -> JsonValue {
    match v {
        Yaml::Null => JsonValue::Null,
        Yaml::Bool(b) => JsonValue::Bool(*b),
        Yaml::Number(n) => {
            if let Some(u) = n.as_u64() {
                JsonValue::Number(JsonNumber::PosInt(u))
            } else if let Some(i) = n.as_i64() {
                JsonValue::Number(JsonNumber::NegInt(i))
            } else {
                JsonValue::Number(JsonNumber::Float(n.to_string()))
            }
        }
        Yaml::String(s) => JsonValue::String(s.clone()),
        Yaml::Sequence(xs) => JsonValue::Array(xs.iter().map(json_of).collect()),
        Yaml::Mapping(m) => {
            let mut entries = Vec::new();
            for (k, v) in m {
                object_insert(&mut entries, k.as_str().unwrap().to_string(), json_of(v));
            }
            JsonValue::Object(entries)
        }
        Yaml::Tagged(t) => json_of(&t.value),
    }
}

fn field<'a>(v: &'a Yaml, k: &str) -> Option<&'a Yaml> {
    v.get(k).filter(|x| !x.is_null())
}

fn text_of(v: &Yaml, k: &str) -> Option<String> {
    field(v, k).map(|x| x.as_str().expect("a string").to_string())
}

fn param_type(s: &str) -> ParamType {
    match s {
        "string" => ParamType::String,
        "integer" => ParamType::Integer,
        "boolean" => ParamType::Boolean,
        "array" => ParamType::Array,
        other => panic!("unknown param type {other}"),
    }
}

fn action_of(v: &Yaml) -> Action {
    match v.get("kind").and_then(|k| k.as_str()).unwrap() {
        "create_session" => Action::CreateSession {
            executor: text_of(v, "executor").unwrap(),
            prompt: text_of(v, "prompt").unwrap(),
        },
        "follow_up" => Action::FollowUp {
            session_ref: text_of(v, "session_ref").unwrap(),
            executor: text_of(v, "executor"),
            prompt: text_of(v, "prompt").unwrap(),
        },
        "start_review" => Action::StartReview {
            session_ref: text_of(v, "session_ref").unwrap(),
            executor: text_of(v, "executor").unwrap(),
            prompt: text_of(v, "prompt").unwrap(),
        },
        "merge" => Action::Merge {
            session_ref: text_of(v, "session_ref").unwrap(),
        },
        other => panic!("unknown action {other}"),
    }
}

fn gate_of(v: &Yaml) -> Gate {
    match v.get("kind").and_then(|k| k.as_str()).unwrap() {
        "deterministic" => Gate::Deterministic {
            run: text_of(v, "run").unwrap(),
            pass_when: text_of(v, "pass_when").unwrap(),
        },
        "llm_judge" => Gate::LlmJudge {
            pass_when: text_of(v, "pass_when").unwrap(),
        },
        "human" => Gate::Human {
            prompt: text_of(v, "prompt").unwrap(),
        },
        other => panic!("unknown gate {other}"),
    }
}

/// The procedure a YAML document describes, read field by field.
fn procedure_of(yaml: &str) -> Procedure {
    let doc: Yaml = serde_yaml_ng::from_str(yaml).unwrap();
    let mut params = IndexMap::new();
    let mut match_hints = Vec::new();
    if let Some(t) = field(&doc, "triggers") {
        if let Some(hs) = field(t, "match_hints") {
            for h in hs.as_sequence().unwrap() {
                match_hints.push(h.as_str().unwrap().to_string());
            }
        }
        if let Some(ps) = field(t, "params") {
            for (k, p) in ps.as_mapping().unwrap() {
                params.insert(
                    k.as_str().unwrap().to_string(),
                    ParamSpec {
                        ty: param_type(p.get("type").unwrap().as_str().unwrap()),
                        required: field(p, "required").map(|b| b.as_bool().unwrap()).unwrap_or(false),
                        description: text_of(p, "description"),
                        items: field(p, "items").map(|i| param_type(i.as_str().unwrap())),
                        default: field(p, "default").map(json_of),
                    },
                );
            }
        }
    }
    let mut states = IndexMap::new();
    for (k, s) in doc.get("states").unwrap().as_mapping().unwrap() {
        states.insert(
            k.as_str().unwrap().to_string(),
            State {
                action: field(s, "action").map(action_of),
                gate: field(s, "gate").map(gate_of),
                max_attempts: field(s, "max_attempts").map(|n| n.as_u64().unwrap() as u32),
                on_success: text_of(s, "on_success"),
                on_failure: text_of(s, "on_failure"),
                terminal: text_of(s, "terminal").map(|t| match t.as_str() {
                    "success" => Terminal::Success,
                    "failure" => Terminal::Failure,
                    other => panic!("unknown terminal {other}"),
                }),
            },
        );
    }
    Procedure {
        name: text_of(&doc, "name").unwrap(),
        version: doc.get("version").unwrap().as_u64().unwrap() as u32,
        description: text_of(&doc, "description").unwrap_or_default(),
        triggers: Triggers {
            match_hints,
            params,
        },
        initial_state: text_of(&doc, "initial_state").unwrap(),
        states,
    }
}

fn record(name: &str, source: &str) -> ProcedureRecord {
    ProcedureRecord {
        id: uuid::Uuid::new_v4().as_u128(),
        project_id: uuid::Uuid::new_v4().as_u128(),
        name: name.to_string(),
        version: 1,
        yaml: String::new(),
        source: source.to_string(),
        created_at: chrono::Utc::now().timestamp_millis(),
        updated_at: chrono::Utc::now().timestamp_millis(),
    }
}

#[test]
fn builtin_procedures_parse_and_validate() {
    let procs: Vec<Procedure> = builtin_procedure_yamls().iter().map(|y| procedure_of(y)).collect();
    assert!(!procs.is_empty());
    for p in &procs {
        assert_eq!(p.validate(), Ok(()));
    }
    let names: Vec<_> = procs.iter().map(|p| p.name.as_str()).collect();
    assert!(names.contains(&"feature_with_tests"));
}

#[test]
fn invalid_initial_state_is_rejected() {
    let yaml = r#"
name: bad
version: 1
initial_state: nope
states:
  start:
    terminal: success
"#;
    let err = procedure_of(yaml).validate().unwrap_err();
    assert!(matches!(err, ValidationError::MissingInitialState(s) if s == "nope"));
}

#[test]
fn unknown_transition_is_rejected() {
    let yaml = r#"
name: bad
version: 1
initial_state: start
states:
  start:
    action: { kind: merge, session_ref: x }
    on_success: missing
"#;
    let err = procedure_of(yaml).validate().unwrap_err();
    assert!(matches!(err, ValidationError::UnknownTransition { .. }));
}

#[test]
fn label_for_built_in_wins_over_stored_row() {
    let stored = vec![record("feature_with_tests", "user")];
    assert_eq!(
        label_for("feature_with_tests", &stored),
        ProcedureSourceLabel::Builtin
    );
}

#[test]
fn label_for_distinguishes_user_and_lead_agent_sources() {
    let stored = vec![record("ship_it", "user"), record("auto_yolo", "lead_agent")];
    assert_eq!(label_for("ship_it", &stored), ProcedureSourceLabel::User);
    assert_eq!(
        label_for("auto_yolo", &stored),
        ProcedureSourceLabel::LeadAgent
    );
}

#[test]
fn graph_from_builtin_smoke_success_has_terminal_and_step_nodes() {
    let yaml = builtin_procedure_yaml("smoke_success").unwrap();
    let proc = procedure_of(yaml);
    assert_eq!(proc.validate(), Ok(()));
    let graph = graph_from_procedure(&proc);
    assert_eq!(graph.name, "smoke_success");
    assert_eq!(graph.initial_state, "plan");

    let plan = graph.nodes.iter().find(|n| n.id == "plan").unwrap();
    assert_eq!(plan.kind, ProcedureNodeKind::Step);
    assert_eq!(plan.action_kind.as_deref(), Some("create_session"));
    assert_eq!(plan.gate_kind.as_deref(), Some("deterministic"));

    let merge = graph.nodes.iter().find(|n| n.id == "merge").unwrap();
    assert_eq!(merge.kind, ProcedureNodeKind::TerminalSuccess);

    let failed = graph.nodes.iter().find(|n| n.id == "failed").unwrap();
    assert_eq!(failed.kind, ProcedureNodeKind::TerminalFailure);

    assert!(graph.edges.iter().any(|e| e.from == "plan"
        && e.to == "review"
        && e.kind == ProcedureEdgeKind::Success));
    assert!(graph.edges.iter().any(|e| e.from == "plan"
        && e.to == "failed"
        && e.kind == ProcedureEdgeKind::Failure));
}

#[test]
fn label_for_falls_back_to_user_when_unknown() {
    let stored: Vec<ProcedureRecord> = vec![];
    assert_eq!(label_for("ghost", &stored), ProcedureSourceLabel::User);
}

#[test]
fn label_for_uses_first_stored_row() {
    let stored = vec![record("x", "lead_agent"), record("x", "user")];
    assert_eq!(label_for("x", &stored), ProcedureSourceLabel::LeadAgent);
    assert_eq!(source_label("lead_agent"), ProcedureSourceLabel::LeadAgent);
    assert_eq!(source_label("anything"), ProcedureSourceLabel::User);
}

#[test]
fn graph_lists_nodes_and_edges_in_state_order() {
    let proc = procedure_of(builtin_procedure_yaml("feature_with_tests").unwrap());
    let graph = graph_from_procedure(&proc);
    let ids: Vec<&str> = graph.nodes.iter().map(|n| n.id.as_str()).collect();
    assert_eq!(
        ids,
        vec!["plan", "test", "fix_tests", "review", "address_feedback", "approve", "merge", "done", "failed"]
    );
    let fix = &graph.nodes[2];
    assert_eq!(fix.action_kind.as_deref(), Some("follow_up"));
    assert_eq!(fix.gate_kind.as_deref(), Some("deterministic"));
    let approve = &graph.nodes[5];
    assert_eq!(approve.action_kind, None);
    assert_eq!(approve.gate_kind.as_deref(), Some("human"));
    assert_eq!(graph.edges.len(), 14);
    assert_eq!(
        (graph.edges[0].from.as_str(), graph.edges[0].to.as_str(), graph.edges[0].kind),
        ("plan", "test", ProcedureEdgeKind::Success)
    );
    assert_eq!(
        (graph.edges[1].from.as_str(), graph.edges[1].to.as_str(), graph.edges[1].kind),
        ("plan", "failed", ProcedureEdgeKind::Failure)
    );
}

#[test]
fn summaries_carry_labels() {
    let builtins: Vec<Procedure> = builtin_procedure_yamls().iter().map(|y| procedure_of(y)).collect();
    let mut custom = procedure_of(builtin_procedure_yaml("smoke_success").unwrap());
    custom.name = "custom".into();
    let procs = vec![builtins[0].clone(), custom];
    let stored = vec![record("custom", "lead_agent")];
    let s = summaries(&procs, &stored);
    assert_eq!(s.len(), 2);
    assert_eq!(s[0].name, "feature_with_tests");
    assert_eq!(s[0].version, 1);
    assert_eq!(s[0].initial_state, "plan");
    assert_eq!(s[0].source, ProcedureSourceLabel::Builtin);
    assert_eq!(s[1].name, "custom");
    assert_eq!(s[1].source, ProcedureSourceLabel::LeadAgent);
}

#[test]
fn catalog_merge_keeps_builtins_and_skips_shadows_and_broken_rows() {
    let builtins: Vec<Procedure> = builtin_procedure_yamls().iter().map(|y| procedure_of(y)).collect();
    let mut mine = procedure_of(builtin_procedure_yaml("smoke_success").unwrap());
    mine.name = "mine".into();
    let mut shadow = procedure_of(builtin_procedure_yaml("smoke_success").unwrap());
    shadow.description = "shadow".into();
    let stored = vec![
        ("smoke_success".to_string(), Some(shadow)),
        ("broken".to_string(), None),
        ("mine".to_string(), Some(mine)),
    ];
    let merged = merge_catalog(builtins, stored);
    let names: Vec<&str> = merged.iter().map(|p| p.name.as_str()).collect();
    assert_eq!(names, vec!["feature_with_tests", "smoke_success", "mine"]);
    assert_ne!(merged[1].description, "shadow");
}

#[test]
fn start_run_finds_procedure_and_builds_row() {
    let builtins: Vec<Procedure> = builtin_procedure_yamls().iter().map(|y| procedure_of(y)).collect();
    let p = find_procedure(builtins.clone(), "smoke_success").unwrap();
    assert_eq!(p.name, "smoke_success");
    match find_procedure(builtins, "nope") {
        Err(ApiError::BadRequest(m)) => assert_eq!(m, "unknown procedure `nope`"),
        _ => panic!("expected an unknown procedure"),
    }
    let row = run_request(&p, JsonValue::Null, Some(7));
    assert_eq!(row.procedure_name, "smoke_success");
    assert_eq!(row.procedure_version, 1);
    assert_eq!(row.initial_state, "plan");
    assert_eq!(row.workspace_id, Some(7));
    assert_eq!(row.params, JsonValue::Null);
}

#[test]
fn upsert_and_delete_rules() {
    let req = UpsertProcedureRequest {
        yaml: String::new(),
        source: Some("lead_agent".into()),
    };
    assert_eq!(req.requested_source(), ProcedureSource::LeadAgent);
    let req = UpsertProcedureRequest {
        yaml: String::new(),
        source: Some("robot".into()),
    };
    assert_eq!(req.requested_source(), ProcedureSource::User);
    let req = UpsertProcedureRequest {
        yaml: String::new(),
        source: None,
    };
    assert_eq!(req.requested_source(), ProcedureSource::User);

    let builtins: Vec<Procedure> = builtin_procedure_yamls().iter().map(|y| procedure_of(y)).collect();
    assert_eq!(check_not_builtin("mine", &builtins), Ok(()));
    assert_eq!(
        check_not_builtin("smoke_success", &builtins),
        Err(ApiError::Conflict(
            "procedure name `smoke_success` is a built-in and cannot be overridden".into()
        ))
    );
    assert_eq!(delete_result(true, "x"), Ok(()));
    assert_eq!(
        delete_result(false, "x"),
        Err(ApiError::BadRequest(
            "no project-local procedure named `x` (built-ins cannot be deleted)".into()
        ))
    );
}

#[test]
fn source_views() {
    let v = builtin_source_view("smoke_success".into()).unwrap();
    assert!(v.read_only);
    assert_eq!(v.source, ProcedureSourceLabel::Builtin);
    assert_eq!(v.yaml, builtin_procedure_yaml("smoke_success").unwrap());
    assert!(builtin_source_view("mine".into()).is_none());
    let mut r = record("mine", "lead_agent");
    r.yaml = "name: mine".into();
    let s = stored_source_view(r);
    assert!(!s.read_only);
    assert_eq!(s.name, "mine");
    assert_eq!(s.yaml, "name: mine");
    assert_eq!(s.source, ProcedureSourceLabel::LeadAgent);
}

#[test]
fn every_builtin_yaml_parses_to_a_procedure_of_its_name() {
    for name in orchestration::loader::builtin_procedure_names() {
        let yaml = builtin_procedure_yaml(name).unwrap();
        let p = procedure_of(yaml);
        assert_eq!(p.name, name);
        assert_eq!(p.validate(), Ok(()));
    }
}
