use indexmap::IndexMap;
use orchestration::json::{JsonValue, object_insert};
use orchestration::lead_agent::{
    ApiError, PlanError, build_prompt, pick_plan, plan_error_to_api, planner_prompt,
    planner_reply_json,
};
use orchestration::procedure::{ParamSpec, ParamType, Procedure, State, Terminal, Triggers};

fn text(s: &str) -> JsonValue {
    JsonValue::String(s.to_string())
}

fn object(pairs: Vec<(&str, JsonValue)>) -> JsonValue {
    let mut entries = Vec::new();
    for (k, v) in pairs {
        object_insert(&mut entries, k.to_string(), v);
    }
    JsonValue::Object(entries)
}

fn make_procedure(name: &str) -> Procedure {
    let mut states = IndexMap::new();
    states.insert(
        "done".to_string(),
        State {
            terminal: Some(Terminal::Success),
            ..Default::default()
        },
    );
    Procedure {
        name: name.to_string(),
        version: 1,
        description: "test".to_string(),
        triggers: Triggers {
            match_hints: vec![],
            params: IndexMap::new(),
        },
        initial_state: "done".to_string(),
        states,
    }
}

#[test]
fn build_prompt_lists_procedures_and_params() {
    let p = make_procedure("smoke");
    let prompt = build_prompt("add a thing", &[p]);
    assert!(prompt.contains("smoke"));
    assert!(prompt.contains("add a thing"));
    assert!(prompt.contains("procedure_name"));
}

#[test]
fn build_prompt_exact_text() {
    let mut p = make_procedure("feature");
    p.description = "  Build it.\n".into();
    p.triggers.match_hints = vec!["add a feature".into(), "implement".into()];
    let mut params = IndexMap::new();
    params.insert(
        "goal".to_string(),
        ParamSpec {
            ty: ParamType::String,
            required: true,
            description: Some(" What to do. ".into()),
            items: None,
            default: None,
        },
    );
    params.insert(
        "tries".to_string(),
        ParamSpec {
            ty: ParamType::Integer,
            required: false,
            description: None,
            items: None,
            default: None,
        },
    );
    p.triggers.params = params;
    let mut q = make_procedure("bare");
    q.description = String::new();
    let prompt = build_prompt("ship", &[p, q]);
    let expected = "You are picking a procedure for the user's goal.\n\nAvailable procedures:\n\
- feature — Build it.\n    params:\n      - goal (string, required): What to do.\n      - tries (integer, optional)\n    use when: add a feature, implement\n\
- bare\n\
\nUser goal:\nship\n\n\
Respond with a single JSON object and nothing else: {\"procedure_name\": \"...\", \"params\": {...}}. Include all required params for the picked procedure. Do not include `workspace_id` (the caller injects it). Do not run any commands or modify files; only emit the JSON.\n";
    assert_eq!(prompt, expected);
}

#[test]
fn planner_needs_procedures_and_a_reply() {
    assert!(matches!(planner_prompt("g", &[]), Err(PlanError::NoProcedures)));
    assert!(planner_prompt("g", &[make_procedure("a")]).is_ok());
    assert_eq!(planner_reply_json(None), Err(PlanError::NoAssistantMessage));
    assert_eq!(
        planner_reply_json(Some("sure: {\"procedure_name\": \"a\"} ok")),
        Ok("{\"procedure_name\": \"a\"}".to_string())
    );
    let long: String = std::iter::repeat('x').take(250).collect();
    match planner_reply_json(Some(&long)) {
        Err(PlanError::NotJson(m)) => assert_eq!(m.chars().count(), 200),
        other => panic!("unexpected {other:?}"),
    }
    assert_eq!(
        planner_reply_json(Some("no json")),
        Err(PlanError::NotJson("no json".into()))
    );
}

#[test]
fn picking_a_plan() {
    let procs = vec![make_procedure("a"), make_procedure("b")];
    let resp = object(vec![
        ("procedure_name", text("b")),
        ("params", object(vec![("goal", text("g"))])),
    ]);
    let plan = pick_plan(&resp, &procs, "raw".into()).unwrap();
    assert_eq!(plan.procedure_name, "b");
    assert_eq!(plan.params, object(vec![("goal", text("g"))]));
    assert_eq!(plan.raw_assistant_message.as_deref(), Some("raw"));

    let no_params = object(vec![("procedure_name", text("a"))]);
    let plan = pick_plan(&no_params, &procs, "raw".into()).unwrap();
    assert_eq!(plan.params, object(vec![]));

    let unknown = object(vec![("procedure_name", text("zzz"))]);
    assert!(matches!(
        pick_plan(&unknown, &procs, "raw".into()),
        Err(PlanError::UnknownProcedure(n)) if n == "zzz"
    ));
    let missing = object(vec![("name", text("a"))]);
    assert!(matches!(
        pick_plan(&missing, &procs, "raw".into()),
        Err(PlanError::MissingProcedureName)
    ));
    let wrong_type = object(vec![("procedure_name", JsonValue::Bool(true))]);
    assert!(matches!(
        pick_plan(&wrong_type, &procs, "raw".into()),
        Err(PlanError::MissingProcedureName)
    ));
}

#[test]
fn plan_errors_map_to_http_answers() {
    assert_eq!(
        plan_error_to_api(PlanError::Backend("down".into())),
        ApiError::BadGateway("backend: down".into())
    );
    assert_eq!(
        plan_error_to_api(PlanError::NoProcedures),
        ApiError::BadRequest("no built-in procedures available".into())
    );
    assert_eq!(
        plan_error_to_api(PlanError::UnknownProcedure("x".into())),
        ApiError::BadRequest("planner picked unknown procedure `x`".into())
    );
    assert_eq!(
        PlanError::MissingProcedureName.message(),
        "planner JSON missing field `procedure_name`"
    );
    assert_eq!(
        PlanError::NotJson("t".into()).message(),
        "planner output is not parseable JSON: t"
    );
    assert_eq!(
        PlanError::NoAssistantMessage.message(),
        "planner returned no assistant message"
    );
}
