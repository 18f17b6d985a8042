use indexmap::IndexMap;
use orchestration::json::{JsonNumber, JsonValue, object_insert};
use orchestration::procedure::{
    ParamError, ParamSpec, ParamType, Procedure, State, Terminal, Triggers, ValidationError,
};

fn text(s: &str) -> JsonValue {
    JsonValue::String(s.to_string())
}

fn object(pairs: Vec<(&str, JsonValue)>) -> JsonValue {
    let mut entries = Vec::new();
    for (k, v) in pairs {
        object_insert(&mut entries, k.to_string(), v);
    }
    JsonValue::Object(entries)
}

fn member<'a>(v: &'a JsonValue, key: &str) -> Option<&'a JsonValue> {
    v.get(&key.chars().collect())
}

fn proc_with_params(params: IndexMap<String, ParamSpec>) -> Procedure {
    let mut states = IndexMap::new();
    states.insert(
        "start".to_string(),
        State {
            terminal: Some(Terminal::Success),
            ..Default::default()
        },
    );
    Procedure {
        name: "p".to_string(),
        version: 1,
        description: String::new(),
        triggers: Triggers {
            match_hints: vec![],
            params,
        },
        initial_state: "start".to_string(),
        states,
    }
}

fn spec(ty: ParamType, required: bool, default: Option<JsonValue>) -> ParamSpec {
    ParamSpec {
        ty,
        required,
        description: None,
        items: None,
        default,
    }
}

#[test]
fn validate_rejects_default_with_wrong_type() {
    let mut params = IndexMap::new();
    params.insert(
        "count".to_string(),
        spec(ParamType::Integer, false, Some(text("not-a-number"))),
    );
    let proc = proc_with_params(params);
    assert_eq!(
        proc.validate(),
        Err(ValidationError::DefaultTypeMismatch {
            name: "count".into()
        })
    );
}

#[test]
fn validate_and_fill_rejects_missing_required() {
    let mut params = IndexMap::new();
    params.insert("goal".to_string(), spec(ParamType::String, true, None));
    let proc = proc_with_params(params);
    let err = proc.validate_and_fill_params(object(vec![])).unwrap_err();
    assert_eq!(err, ParamError::MissingRequired("goal".into()));
}

#[test]
fn validate_and_fill_uses_default_when_missing_optional() {
    let mut params = IndexMap::new();
    params.insert(
        "test_command".to_string(),
        spec(ParamType::String, false, Some(text("npm test"))),
    );
    let proc = proc_with_params(params);
    let merged = proc.validate_and_fill_params(object(vec![])).unwrap();
    assert_eq!(member(&merged, "test_command"), Some(&text("npm test")));
}

#[test]
fn validate_and_fill_caller_value_wins_over_default() {
    let mut params = IndexMap::new();
    params.insert(
        "test_command".to_string(),
        spec(ParamType::String, false, Some(text("npm test"))),
    );
    let proc = proc_with_params(params);
    let merged = proc
        .validate_and_fill_params(object(vec![("test_command", text("yarn test"))]))
        .unwrap();
    assert_eq!(member(&merged, "test_command"), Some(&text("yarn test")));
}

#[test]
fn validate_and_fill_rejects_type_mismatch() {
    let mut params = IndexMap::new();
    params.insert("count".to_string(), spec(ParamType::Integer, true, None));
    let proc = proc_with_params(params);
    let err = proc
        .validate_and_fill_params(object(vec![("count", text("twelve"))]))
        .unwrap_err();
    assert!(matches!(err, ParamError::TypeMismatch { .. }));
}

#[test]
fn validate_and_fill_passes_through_unknown_keys() {
    let proc = proc_with_params(IndexMap::new());
    let merged = proc
        .validate_and_fill_params(object(vec![("workspace_id", text("abc"))]))
        .unwrap();
    assert_eq!(member(&merged, "workspace_id"), Some(&text("abc")));
}

#[test]
fn matches_type_array_with_items_validates_each_element() {
    let array_spec = spec(
        ParamType::Array,
        false,
        Some(JsonValue::Array(vec![text("a"), text("b")])),
    );
    let array_spec = ParamSpec {
        items: Some(ParamType::String),
        ..array_spec
    };
    assert!(array_spec.matches_type(&JsonValue::Array(vec![text("one"), text("two")])));
    assert!(!array_spec.matches_type(&JsonValue::Array(vec![
        text("one"),
        JsonValue::Number(JsonNumber::PosInt(2)),
    ])));
}

#[test]
fn type_mismatch_reports_expected_and_actual_types() {
    let mut params = IndexMap::new();
    params.insert("count".to_string(), spec(ParamType::Integer, true, None));
    let proc = proc_with_params(params);
    let err = proc
        .validate_and_fill_params(object(vec![("count", text("twelve"))]))
        .unwrap_err();
    assert_eq!(
        err,
        ParamError::TypeMismatch {
            name: "count".into(),
            expected: ParamType::Integer,
            actual: "string".into()
        }
    );
}

#[test]
fn null_param_counts_as_missing_and_gets_default() {
    let mut params = IndexMap::new();
    params.insert(
        "test_command".to_string(),
        spec(ParamType::String, false, Some(text("npm test"))),
    );
    let proc = proc_with_params(params);
    let merged = proc
        .validate_and_fill_params(object(vec![("test_command", JsonValue::Null)]))
        .unwrap();
    assert_eq!(member(&merged, "test_command"), Some(&text("npm test")));
}

#[test]
fn non_object_params_are_kept_under_value() {
    let proc = proc_with_params(IndexMap::new());
    let merged = proc.validate_and_fill_params(text("hello")).unwrap();
    assert_eq!(merged, object(vec![("value", text("hello"))]));
    let from_null = proc.validate_and_fill_params(JsonValue::Null).unwrap();
    assert_eq!(from_null, object(vec![]));
}

#[test]
fn float_is_not_an_integer() {
    let s = spec(ParamType::Integer, false, None);
    assert!(!s.matches_type(&JsonValue::Number(JsonNumber::Float("1.5".into()))));
    assert!(s.matches_type(&JsonValue::Number(JsonNumber::NegInt(-3))));
    assert!(s.matches_type(&JsonValue::Null));
}

fn two_states(on_success: Option<&str>) -> Procedure {
    let mut states = IndexMap::new();
    states.insert(
        "start".to_string(),
        State {
            gate: Some(orchestration::procedure::Gate::Human {
                prompt: "ok?".into(),
            }),
            on_success: on_success.map(|s| s.to_string()),
            ..Default::default()
        },
    );
    states.insert(
        "done".to_string(),
        State {
            terminal: Some(Terminal::Success),
            ..Default::default()
        },
    );
    Procedure {
        name: "p".to_string(),
        version: 1,
        description: String::new(),
        triggers: Triggers {
            match_hints: vec![],
            params: IndexMap::new(),
        },
        initial_state: "start".to_string(),
        states,
    }
}

#[test]
fn validate_rejects_unknown_transition_and_missing_initial_state() {
    assert_eq!(two_states(Some("done")).validate(), Ok(()));
    assert_eq!(
        two_states(Some("nowhere")).validate(),
        Err(ValidationError::UnknownTransition {
            from: "start".into(),
            to: "nowhere".into(),
            field: "on_success"
        })
    );
    let mut p = two_states(Some("done"));
    p.initial_state = "nope".into();
    assert_eq!(
        p.validate(),
        Err(ValidationError::MissingInitialState("nope".into()))
    );
}

#[test]
fn validate_rejects_empty_and_terminal_with_transitions() {
    let mut p = two_states(Some("done"));
    p.states.insert("idle".into(), State::default());
    assert_eq!(p.validate(), Err(ValidationError::EmptyState("idle".into())));
    let mut q = two_states(Some("done"));
    q.states.insert(
        "end".into(),
        State {
            terminal: Some(Terminal::Failure),
            on_failure: Some("done".into()),
            ..Default::default()
        },
    );
    assert_eq!(
        q.validate(),
        Err(ValidationError::TerminalWithTransitions("end".into()))
    );
}

#[test]
fn required_param_is_refused_when_missing_even_with_default() {
    let mut params = IndexMap::new();
    params.insert(
        "goal".to_string(),
        spec(ParamType::String, true, Some(text("anything"))),
    );
    let proc = proc_with_params(params);
    assert_eq!(
        proc.validate_and_fill_params(object(vec![])).unwrap_err(),
        ParamError::MissingRequired("goal".into())
    );
    assert_eq!(
        proc.validate_and_fill_params(object(vec![("goal", JsonValue::Null)]))
            .unwrap_err(),
        ParamError::MissingRequired("goal".into())
    );
    let merged = proc
        .validate_and_fill_params(object(vec![("goal", text("ship"))]))
        .unwrap();
    assert_eq!(member(&merged, "goal"), Some(&text("ship")));
}

#[test]
fn default_for_null_param_replaces_it_without_repeating_the_key() {
    let mut params = IndexMap::new();
    params.insert("mode".to_string(), spec(ParamType::String, false, Some(text("fast"))));
    let proc = proc_with_params(params);
    let filled = proc
        .validate_and_fill_params(object(vec![("mode", JsonValue::Null), ("extra", text("x"))]))
        .unwrap();
    match &filled {
        JsonValue::Object(entries) => {
            let keys: Vec<&str> = entries.iter().map(|(k, _)| k.as_str()).collect();
            assert_eq!(keys, vec!["mode", "extra"]);
        }
        other => panic!("expected an object, got {other:?}"),
    }
    assert_eq!(member(&filled, "mode"), Some(&text("fast")));
}
