use orchestration::gates::{
    ApprovalResult, AutoApprove, ContextLlmJudge, DeterministicGateEvaluator, GateContext,
    GateError, HumanGateEvaluator, LlmJudgeGateEvaluator, evaluate_exit_code_expr,
    evaluate_llm_expr, extract_json_object, strip_quotes,
};
use orchestration::json::{JsonNumber, JsonValue, object_insert};

fn text(s: &str) -> JsonValue {
    JsonValue::String(s.to_string())
}

fn object(pairs: Vec<(&str, JsonValue)>) -> JsonValue {
    let mut entries = Vec::new();
    for (k, v) in pairs {
        object_insert(&mut entries, k.to_string(), v);
    }
    JsonValue::Object(entries)
}

/// The JSON value of a text, built with serde_json and carried over.
fn parse(t: &str) -> JsonValue {
    fn conv(v: serde_json::Value) -> JsonValue {
        match v {
            serde_json::Value::Null => JsonValue::Null,
            serde_json::Value::Bool(b) => JsonValue::Bool(b),
            serde_json::Value::Number(n) => {
                if let Some(u) = n.as_u64() {
                    JsonValue::Number(JsonNumber::PosInt(u))
                } else if let Some(i) = n.as_i64() {
                    JsonValue::Number(JsonNumber::NegInt(i))
                } else {
                    JsonValue::Number(JsonNumber::Float(n.to_string()))
                }
            }
            serde_json::Value::String(s) => JsonValue::String(s),
            serde_json::Value::Array(a) => JsonValue::Array(a.into_iter().map(conv).collect()),
            serde_json::Value::Object(m) => {
                let mut entries = Vec::new();
                for (k, v) in m {
                    object_insert(&mut entries, k, conv(v));
                }
                JsonValue::Object(entries)
            }
        }
    }
    conv(serde_json::from_str(t).unwrap())
}

fn member<'a>(v: &'a JsonValue, key: &str) -> Option<&'a JsonValue> {
    v.get(&key.chars().collect())
}

fn ctx<'a>(pass_when: &'a str, message: Option<&'a str>) -> GateContext<'a> {
    GateContext {
        run: None,
        pass_when,
        prompt: None,
        last_assistant_message: message,
    }
}

#[test]
fn deterministic_gate_passes_on_zero_exit() {
    let gate = DeterministicGateEvaluator;
    let outcome = gate
        .judge("exit_code == 0", 0, "hello\n".to_string(), String::new())
        .unwrap();
    assert!(outcome.passed);
    assert!(outcome.output.as_deref().unwrap().contains("hello"));
    assert_eq!(outcome.summary, "exit_code=0 pass_when=`exit_code == 0`");
}

#[test]
fn deterministic_gate_fails_on_nonzero_exit() {
    let gate = DeterministicGateEvaluator;
    let outcome = gate
        .judge("exit_code == 0", 3, String::new(), String::new())
        .unwrap();
    assert!(!outcome.passed);
    assert_eq!(outcome.summary, "exit_code=3 pass_when=`exit_code == 0`");
}

#[test]
fn deterministic_gate_exact_exit_code_match() {
    let gate = DeterministicGateEvaluator;
    let outcome = gate
        .judge("exit_code == 7", 7, String::new(), String::new())
        .unwrap();
    assert!(outcome.passed);
}

#[test]
fn deterministic_gate_combines_streams() {
    let gate = DeterministicGateEvaluator;
    let both = gate
        .judge("exit_code != 0", -1, "out".into(), "err".into())
        .unwrap();
    assert!(both.passed);
    assert_eq!(both.output.as_deref(), Some("out\nerr"));
    assert_eq!(both.summary, "exit_code=-1 pass_when=`exit_code != 0`");
    let only_err = gate
        .judge("exit_code == 0", 0, String::new(), "err".into())
        .unwrap();
    assert_eq!(only_err.output.as_deref(), Some("err"));
}

#[test]
fn exit_code_expressions() {
    assert!(evaluate_exit_code_expr("exit_code == 0", 0).unwrap());
    assert!(evaluate_exit_code_expr("  exit_code   ==   -2 ", -2).unwrap());
    assert!(!evaluate_exit_code_expr("exit_code != 5", 5).unwrap());
    assert!(evaluate_exit_code_expr("exit_code != 5", 4).unwrap());
    assert!(matches!(
        evaluate_exit_code_expr("exit_code < 5", 4),
        Err(GateError::UnsupportedExpression(e)) if e == "exit_code < 5"
    ));
    assert!(matches!(
        evaluate_exit_code_expr("status == 0", 0),
        Err(GateError::UnsupportedExpression(_))
    ));
    assert!(matches!(
        evaluate_exit_code_expr("exit_code == zero", 0),
        Err(GateError::UnsupportedExpression(_))
    ));
    assert!(matches!(
        evaluate_exit_code_expr("exit_code == 99999999999", 0),
        Err(GateError::UnsupportedExpression(_))
    ));
}

#[test]
fn llm_judge_gate_passes_when_path_matches() {
    let gate = LlmJudgeGateEvaluator::new(());
    let response = object(vec![("verdict", text("pass")), ("feedback", text(""))]);
    let outcome = gate
        .judge(&ctx("response.verdict == 'pass'", None), response)
        .unwrap();
    assert!(outcome.passed);
    assert_eq!(outcome.summary, "llm_judge pass_when=`response.verdict == 'pass'`");
}

#[test]
fn llm_judge_gate_fails_when_path_mismatches() {
    let gate = LlmJudgeGateEvaluator::new(());
    let response = object(vec![("verdict", text("fail"))]);
    let outcome = gate
        .judge(&ctx("response.verdict == 'pass'", None), response)
        .unwrap();
    assert!(!outcome.passed);
}

#[test]
fn llm_judge_gate_walks_nested_path() {
    let gate = LlmJudgeGateEvaluator::new(());
    let response = object(vec![("review", object(vec![("status", text("ok"))]))]);
    let outcome = gate
        .judge(&ctx("response.review.status == 'ok'", None), response)
        .unwrap();
    assert!(outcome.passed);
}

#[test]
fn llm_expressions_and_errors() {
    let response = object(vec![
        ("score", JsonValue::Number(JsonNumber::PosInt(3))),
        ("note", text("two  words")),
    ]);
    assert!(evaluate_llm_expr("response.score == \"3\"", &response).unwrap());
    assert!(evaluate_llm_expr("response.score != '4'", &response).unwrap());
    assert!(evaluate_llm_expr("response.note == 'two words'", &response).is_ok());
    assert!(matches!(
        evaluate_llm_expr("response.missing == 'x'", &response),
        Err(GateError::MissingResponsePath(p)) if p == "missing"
    ));
    assert!(matches!(
        evaluate_llm_expr("verdict == 'x'", &response),
        Err(GateError::UnsupportedExpression(_))
    ));
    assert!(matches!(
        evaluate_llm_expr("response.score == 3", &response),
        Err(GateError::UnsupportedExpression(_))
    ));
    assert!(matches!(
        evaluate_llm_expr("response.score", &response),
        Err(GateError::UnsupportedExpression(_))
    ));
}

#[test]
fn human_gate_auto_approve_passes() {
    let source = AutoApprove(ApprovalResult::Approved);
    let gate = HumanGateEvaluator::new(source);
    let outcome = gate.judge(gate.source.approval());
    assert!(outcome.passed);
    assert_eq!(outcome.summary, "human: approved");
}

#[test]
fn human_gate_auto_reject_fails() {
    let gate = HumanGateEvaluator::new(AutoApprove(ApprovalResult::Rejected));
    let outcome = gate.judge(gate.source.approval());
    assert!(!outcome.passed);
    assert_eq!(outcome.summary, "human: rejected");
}

#[test]
fn context_judge_parses_direct_json_and_passes() {
    let gate = ContextLlmJudge;
    let raw = r#"{"verdict": "pass", "feedback": "fine"}"#;
    let c = ctx("response.verdict == 'pass'", Some(raw));
    let json_text = gate.response_text(&c).unwrap();
    assert_eq!(json_text, raw);
    let outcome = gate.judge(&c, parse(&json_text)).unwrap();
    assert!(outcome.passed);
    assert_eq!(
        member(outcome.response.as_ref().unwrap(), "feedback"),
        Some(&text("fine"))
    );
    assert_eq!(outcome.output.as_deref(), Some(raw));
}

#[test]
fn context_judge_extracts_json_embedded_in_prose() {
    let gate = ContextLlmJudge;
    let raw = "Here is my review.\n\n```json\n{\"verdict\": \"fail\", \"feedback\": \"tests missing\"}\n```\nHope that helps.";
    let c = ctx("response.verdict == 'pass'", Some(raw));
    let json_text = gate.response_text(&c).unwrap();
    assert_eq!(json_text, "{\"verdict\": \"fail\", \"feedback\": \"tests missing\"}");
    let outcome = gate.judge(&c, parse(&json_text)).unwrap();
    assert!(!outcome.passed);
    assert_eq!(
        member(outcome.response.as_ref().unwrap(), "verdict"),
        Some(&text("fail"))
    );
}

#[test]
fn context_judge_errors_when_no_message() {
    let gate = ContextLlmJudge;
    let err = gate
        .response_text(&ctx("response.verdict == 'pass'", None))
        .unwrap_err();
    assert!(matches!(err, GateError::MissingResponse));
}

#[test]
fn context_judge_errors_when_no_json_present() {
    let gate = ContextLlmJudge;
    let err = gate
        .response_text(&ctx(
            "response.verdict == 'pass'",
            Some("I reviewed it and it looks fine."),
        ))
        .unwrap_err();
    assert!(matches!(err, GateError::UnsupportedExpression(_)));
}

#[test]
fn extract_json_object_cases() {
    assert_eq!(extract_json_object("  [1, 2] ").as_deref(), Some("[1, 2]"));
    assert_eq!(
        extract_json_object("see {\"a\": \"}{\"} and {\"b\": 1}").as_deref(),
        Some("{\"a\": \"}{\"}")
    );
    assert_eq!(
        extract_json_object("{not json} then {\"ok\": true}").as_deref(),
        None
    );
    assert_eq!(
        extract_json_object("x {\"n\": {\"m\": \"\\\"\"}} y").as_deref(),
        Some("{\"n\": {\"m\": \"\\\"\"}}")
    );
    assert_eq!(extract_json_object("no braces at all"), None);
}

#[test]
fn strip_quotes_cases() {
    assert_eq!(strip_quotes("'pass'").as_deref(), Some("pass"));
    assert_eq!(strip_quotes("\"pass\"").as_deref(), Some("pass"));
    assert_eq!(strip_quotes("''").as_deref(), Some(""));
    assert_eq!(strip_quotes("'pass\""), None);
    assert_eq!(strip_quotes("pass"), None);
    assert_eq!(strip_quotes("'"), None);
}
