use indexmap::IndexMap;
use orchestration::gates::{
    ContextLlmJudge, DeterministicGateEvaluator, GateContext, GateOutcome, GateError,
};
use orchestration::json::{JsonNumber, JsonValue, object_insert};
use orchestration::procedure::{Action, Gate, Procedure, State, Terminal, Triggers};
use orchestration::run_log::{RunId, RunLog};
use orchestration::state_machine::{
    BackendCall, BackendError, Entry, ExecutionId, ExecutionOutput, ExecutorError, GateCall,
    GateKind, MergeOutcome, Reply, RunMachine, RunOutcome, SessionId, StateEvent, Step,
};

fn object(pairs: Vec<(&str, JsonValue)>) -> JsonValue {
    let mut entries = Vec::new();
    for (k, v) in pairs {
        object_insert(&mut entries, k.to_string(), v);
    }
    JsonValue::Object(entries)
}

fn parse(t: &str) -> JsonValue {
    fn conv(v: serde_json::Value) -> JsonValue {
        match v {
            serde_json::Value::Null => JsonValue::Null,
            serde_json::Value::Bool(b) => JsonValue::Bool(b),
            serde_json::Value::Number(n) => {
                if let Some(u) = n.as_u64() {
                    JsonValue::Number(JsonNumber::PosInt(u))
                } else if let Some(i) = n.as_i64() {
                    JsonValue::Number(JsonNumber::NegInt(i))
                } else {
                    JsonValue::Number(JsonNumber::Float(n.to_string()))
                }
            }
            serde_json::Value::String(s) => JsonValue::String(s),
            serde_json::Value::Array(a) => JsonValue::Array(a.into_iter().map(conv).collect()),
            serde_json::Value::Object(m) => {
                let mut entries = Vec::new();
                for (k, v) in m {
                    object_insert(&mut entries, k, conv(v));
                }
                JsonValue::Object(entries)
            }
        }
    }
    conv(serde_json::from_str(t).unwrap())
}

/// A backend whose replies the test scripts, recording what it was asked.
#[derive(Default)]
struct Script {
    create_calls: usize,
    follow_up_prompts: Vec<String>,
    review_reply: Option<String>,
    merge_conflict: bool,
}

impl Script {
    fn call(&mut self, c: BackendCall) -> Reply {
        match c {
            BackendCall::CreateSession { .. } => {
                self.create_calls += 1;
                Reply::Session(Ok(SessionId(format!("s{}", self.create_calls))))
            }
            BackendCall::FollowUp { prompt, .. } => {
                self.follow_up_prompts.push(prompt);
                Reply::Execution(Ok(ExecutionId("e-fu".into())))
            }
            BackendCall::StartReview { .. } => Reply::Execution(Ok(ExecutionId("e-rv".into()))),
            BackendCall::Merge { .. } => {
                if self.merge_conflict {
                    Reply::Merge(Ok(MergeOutcome::Conflict {
                        detail: "conflict".into(),
                    }))
                } else {
                    Reply::Merge(Ok(MergeOutcome::Merged {
                        commit_sha: "abc".into(),
                    }))
                }
            }
            BackendCall::AwaitCompletion { execution_id } => {
                let msg = if execution_id.0 == "e-rv" {
                    self.review_reply.clone()
                } else {
                    None
                };
                Reply::Output(Ok(ExecutionOutput {
                    stdout: String::new(),
                    stderr: String::new(),
                    exit_code: Some(0),
                    last_assistant_message: msg,
                }))
            }
        }
    }
}

/// Evaluates a gate the way the runtime does, with `exit N` commands
/// standing in for real shell commands.
fn evaluate(g: GateCall) -> Reply {
    let r: Result<GateOutcome, GateError> = match g.kind {
        GateKind::Deterministic => {
            let run = g.run.unwrap_or_default();
            let code: i32 = run
                .strip_prefix("exit ")
                .map(|n| n.trim().parse().unwrap())
                .unwrap_or(0);
            DeterministicGateEvaluator.judge(&g.pass_when, code, String::new(), String::new())
        }
        GateKind::LlmJudge => {
            let ctx = GateContext {
                run: None,
                pass_when: &g.pass_when,
                prompt: None,
                last_assistant_message: g.last_assistant_message.as_deref(),
            };
            match ContextLlmJudge.response_text(&ctx) {
                Ok(t) => ContextLlmJudge.judge(&ctx, parse(&t)),
                Err(e) => Err(e),
            }
        }
        GateKind::Human => Ok(GateOutcome {
            passed: true,
            output: None,
            response: None,
            summary: "human: approved".into(),
        }),
    };
    Reply::Gate(r)
}

fn run(p: &Procedure, params: JsonValue, script: &mut Script, log: &mut RunLog, id: RunId) -> Result<RunOutcome, ExecutorError> {
    let mut m = RunMachine::start(p, params)?;
    loop {
        assert!(m.can_enter());
        match m.enter(p) {
            Entry::Terminal(o) => {
                log.set_terminal(id, o);
                return Ok(o);
            }
            Entry::Failed(e) => return Err(e),
            Entry::Execute { .. } => {}
        }
        let mut step = m.begin_state(p);
        let (passed, event) = loop {
            step = match step {
                Step::Call(c) => {
                    let r = script.call(c);
                    assert!(m.expects(&r));
                    m.resume(p, r)
                }
                Step::Gate(g) => {
                    let r = evaluate(g);
                    assert!(m.expects(&r));
                    m.resume(p, r)
                }
                Step::Settled { passed, event } => break (passed, event),
                Step::Failed(e) => return Err(e),
            };
        };
        let c = m.conclude(p, passed, event);
        for (from, to, entry) in c.transitions {
            log.persist_transition(id, &from, &to, entry);
        }
        c.next?;
    }
}

fn terminal(t: Terminal) -> State {
    State {
        terminal: Some(t),
        ..Default::default()
    }
}

fn procedure(name: &str, initial: &str, states: IndexMap<String, State>) -> Procedure {
    Procedure {
        name: name.into(),
        version: 1,
        description: String::new(),
        triggers: Triggers {
            match_hints: vec![],
            params: IndexMap::new(),
        },
        initial_state: initial.into(),
        states,
    }
}

fn two_state_procedure() -> Procedure {
    let mut states = IndexMap::new();
    states.insert(
        "plan".to_string(),
        State {
            action: Some(Action::CreateSession {
                executor: "agent".to_string(),
                prompt: "plan".to_string(),
            }),
            on_success: Some("done".to_string()),
            on_failure: Some("failed".to_string()),
            ..Default::default()
        },
    );
    states.insert("done".to_string(), terminal(Terminal::Success));
    states.insert("failed".to_string(), terminal(Terminal::Failure));
    procedure("test", "plan", states)
}

fn retry_procedure(max_attempts: u32, on_failure: Option<&str>) -> Procedure {
    let mut states = IndexMap::new();
    states.insert(
        "start".to_string(),
        State {
            action: Some(Action::CreateSession {
                executor: "agent".to_string(),
                prompt: "go".to_string(),
            }),
            gate: Some(Gate::Deterministic {
                run: "exit 1".to_string(),
                pass_when: "exit_code == 0".to_string(),
            }),
            max_attempts: Some(max_attempts),
            on_success: Some("done".to_string()),
            on_failure: on_failure.map(|s| s.to_string()),
            ..Default::default()
        },
    );
    states.insert("done".to_string(), terminal(Terminal::Success));
    if on_failure.is_some() {
        states.insert("failed".to_string(), terminal(Terminal::Failure));
    }
    procedure("retry", "start", states)
}

#[test]
fn happy_path_reaches_terminal_success() {
    let mut log = RunLog::new();
    let id = RunId(1);
    let outcome = run(&two_state_procedure(), object(vec![]), &mut Script::default(), &mut log, id).unwrap();
    assert_eq!(outcome, RunOutcome::Success);
    assert_eq!(log.terminal(id), Some(RunOutcome::Success));
    let ts = log.transitions(id);
    assert_eq!(ts.len(), 1);
    assert_eq!((ts[0].0.as_str(), ts[0].1.as_str()), ("plan", "done"));
    assert_eq!(
        ts[0].2.event,
        StateEvent::ActionCompleted {
            action_kind: "create_session".into(),
            session_id: Some("s1".into()),
            execution_id: None
        }
    );
}

#[test]
fn terminal_state_stops_execution() {
    let mut proc = two_state_procedure();
    proc.initial_state = "done".to_string();
    let mut script = Script::default();
    let mut log = RunLog::new();
    let outcome = run(&proc, object(vec![]), &mut script, &mut log, RunId(2)).unwrap();
    assert_eq!(outcome, RunOutcome::Success);
    assert_eq!(script.create_calls, 0);
    assert!(log.transitions(RunId(2)).is_empty());
}

#[test]
fn unknown_transition_returns_error() {
    let mut states = IndexMap::new();
    states.insert(
        "plan".to_string(),
        State {
            action: Some(Action::CreateSession {
                executor: "agent".to_string(),
                prompt: "hi".to_string(),
            }),
            on_success: Some("ghost".to_string()),
            ..Default::default()
        },
    );
    let proc = procedure("bad", "plan", states);
    let mut script = Script::default();
    let err = run(&proc, object(vec![]), &mut script, &mut RunLog::new(), RunId(3)).unwrap_err();
    assert!(matches!(err, ExecutorError::Validation(_)));
    assert_eq!(script.create_calls, 0);
}

#[test]
fn max_attempts_exhaustion_falls_through_to_on_failure() {
    let proc = retry_procedure(2, Some("failed"));
    let mut script = Script::default();
    let mut log = RunLog::new();
    let outcome = run(&proc, object(vec![]), &mut script, &mut log, RunId(4)).unwrap();
    assert_eq!(outcome, RunOutcome::Failure);
    assert_eq!(script.create_calls, 2);
    let ts = log.transitions(RunId(4));
    let moves: Vec<(&str, &str)> = ts.iter().map(|t| (t.0.as_str(), t.1.as_str())).collect();
    assert_eq!(moves, vec![("start", "start"), ("start", "start"), ("start", "failed")]);
    assert_eq!(ts[1].2.event, StateEvent::MaxAttemptsExhausted { attempts: 2 });
    assert_eq!(ts[2].2.attempt, 2);
}

#[test]
fn missing_on_failure_after_exhaustion_errors() {
    let proc = retry_procedure(1, None);
    let err = run(&proc, object(vec![]), &mut Script::default(), &mut RunLog::new(), RunId(5)).unwrap_err();
    assert!(matches!(err, ExecutorError::MaxAttemptsExhausted { .. }));
}

#[test]
fn llm_judge_consumes_reviewer_output_and_feedback_flows_to_next_state() {
    let mut states = IndexMap::new();
    states.insert(
        "plan".into(),
        State {
            action: Some(Action::CreateSession {
                executor: "c".into(),
                prompt: "p".into(),
            }),
            on_success: Some("review".into()),
            ..Default::default()
        },
    );
    states.insert(
        "review".into(),
        State {
            action: Some(Action::StartReview {
                session_ref: "plan".into(),
                executor: "c".into(),
                prompt: "review".into(),
            }),
            gate: Some(Gate::LlmJudge {
                pass_when: "response.verdict == 'pass'".into(),
            }),
            on_success: Some("merge".into()),
            on_failure: Some("address".into()),
            ..Default::default()
        },
    );
    states.insert(
        "address".into(),
        State {
            action: Some(Action::FollowUp {
                session_ref: "plan".into(),
                executor: None,
                prompt: "fix: {{gate.response.feedback}}".into(),
            }),
            on_success: Some("done".into()),
            ..Default::default()
        },
    );
    states.insert("merge".into(), terminal(Terminal::Success));
    states.insert("done".into(), terminal(Terminal::Success));
    let proc = procedure("t", "plan", states);
    let mut script = Script {
        review_reply: Some(r#"{"verdict": "fail", "feedback": "needs tests"}"#.into()),
        ..Default::default()
    };
    let outcome = run(&proc, object(vec![]), &mut script, &mut RunLog::new(), RunId(6)).unwrap();
    assert_eq!(outcome, RunOutcome::Success);
    assert_eq!(script.follow_up_prompts.len(), 1);
    assert_eq!(script.follow_up_prompts[0], "fix: needs tests");
}

#[test]
fn unknown_session_ref_fails_the_run() {
    let mut states = IndexMap::new();
    states.insert(
        "merge".into(),
        State {
            action: Some(Action::Merge {
                session_ref: "plan".into(),
            }),
            on_success: Some("done".into()),
            ..Default::default()
        },
    );
    states.insert("done".into(), terminal(Terminal::Success));
    let proc = procedure("m", "merge", states);
    let err = run(&proc, object(vec![]), &mut Script::default(), &mut RunLog::new(), RunId(7)).unwrap_err();
    assert!(matches!(err, ExecutorError::UnknownSessionRef(s) if s == "plan"));
}

#[test]
fn merge_conflict_counts_as_failure() {
    let mut states = IndexMap::new();
    states.insert(
        "plan".into(),
        State {
            action: Some(Action::CreateSession {
                executor: "c".into(),
                prompt: "p {{goal}}".into(),
            }),
            on_success: Some("merge".into()),
            ..Default::default()
        },
    );
    states.insert(
        "merge".into(),
        State {
            action: Some(Action::Merge {
                session_ref: "plan".into(),
            }),
            on_success: Some("done".into()),
            on_failure: Some("failed".into()),
            ..Default::default()
        },
    );
    states.insert("done".into(), terminal(Terminal::Success));
    states.insert("failed".into(), terminal(Terminal::Failure));
    let proc = procedure("m", "plan", states);
    let mut script = Script {
        merge_conflict: true,
        ..Default::default()
    };
    let outcome = run(
        &proc,
        object(vec![("goal", JsonValue::String("x".into()))]),
        &mut script,
        &mut RunLog::new(),
        RunId(8),
    )
    .unwrap();
    assert_eq!(outcome, RunOutcome::Failure);
}

#[test]
fn backend_error_fails_the_run() {
    let proc = two_state_procedure();
    let mut m = RunMachine::start(&proc, object(vec![])).unwrap();
    assert!(matches!(m.enter(&proc), Entry::Execute { attempt: 1 }));
    let step = m.begin_state(&proc);
    assert!(matches!(step, Step::Call(BackendCall::CreateSession { .. })));
    let reply = Reply::Session(Err(BackendError::Generic("down".into())));
    assert!(m.expects(&reply));
    assert!(!m.expects(&Reply::Execution(Ok(ExecutionId("x".into())))));
    match m.resume(&proc, reply) {
        Step::Failed(ExecutorError::Backend(BackendError::Generic(msg))) => assert_eq!(msg, "down"),
        _ => panic!("expected a backend failure"),
    }
}

#[test]
fn run_log_keeps_runs_apart() {
    let mut log = RunLog::new();
    let a = RunId(10);
    let b = RunId(11);
    log.set_terminal(a, RunOutcome::Failure);
    log.set_terminal(a, RunOutcome::Success);
    assert_eq!(log.terminal(a), Some(RunOutcome::Success));
    assert_eq!(log.terminal(b), None);
    assert!(log.transitions(b).is_empty());
}

#[test]
fn invalid_procedure_gives_only_its_validation_error() {
    let proc = procedure("bad", "missing", IndexMap::new());
    let mut script = Script::default();
    let mut log = RunLog::new();
    let err = run(&proc, object(vec![]), &mut script, &mut log, RunId(9)).unwrap_err();
    assert!(matches!(err, ExecutorError::Validation(_)));
    assert_eq!(script.create_calls, 0);
    assert!(log.transitions(RunId(9)).is_empty());
    assert_eq!(log.terminal(RunId(9)), None);
}

#[test]
fn every_recorded_transition_leaves_a_declared_state() {
    let proc = retry_procedure(2, Some("failed"));
    let mut script = Script::default();
    let mut log = RunLog::new();
    let outcome = run(&proc, object(vec![]), &mut script, &mut log, RunId(10)).unwrap();
    assert_eq!(outcome, RunOutcome::Failure);
    let ts = log.transitions(RunId(10));
    assert!(!ts.is_empty());
    for (from, to, entry) in &ts {
        assert_eq!(&entry.state, from);
        assert!(proc.states.contains_key(from));
        assert!(proc.states.contains_key(to));
    }
    assert_eq!(ts.last().map(|t| t.1.as_str()), Some("failed"));
    assert_eq!(log.terminal(RunId(10)), Some(RunOutcome::Failure));
}
