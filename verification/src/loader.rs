//! The procedures bundled with the library, as YAML text.
use vstd::prelude::*;

use crate::text::chars_eq_str;

verus! {

/// Plan, implement and test a feature, get it reviewed, then merge.
pub const FEATURE_WITH_TESTS: &'static str = r#"name: feature_with_tests
version: 1
description: >
  Plan and implement a feature with tests in a workspace, run the tests,
  get the change reviewed, address review feedback, and merge once a human
  approves.
triggers:
  match_hints:
    - add a feature
    - implement a change with tests
  params:
    goal:
      type: string
      required: true
      description: What the feature should do.
    test_command:
      type: string
      required: false
      description: Command that runs the project's tests.
      default: npm test
initial_state: plan
states:
  plan:
    action:
      kind: create_session
      executor: CLAUDE_CODE
      prompt: "Plan and implement the following goal, including tests: {{goal}}"
    on_success: test
    on_failure: failed
  test:
    gate:
      kind: deterministic
      run: "cd {{workspace.worktree_path}} && {{test_command}}"
      pass_when: "exit_code == 0"
    on_success: review
    on_failure: fix_tests
  fix_tests:
    action:
      kind: follow_up
      session_ref: plan
      prompt: "The tests failed. Fix them. Test output: {{gate.output}}"
    gate:
      kind: deterministic
      run: "cd {{workspace.worktree_path}} && {{test_command}}"
      pass_when: "exit_code == 0"
    max_attempts: 3
    on_success: review
    on_failure: failed
  review:
    action:
      kind: start_review
      session_ref: plan
      executor: CLAUDE_CODE
      prompt: "Review the change for: {{goal}}. Answer with a JSON object {\"verdict\": \"pass\" or \"fail\", \"feedback\": \"...\"}."
    gate:
      kind: llm_judge
      pass_when: "response.verdict == 'pass'"
    on_success: approve
    on_failure: address_feedback
  address_feedback:
    action:
      kind: follow_up
      session_ref: plan
      prompt: "Address this review feedback: {{gate.response.feedback}}"
    on_success: test
    on_failure: failed
  approve:
    gate:
      kind: human
      prompt: "Merge the change for: {{goal}}?"
    on_success: merge
    on_failure: failed
  merge:
    action:
      kind: merge
      session_ref: plan
    on_success: done
    on_failure: failed
  done:
    terminal: success
  failed:
    terminal: failure
"#;

/// A minimal procedure that succeeds end to end, for exercising the runtime.
pub const SMOKE_SUCCESS: &'static str = r#"name: smoke_success
version: 1
description: Minimal procedure that plans, reviews and finishes successfully.
triggers:
  match_hints:
    - smoke test the procedure runtime
initial_state: plan
states:
  plan:
    action:
      kind: create_session
      executor: CLAUDE_CODE
      prompt: "Smoke test: reply with a short acknowledgement."
    gate:
      kind: deterministic
      run: "true"
      pass_when: "exit_code == 0"
    on_success: review
    on_failure: failed
  review:
    action:
      kind: start_review
      session_ref: plan
      executor: CLAUDE_CODE
      prompt: "Answer with a JSON object {\"verdict\": \"pass\", \"feedback\": \"...\"}."
    gate:
      kind: llm_judge
      pass_when: "response.verdict == 'pass'"
    on_success: merge
    on_failure: failed
  merge:
    action:
      kind: merge
      session_ref: plan
    terminal: success
  failed:
    terminal: failure
"#;

/// The names of the built-in procedures, in their canonical order.
pub open spec fn builtin_names() -> Seq<Seq<char>> {
    seq!["feature_with_tests"@, "smoke_success"@]
}

/// The YAML body of the built-in procedure with the given name.
pub open spec fn builtin_yaml(name: Seq<char>) -> Option<Seq<char>> {
    if name == "feature_with_tests"@ {
        Some(FEATURE_WITH_TESTS@)
    } else if name == "smoke_success"@ {
        Some(SMOKE_SUCCESS@)
    } else {
        None
    }
}

/// Look up a built-in procedure's raw YAML body by name. Returns `None` for
/// unknown names.
pub fn builtin_procedure_yaml(name: &str) -> (r: Option<&'static str>)
    ensures
        match builtin_yaml(name@) {
            Some(y) => r matches Some(s) && s@ == y,
            None => r is None,
        },
{
    if chars_eq_str(&crate::text::chars_of(name), "feature_with_tests") {
        Some(FEATURE_WITH_TESTS)
    } else if chars_eq_str(&crate::text::chars_of(name), "smoke_success") {
        Some(SMOKE_SUCCESS)
    } else {
        None
    }
}

/// Names of every built-in procedure, in their canonical order.
pub fn builtin_procedure_names() -> (r: Vec<&'static str>)
    ensures
        r.len() == builtin_names().len(),
        forall|i: int| 0 <= i < r.len() ==> (#[trigger] r@[i])@ == builtin_names()[i],
{
    let mut v: Vec<&'static str> = Vec::new();
    v.push("feature_with_tests");
    v.push("smoke_success");
    v
}

/// The YAML bodies of every built-in procedure, in canonical order.
pub fn builtin_procedure_yamls() -> (r: Vec<&'static str>)
    ensures
        r.len() == builtin_names().len(),
        forall|i: int| 0 <= i < r.len() ==> builtin_yaml(builtin_names()[i]) == Some((#[trigger] r@[i])@),
{
    let mut v: Vec<&'static str> = Vec::new();
    v.push(FEATURE_WITH_TESTS);
    v.push(SMOKE_SUCCESS);
    proof {
        reveal_strlit("feature_with_tests");
        reveal_strlit("smoke_success");
        assert("smoke_success"@.len() != "feature_with_tests"@.len());
        assert(builtin_yaml(builtin_names()[0]) == Some(v@[0]@));
        assert(builtin_yaml(builtin_names()[1]) == Some(v@[1]@));
    }
    v
}

/// A name has a bundled YAML body exactly when it is listed among the
/// built-in procedure names.
pub proof fn law_builtin_yaml_iff_listed(name: Seq<char>)
    ensures
        builtin_yaml(name) is Some <==> builtin_names().contains(name),
{
    if builtin_yaml(name) is Some {
        if name == "feature_with_tests"@ {
            assert(builtin_names()[0] == name);
        } else {
            assert(builtin_names()[1] == name);
        }
    }
}

/// Each bundled text names its own procedure: it opens with the line
/// `name: <name>`.
pub proof fn law_builtin_yaml_names_itself(name: Seq<char>)
    requires
        builtin_yaml(name) is Some,
    ensures
        ({
            let head = "name: "@ + name + "\n"@;
            &&& head.len() <= builtin_yaml(name)->0.len()
            &&& builtin_yaml(name)->0.subrange(0, head.len() as int) == head
        }),
{
    reveal_strlit("name: ");
    reveal_strlit("\n");
    reveal_strlit("feature_with_tests");
    reveal_strlit("smoke_success");
    let head = "name: "@ + name + "\n"@;
    if name == "feature_with_tests"@ {
        lemma_feature_with_tests_text();
        reveal_strlit("name: feature_with_tests\n");
        assert(head =~= "name: feature_with_tests\n"@);
        assert(FEATURE_WITH_TESTS@.subrange(0, head.len() as int) =~= head);
    } else {
        lemma_smoke_success_text();
        reveal_strlit("name: smoke_success\n");
        assert(head =~= "name: smoke_success\n"@);
        assert(SMOKE_SUCCESS@.subrange(0, head.len() as int) =~= head);
    }
}

/// The first line of the bundled `feature_with_tests` text.
proof fn lemma_feature_with_tests_text()
    ensures
        FEATURE_WITH_TESTS@.len() > 25,
        FEATURE_WITH_TESTS@.subrange(0, 25) == "name: feature_with_tests\n"@,
{
    reveal_strlit("name: feature_with_tests\n");
    reveal_strlit(r#"name: feature_with_tests
version: 1
description: >
  Plan and implement a feature with tests in a workspace, run the tests,
  get the change reviewed, address review feedback, and merge once a human
  approves.
triggers:
  match_hints:
    - add a feature
    - implement a change with tests
  params:
    goal:
      type: string
      required: true
      description: What the feature should do.
    test_command:
      type: string
      required: false
      description: Command that runs the project's tests.
      default: npm test
initial_state: plan
states:
  plan:
    action:
      kind: create_session
      executor: CLAUDE_CODE
      prompt: "Plan and implement the following goal, including tests: {{goal}}"
    on_success: test
    on_failure: failed
  test:
    gate:
      kind: deterministic
      run: "cd {{workspace.worktree_path}} && {{test_command}}"
      pass_when: "exit_code == 0"
    on_success: review
    on_failure: fix_tests
  fix_tests:
    action:
      kind: follow_up
      session_ref: plan
      prompt: "The tests failed. Fix them. Test output: {{gate.output}}"
    gate:
      kind: deterministic
      run: "cd {{workspace.worktree_path}} && {{test_command}}"
      pass_when: "exit_code == 0"
    max_attempts: 3
    on_success: review
    on_failure: failed
  review:
    action:
      kind: start_review
      session_ref: plan
      executor: CLAUDE_CODE
      prompt: "Review the change for: {{goal}}. Answer with a JSON object {\"verdict\": \"pass\" or \"fail\", \"feedback\": \"...\"}."
    gate:
      kind: llm_judge
      pass_when: "response.verdict == 'pass'"
    on_success: approve
    on_failure: address_feedback
  address_feedback:
    action:
      kind: follow_up
      session_ref: plan
      prompt: "Address this review feedback: {{gate.response.feedback}}"
    on_success: test
    on_failure: failed
  approve:
    gate:
      kind: human
      prompt: "Merge the change for: {{goal}}?"
    on_success: merge
    on_failure: failed
  merge:
    action:
      kind: merge
      session_ref: plan
    on_success: done
    on_failure: failed
  done:
    terminal: success
  failed:
    terminal: failure
"#);
    assert(FEATURE_WITH_TESTS@.subrange(0, 25) =~= "name: feature_with_tests\n"@);
}

/// The first line of the bundled `smoke_success` text.
proof fn lemma_smoke_success_text()
    ensures
        SMOKE_SUCCESS@.len() > 20,
        SMOKE_SUCCESS@.subrange(0, 20) == "name: smoke_success\n"@,
{
    reveal_strlit("name: smoke_success\n");
    reveal_strlit(r#"name: smoke_success
version: 1
description: Minimal procedure that plans, reviews and finishes successfully.
triggers:
  match_hints:
    - smoke test the procedure runtime
initial_state: plan
states:
  plan:
    action:
      kind: create_session
      executor: CLAUDE_CODE
      prompt: "Smoke test: reply with a short acknowledgement."
    gate:
      kind: deterministic
      run: "true"
      pass_when: "exit_code == 0"
    on_success: review
    on_failure: failed
  review:
    action:
      kind: start_review
      session_ref: plan
      executor: CLAUDE_CODE
      prompt: "Answer with a JSON object {\"verdict\": \"pass\", \"feedback\": \"...\"}."
    gate:
      kind: llm_judge
      pass_when: "response.verdict == 'pass'"
    on_success: merge
    on_failure: failed
  merge:
    action:
      kind: merge
      session_ref: plan
    terminal: success
  failed:
    terminal: failure
"#);
    assert(SMOKE_SUCCESS@.subrange(0, 20) =~= "name: smoke_success\n"@);
}

} // verus!
